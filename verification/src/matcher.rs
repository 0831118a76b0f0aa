//! Location matching, following nginx's priority of location rules.

use crate::pattern::{
    compile_pattern, pattern_is_match, regex_compiles, regex_is_match,
};
use crate::text::{
    chars_of, has_prefix, same_chars, starts_with, trim, trim_bounds, utf8_len,
};
use crate::types::{Location, RuleType};
use vstd::prelude::*;
use vstd::string::StringExecFns;

verus! {

broadcast use vstd::string::group_string_axioms;

/// Marker of an exact rule: `"= "`.
pub open spec fn exact_marker() -> Seq<char> {
    seq!['=', ' ']
}

/// Marker of a strict prefix rule: `"^~ "`.
pub open spec fn strict_prefix_marker() -> Seq<char> {
    seq!['^', '~', ' ']
}

/// Marker of a case-insensitive regex rule: `"~* "`.
pub open spec fn regex_insensitive_marker() -> Seq<char> {
    seq!['~', '*', ' ']
}

/// Marker of a case-sensitive regex rule: `"~ "`.
pub open spec fn regex_sensitive_marker() -> Seq<char> {
    seq!['~', ' ']
}

/// The flag group that makes a regex case-insensitive: `"(?i)"`.
pub open spec fn case_insensitive_flag() -> Seq<char> {
    seq!['(', '?', 'i', ')']
}

/// The kind and the pattern of a rule: the rule is trimmed, and its leading
/// marker, if any, decides the kind and is cut off.
pub open spec fn spec_parse_rule(rule: Seq<char>) -> (RuleType, Seq<char>) {
    let t = trim(rule);
    if starts_with(t, exact_marker()) {
        (RuleType::Exact, t.skip(2))
    } else if starts_with(t, strict_prefix_marker()) {
        (RuleType::PrefixStrict, t.skip(3))
    } else if starts_with(t, regex_insensitive_marker()) {
        (RuleType::RegexInsensitive, t.skip(3))
    } else if starts_with(t, regex_sensitive_marker()) {
        (RuleType::RegexSensitive, t.skip(2))
    } else {
        (RuleType::Prefix, t)
    }
}

/// Parse a location rule string and return the rule type and pattern.
pub fn parse_rule(rule: &str) -> (res: (RuleType, &str))
    ensures
        res.0 == spec_parse_rule(rule@).0,
        res.1@ == spec_parse_rule(rule@).1,
{
    let cs = chars_of(rule);
    let (a, b) = trim_bounds(&cs);
    let ghost t = cs@.subrange(a as int, b as int);
    let n = b - a;
    if n >= 2 && cs[a] == '=' && cs[a + 1] == ' ' {
        assert(t.subrange(0, 2) =~= exact_marker());
        assert(t.skip(2) =~= cs@.subrange(a + 2, b as int));
        return (RuleType::Exact, rule.substring_char(a + 2, b));
    }
    assert(!starts_with(t, exact_marker())) by {
        if starts_with(t, exact_marker()) {
            assert(t.subrange(0, 2)[0] == t[0]);
            assert(t.subrange(0, 2)[1] == t[1]);
        }
    }
    if n >= 3 && cs[a] == '^' && cs[a + 1] == '~' && cs[a + 2] == ' ' {
        assert(t.subrange(0, 3) =~= strict_prefix_marker());
        assert(t.skip(3) =~= cs@.subrange(a + 3, b as int));
        return (RuleType::PrefixStrict, rule.substring_char(a + 3, b));
    }
    assert(!starts_with(t, strict_prefix_marker())) by {
        if starts_with(t, strict_prefix_marker()) {
            assert(t.subrange(0, 3)[0] == t[0]);
            assert(t.subrange(0, 3)[1] == t[1]);
            assert(t.subrange(0, 3)[2] == t[2]);
        }
    }
    if n >= 3 && cs[a] == '~' && cs[a + 1] == '*' && cs[a + 2] == ' ' {
        assert(t.subrange(0, 3) =~= regex_insensitive_marker());
        assert(t.skip(3) =~= cs@.subrange(a + 3, b as int));
        return (RuleType::RegexInsensitive, rule.substring_char(a + 3, b));
    }
    assert(!starts_with(t, regex_insensitive_marker())) by {
        if starts_with(t, regex_insensitive_marker()) {
            assert(t.subrange(0, 3)[0] == t[0]);
            assert(t.subrange(0, 3)[1] == t[1]);
            assert(t.subrange(0, 3)[2] == t[2]);
        }
    }
    if n >= 2 && cs[a] == '~' && cs[a + 1] == ' ' {
        assert(t.subrange(0, 2) =~= regex_sensitive_marker());
        assert(t.skip(2) =~= cs@.subrange(a + 2, b as int));
        return (RuleType::RegexSensitive, rule.substring_char(a + 2, b));
    }
    assert(!starts_with(t, regex_sensitive_marker())) by {
        if starts_with(t, regex_sensitive_marker()) {
            assert(t.subrange(0, 2)[0] == t[0]);
            assert(t.subrange(0, 2)[1] == t[1]);
        }
    }
    (RuleType::Prefix, rule.substring_char(a, b))
}

} // verus!

verus! {

/// The first index below `n` that satisfies `p`.
pub open spec fn first_index(p: spec_fn(int) -> bool, n: int) -> Option<int>
    decreases n,
{
    if n <= 0 {
        None
    } else {
        match first_index(p, n - 1) {
            Some(i) => Some(i),
            None => if p(n - 1) {
                Some(n - 1)
            } else {
                None
            },
        }
    }
}

/// Among the indices below `n` that satisfy `p`, the first one of greatest weight `w`.
pub open spec fn best_index(p: spec_fn(int) -> bool, w: spec_fn(int) -> int, n: int) -> Option<int>
    decreases n,
{
    if n <= 0 {
        None
    } else {
        let b = best_index(p, w, n - 1);
        if p(n - 1) && (match b {
            None => true,
            Some(j) => w(n - 1) > w(j),
        }) {
            Some(n - 1)
        } else {
            b
        }
    }
}

/// An optional index, as an integer.
pub open spec fn as_index(o: Option<usize>) -> Option<int> {
    match o {
        Some(i) => Some(i as int),
        None => None,
    }
}

/// The kind of a location's rule.
pub open spec fn rule_kind(loc: Location) -> RuleType {
    spec_parse_rule(loc.rule@).0
}

/// The pattern of a location's rule.
pub open spec fn rule_pattern(loc: Location) -> Seq<char> {
    spec_parse_rule(loc.rule@).1
}

/// The length in bytes of a location's pattern, by which prefix rules are ranked.
pub open spec fn pattern_weight(loc: Location) -> int {
    utf8_len(rule_pattern(loc)) as int
}

/// An exact rule applies to the path it spells out.
pub open spec fn exact_applies(loc: Location, path: Seq<char>) -> bool {
    rule_kind(loc) == RuleType::Exact && rule_pattern(loc) == path
}

/// A strict prefix rule applies to the paths that start with its pattern.
pub open spec fn strict_prefix_applies(loc: Location, path: Seq<char>) -> bool {
    rule_kind(loc) == RuleType::PrefixStrict && starts_with(path, rule_pattern(loc))
}

/// A regex rule applies where its regex compiles and matches the path; a
/// case-insensitive one is compiled with the flag group `(?i)` in front.
pub open spec fn regex_applies(loc: Location, path: Seq<char>) -> bool {
    match rule_kind(loc) {
        RuleType::RegexSensitive => regex_compiles(rule_pattern(loc)) && regex_is_match(
            rule_pattern(loc),
            path,
        ),
        RuleType::RegexInsensitive => {
            let p = case_insensitive_flag() + rule_pattern(loc);
            regex_compiles(p) && regex_is_match(p, path)
        },
        _ => false,
    }
}

/// A plain prefix rule applies to the paths that start with its pattern;
/// the pattern `/` applies to every path.
pub open spec fn prefix_applies(loc: Location, path: Seq<char>) -> bool {
    rule_kind(loc) == RuleType::Prefix && (rule_pattern(loc) == seq!['/'] || starts_with(
        path,
        rule_pattern(loc),
    ))
}

/// The first of the first `n` locations with an exact rule for `path`.
pub open spec fn first_exact(locs: Seq<Location>, path: Seq<char>, n: int) -> Option<int> {
    first_index(|i: int| exact_applies(locs[i], path), n)
}

/// Among the first `n` locations, the first strict prefix rule of longest pattern for `path`.
pub open spec fn best_strict_prefix(locs: Seq<Location>, path: Seq<char>, n: int) -> Option<int> {
    best_index(|i: int| strict_prefix_applies(locs[i], path), |i: int| pattern_weight(locs[i]), n)
}

/// The first of the first `n` locations with a regex rule that matches `path`.
pub open spec fn first_regex(locs: Seq<Location>, path: Seq<char>, n: int) -> Option<int> {
    first_index(|i: int| regex_applies(locs[i], path), n)
}

/// Among the first `n` locations, the first plain prefix rule of longest pattern for `path`.
pub open spec fn best_prefix(locs: Seq<Location>, path: Seq<char>, n: int) -> Option<int> {
    best_index(|i: int| prefix_applies(locs[i], path), |i: int| pattern_weight(locs[i]), n)
}

/// The location chosen for `path`: an exact rule first, then the longest
/// strict prefix rule, then the first matching regex rule, then the longest
/// plain prefix rule; among rules of equal standing, the earliest.
pub open spec fn spec_find_match(locs: Seq<Location>, path: Seq<char>) -> Option<int> {
    let n = locs.len() as int;
    if first_exact(locs, path, n) is Some {
        first_exact(locs, path, n)
    } else if best_strict_prefix(locs, path, n) is Some {
        best_strict_prefix(locs, path, n)
    } else if first_regex(locs, path, n) is Some {
        first_regex(locs, path, n)
    } else {
        best_prefix(locs, path, n)
    }
}

/// The index of the first location with an exact rule for `path`.
fn exact_match_index(locations: &[Location], path: &Vec<char>) -> (r: Option<usize>)
    ensures
        as_index(r) == first_exact(locations@, path@, locations@.len() as int),
{
    let n = locations.len();
    for i in 0..n
        invariant
            n == locations@.len(),
            first_exact(locations@, path@, i as int) is None,
    {
        let (kind, pattern) = parse_rule(locations[i].rule.as_str());
        if kind == RuleType::Exact && same_chars(&chars_of(pattern), path) {
            proof {
                lemma_first_index_stable(|j: int| exact_applies(locations@[j], path@), i + 1, n as int);
            }
            return Some(i);
        }
    }
    None
}

/// The index of the first strict prefix rule of longest pattern for `path`.
fn strict_prefix_match_index(locations: &[Location], path: &Vec<char>) -> (r: Option<usize>)
    ensures
        as_index(r) == best_strict_prefix(locations@, path@, locations@.len() as int),
{
    let n = locations.len();
    let mut best: Option<(usize, usize)> = None;
    for i in 0..n
        invariant
            n == locations@.len(),
            as_index(
                match best {
                    Some(b) => Some(b.0),
                    None => None,
                },
            ) == best_strict_prefix(locations@, path@, i as int),
            best matches Some(b) ==> b.0 < i && b.1 == pattern_weight(locations@[b.0 as int]),
    {
        let ghost prev = best;
        let (kind, pattern) = parse_rule(locations[i].rule.as_str());
        let applies = kind == RuleType::PrefixStrict && has_prefix(path, &chars_of(pattern));
        assert(applies == strict_prefix_applies(locations@[i as int], path@));
        let len = pattern.as_bytes().len();
        assert(len == pattern_weight(locations@[i as int]));
        if applies {
            match best {
                None => best = Some((i, len)),
                Some((_, l)) => if len > l {
                    best = Some((i, len));
                },
            }
        }
        assert(best_strict_prefix(locations@, path@, i + 1) == (if applies && (match prev {
            None => true,
            Some(b) => pattern_weight(locations@[i as int]) > pattern_weight(locations@[b.0 as int]),
        }) {
            Some(i as int)
        } else {
            best_strict_prefix(locations@, path@, i as int)
        }));
    }
    match best {
        Some((i, _)) => Some(i),
        None => None,
    }
}

/// The index of the first plain prefix rule of longest pattern for `path`.
fn prefix_match_index(locations: &[Location], path: &Vec<char>) -> (r: Option<usize>)
    ensures
        as_index(r) == best_prefix(locations@, path@, locations@.len() as int),
{
    let n = locations.len();
    let mut best: Option<(usize, usize)> = None;
    for i in 0..n
        invariant
            n == locations@.len(),
            as_index(
                match best {
                    Some(b) => Some(b.0),
                    None => None,
                },
            ) == best_prefix(locations@, path@, i as int),
            best matches Some(b) ==> b.0 < i && b.1 == pattern_weight(locations@[b.0 as int]),
    {
        let (kind, pattern) = parse_rule(locations[i].rule.as_str());
        if kind == RuleType::Prefix {
            let pcs = chars_of(pattern);
            let is_root = pcs.len() == 1 && pcs[0] == '/';
            assert(is_root == (pcs@ == seq!['/'])) by {
                if pcs@ == seq!['/'] {
                    assert(pcs@[0] == '/');
                }
                if is_root {
                    assert(pcs@ =~= seq!['/']);
                }
            }
            if is_root || has_prefix(path, &pcs) {
                let len = pattern.as_bytes().len();
                match best {
                    None => best = Some((i, len)),
                    Some((_, l)) => if len > l {
                        best = Some((i, len));
                    },
                }
            }
        }
    }
    match best {
        Some((i, _)) => Some(i),
        None => None,
    }
}

/// Whether the rule of `loc` is a regex rule that matches `path`.
fn regex_rule_matches(loc: &Location, path: &str) -> (b: bool)
    ensures
        b == regex_applies(*loc, path@),
{
    let (kind, pattern) = parse_rule(loc.rule.as_str());
    match kind {
        RuleType::RegexSensitive => match compile_pattern(pattern) {
            Some(re) => pattern_is_match(&re, path),
            None => false,
        },
        RuleType::RegexInsensitive => {
            let mut p = String::from_str("(?i)");
            proof {
                reveal_strlit("(?i)");
            }
            p.append(pattern);
            assert(p@ =~= case_insensitive_flag() + pattern@);
            match compile_pattern(p.as_str()) {
                Some(re) => pattern_is_match(&re, path),
                None => false,
            }
        },
        _ => false,
    }
}

/// For each location, whether its rule is a regex rule that matches `path`.
pub fn regex_hits(locations: &[Location], path: &str) -> (hits: Vec<bool>)
    ensures
        hits@ == regex_results(locations@, path@),
{
    let n = locations.len();
    let mut hits: Vec<bool> = Vec::new();
    for i in 0..n
        invariant
            n == locations@.len(),
            hits@.len() == i,
            forall|j: int| 0 <= j < i ==> hits@[j] == regex_applies(locations@[j], path@),
    {
        hits.push(regex_rule_matches(&locations[i], path));
    }
    assert(hits@ =~= regex_results(locations@, path@));
    hits
}

/// The index of the location chosen for `path` (see `spec_find_match`).
pub fn find_match_index(locations: &[Location], path: &str) -> (r: Option<usize>)
    ensures
        as_index(r) == spec_find_match(locations@, path@),
{
    let hits = regex_hits(locations, path);
    proof {
        law_select_with_regex_results(locations@, path@);
    }
    select_location(locations, path, hits.as_slice())
}

/// Find the best matching location for a given path.
/// Follows nginx location matching priority:
/// 1. Exact match (=)
/// 2. Prefix match with highest priority (^~)
/// 3. Regular expressions in order (~, ~*)
/// 4. Prefix matches in order (/)
pub fn find_match<'a>(locations: &'a [Location], path: &str) -> (res: Option<&'a Location>)
    ensures
        match (res, spec_find_match(locations@, path@)) {
            (Some(loc), Some(i)) => 0 <= i < locations@.len() && *loc == locations@[i],
            (None, None) => true,
            _ => false,
        },
{
    match find_match_index(locations, path) {
        Some(i) => {
            proof {
                lemma_find_match_in_bounds(locations@, path@);
            }
            Some(&locations[i])
        },
        None => None,
    }
}

/// `first_index` finds an index below `n` that satisfies `p`, and none before it.
pub proof fn lemma_first_index(p: spec_fn(int) -> bool, n: int)
    ensures
        match first_index(p, n) {
            Some(i) => 0 <= i < n && p(i) && forall|j: int| 0 <= j < i ==> !#[trigger] p(j),
            None => forall|j: int| 0 <= j < n ==> !#[trigger] p(j),
        },
    decreases n,
{
    if n > 0 {
        lemma_first_index(p, n - 1);
    }
}

/// Once `first_index` has found an index, looking further does not change it.
pub proof fn lemma_first_index_stable(p: spec_fn(int) -> bool, m: int, n: int)
    requires
        m <= n,
        first_index(p, m) is Some,
    ensures
        first_index(p, n) == first_index(p, m),
    decreases n,
{
    if n > m {
        lemma_first_index_stable(p, m, n - 1);
    }
}

/// `best_index` finds an index below `n` that satisfies `p` with a weight no
/// smaller than any other such index, and strictly greater than those before it.
pub proof fn lemma_best_index(p: spec_fn(int) -> bool, w: spec_fn(int) -> int, n: int)
    ensures
        match best_index(p, w, n) {
            Some(i) => {
                &&& 0 <= i < n
                &&& p(i)
                &&& forall|j: int| 0 <= j < n && #[trigger] p(j) ==> w(j) <= w(i)
                &&& forall|j: int| 0 <= j < i && #[trigger] p(j) ==> w(j) < w(i)
            },
            None => forall|j: int| 0 <= j < n ==> !#[trigger] p(j),
        },
    decreases n,
{
    if n > 0 {
        lemma_best_index(p, w, n - 1);
    }
}

/// The chosen index is that of a location.
pub proof fn lemma_find_match_in_bounds(locs: Seq<Location>, path: Seq<char>)
    ensures
        spec_find_match(locs, path) matches Some(i) ==> 0 <= i < locs.len(),
{
    let n = locs.len() as int;
    lemma_first_index(|i: int| exact_applies(locs[i], path), n);
    lemma_best_index(|i: int| strict_prefix_applies(locs[i], path), |i: int| pattern_weight(locs[i]), n);
    lemma_first_index(|i: int| regex_applies(locs[i], path), n);
    lemma_best_index(|i: int| prefix_applies(locs[i], path), |i: int| pattern_weight(locs[i]), n);
}

} // verus!

verus! {

/// Some rule of `loc` applies to `path`.
pub open spec fn rule_applies(loc: Location, path: Seq<char>) -> bool {
    ||| exact_applies(loc, path)
    ||| strict_prefix_applies(loc, path)
    ||| regex_applies(loc, path)
    ||| prefix_applies(loc, path)
}

proof fn lemma_phases(locs: Seq<Location>, path: Seq<char>)
    ensures
        match first_exact(locs, path, locs.len() as int) {
            Some(i) => 0 <= i < locs.len() && exact_applies(locs[i], path) && forall|j: int|
                0 <= j < i ==> !exact_applies(#[trigger] locs[j], path),
            None => forall|j: int| 0 <= j < locs.len() ==> !exact_applies(#[trigger] locs[j], path),
        },
        match best_strict_prefix(locs, path, locs.len() as int) {
            Some(i) => {
                &&& 0 <= i < locs.len()
                &&& strict_prefix_applies(locs[i], path)
                &&& forall|j: int|
                    0 <= j < locs.len() && strict_prefix_applies(#[trigger] locs[j], path)
                        ==> pattern_weight(locs[j]) <= pattern_weight(locs[i])
                &&& forall|j: int|
                    0 <= j < i && strict_prefix_applies(#[trigger] locs[j], path) ==> pattern_weight(
                        locs[j],
                    ) < pattern_weight(locs[i])
            },
            None => forall|j: int|
                0 <= j < locs.len() ==> !strict_prefix_applies(#[trigger] locs[j], path),
        },
        match first_regex(locs, path, locs.len() as int) {
            Some(i) => 0 <= i < locs.len() && regex_applies(locs[i], path) && forall|j: int|
                0 <= j < i ==> !regex_applies(#[trigger] locs[j], path),
            None => forall|j: int| 0 <= j < locs.len() ==> !regex_applies(#[trigger] locs[j], path),
        },
        match best_prefix(locs, path, locs.len() as int) {
            Some(i) => {
                &&& 0 <= i < locs.len()
                &&& prefix_applies(locs[i], path)
                &&& forall|j: int|
                    0 <= j < locs.len() && prefix_applies(#[trigger] locs[j], path)
                        ==> pattern_weight(locs[j]) <= pattern_weight(locs[i])
                &&& forall|j: int|
                    0 <= j < i && prefix_applies(#[trigger] locs[j], path) ==> pattern_weight(
                        locs[j],
                    ) < pattern_weight(locs[i])
            },
            None => forall|j: int| 0 <= j < locs.len() ==> !prefix_applies(#[trigger] locs[j], path),
        },
{
    let n = locs.len() as int;
    let pe = |i: int| exact_applies(locs[i], path);
    let ps = |i: int| strict_prefix_applies(locs[i], path);
    let pr = |i: int| regex_applies(locs[i], path);
    let pp = |i: int| prefix_applies(locs[i], path);
    let w = |i: int| pattern_weight(locs[i]);
    lemma_first_index(pe, n);
    lemma_best_index(ps, w, n);
    lemma_first_index(pr, n);
    lemma_best_index(pp, w, n);
    assert forall|j: int| 0 <= j < n implies (pe(j) == exact_applies(#[trigger] locs[j], path)
        && ps(j) == strict_prefix_applies(locs[j], path) && pr(j) == regex_applies(locs[j], path)
        && pp(j) == prefix_applies(locs[j], path) && w(j) == pattern_weight(locs[j])) by {}
}

/// Whatever location is chosen for a path, its rule applies to that path.
pub proof fn law_chosen_location_applies(locs: Seq<Location>, path: Seq<char>)
    ensures
        spec_find_match(locs, path) matches Some(i) ==> 0 <= i < locs.len() && rule_applies(
            locs[i],
            path,
        ),
{
    lemma_phases(locs, path);
}

/// No location is chosen exactly when no location's rule applies to the path.
pub proof fn law_no_match_iff_nothing_applies(locs: Seq<Location>, path: Seq<char>)
    ensures
        spec_find_match(locs, path) is None <==> forall|j: int|
            0 <= j < locs.len() ==> !rule_applies(#[trigger] locs[j], path),
{
    lemma_phases(locs, path);
    if spec_find_match(locs, path) is Some {
        law_chosen_location_applies(locs, path);
    }
}

/// An exact rule for the path wins over every other rule: the first one is chosen.
pub proof fn law_exact_match_wins(locs: Seq<Location>, path: Seq<char>, k: int)
    requires
        0 <= k < locs.len(),
        exact_applies(locs[k], path),
    ensures
        spec_find_match(locs, path) matches Some(i) && i <= k && exact_applies(locs[i], path)
            && forall|j: int| 0 <= j < i ==> !exact_applies(#[trigger] locs[j], path),
{
    lemma_phases(locs, path);
}

/// Without an exact rule for the path, a strict prefix rule wins over the
/// regex and plain prefix rules: the one chosen has the longest pattern, and
/// comes first among those of that length.
pub proof fn law_strict_prefix_longest_wins(locs: Seq<Location>, path: Seq<char>, k: int)
    requires
        0 <= k < locs.len(),
        strict_prefix_applies(locs[k], path),
        forall|j: int| 0 <= j < locs.len() ==> !exact_applies(#[trigger] locs[j], path),
    ensures
        spec_find_match(locs, path) matches Some(i) && strict_prefix_applies(locs[i], path)
            && pattern_weight(locs[k]) <= pattern_weight(locs[i]) && forall|j: int|
            0 <= j < i && strict_prefix_applies(#[trigger] locs[j], path) ==> pattern_weight(
                locs[j],
            ) < pattern_weight(locs[i]),
{
    lemma_phases(locs, path);
}

/// Without exact or strict prefix rules for the path, the first regex rule
/// that matches it is chosen.
pub proof fn law_first_regex_wins(locs: Seq<Location>, path: Seq<char>, k: int)
    requires
        0 <= k < locs.len(),
        regex_applies(locs[k], path),
        forall|j: int|
            0 <= j < locs.len() ==> !exact_applies(#[trigger] locs[j], path)
                && !strict_prefix_applies(locs[j], path),
    ensures
        spec_find_match(locs, path) matches Some(i) && i <= k && regex_applies(locs[i], path)
            && forall|j: int| 0 <= j < i ==> !regex_applies(#[trigger] locs[j], path),
{
    lemma_phases(locs, path);
}

/// When only plain prefix rules apply, the one of longest pattern is chosen,
/// and the first among those of that length.
pub proof fn law_longest_prefix_wins(locs: Seq<Location>, path: Seq<char>, k: int)
    requires
        0 <= k < locs.len(),
        prefix_applies(locs[k], path),
        forall|j: int|
            0 <= j < locs.len() ==> !exact_applies(#[trigger] locs[j], path)
                && !strict_prefix_applies(locs[j], path) && !regex_applies(locs[j], path),
    ensures
        spec_find_match(locs, path) matches Some(i) && prefix_applies(locs[i], path)
            && pattern_weight(locs[k]) <= pattern_weight(locs[i]) && forall|j: int|
            0 <= j < i && prefix_applies(#[trigger] locs[j], path) ==> pattern_weight(locs[j])
                < pattern_weight(locs[i]),
{
    lemma_phases(locs, path);
}

/// The text of a rule of the given kind and pattern.
pub open spec fn rule_text(kind: RuleType, pattern: Seq<char>) -> Seq<char> {
    match kind {
        RuleType::Exact => exact_marker() + pattern,
        RuleType::PrefixStrict => strict_prefix_marker() + pattern,
        RuleType::RegexSensitive => regex_sensitive_marker() + pattern,
        RuleType::RegexInsensitive => regex_insensitive_marker() + pattern,
        RuleType::Prefix => pattern,
    }
}

/// A plain prefix pattern that reads back as itself: it has no white space
/// at either end and does not start with a marker.
pub open spec fn plain_prefix_pattern(pattern: Seq<char>) -> bool {
    &&& trim(pattern) == pattern
    &&& !starts_with(pattern, exact_marker())
    &&& !starts_with(pattern, strict_prefix_marker())
    &&& !starts_with(pattern, regex_insensitive_marker())
    &&& !starts_with(pattern, regex_sensitive_marker())
}

/// A rule written from a kind and a pattern is read back as that kind and
/// pattern, where the pattern does not end in white space (and, for a plain
/// prefix rule, reads back as itself).
pub proof fn law_parse_rule_reads_back(kind: RuleType, pattern: Seq<char>)
    requires
        pattern.len() > 0,
        !crate::text::is_white_space(pattern.last()),
        kind == RuleType::Prefix ==> plain_prefix_pattern(pattern),
    ensures
        spec_parse_rule(rule_text(kind, pattern)) == (kind, pattern),
{
    let s = rule_text(kind, pattern);
    if kind != RuleType::Prefix {
        assert(s.len() > 0 && !crate::text::is_white_space(s[0]));
        assert(crate::text::trim_start(s) == s);
        assert(s.last() == pattern.last());
        assert(trim(s) == s);
        let m = s.len() - pattern.len();
        assert(s.skip(m) =~= pattern);
        match kind {
            RuleType::Exact => {
                assert(s.subrange(0, 2) =~= exact_marker());
            },
            RuleType::PrefixStrict => {
                assert(s.subrange(0, 3) =~= strict_prefix_marker());
                assert(s.subrange(0, 2) != exact_marker()) by {
                    assert(s.subrange(0, 2)[0] != exact_marker()[0]);
                }
            },
            RuleType::RegexInsensitive => {
                assert(s.subrange(0, 3) =~= regex_insensitive_marker());
                assert(s.subrange(0, 2) != exact_marker()) by {
                    assert(s.subrange(0, 2)[0] != exact_marker()[0]);
                }
                assert(s.subrange(0, 3) != strict_prefix_marker()) by {
                    assert(s.subrange(0, 3)[0] != strict_prefix_marker()[0]);
                }
            },
            RuleType::RegexSensitive => {
                assert(s.subrange(0, 2) =~= regex_sensitive_marker());
                assert(s.subrange(0, 2) != exact_marker()) by {
                    assert(s.subrange(0, 2)[0] != exact_marker()[0]);
                }
                assert(!starts_with(s, strict_prefix_marker())) by {
                    if s.len() >= 3 {
                        assert(s.subrange(0, 3)[0] != strict_prefix_marker()[0]);
                    }
                }
                assert(!starts_with(s, regex_insensitive_marker())) by {
                    if s.len() >= 3 {
                        assert(s.subrange(0, 3)[1] != regex_insensitive_marker()[1]);
                    }
                }
            },
            RuleType::Prefix => {},
        }
    }
}

} // verus!

verus! {

/// Whether the regex rule of each location matches `path`.
pub open spec fn regex_results(locs: Seq<Location>, path: Seq<char>) -> Seq<bool> {
    Seq::new(locs.len(), |i: int| regex_applies(locs[i], path))
}

/// The first index below `n` where `hits` holds `true`.
pub open spec fn first_hit(hits: Seq<bool>, n: int) -> Option<int> {
    first_index(|i: int| hits[i], n)
}

/// The location chosen for `path` when `hits[i]` tells whether the regex
/// rule of location `i` matches it.
pub open spec fn spec_select_location(locs: Seq<Location>, path: Seq<char>, hits: Seq<bool>) -> Option<int> {
    let n = locs.len() as int;
    if first_exact(locs, path, n) is Some {
        first_exact(locs, path, n)
    } else if best_strict_prefix(locs, path, n) is Some {
        best_strict_prefix(locs, path, n)
    } else if first_hit(hits, n) is Some {
        first_hit(hits, n)
    } else {
        best_prefix(locs, path, n)
    }
}

/// The location chosen for `path`, given for each location whether its regex
/// rule matches `path` (`regex_hits[i]`; false for a location without one).
pub fn select_location(locations: &[Location], path: &str, regex_hits: &[bool]) -> (r: Option<usize>)
    requires
        regex_hits@.len() == locations@.len(),
    ensures
        as_index(r) == spec_select_location(locations@, path@, regex_hits@),
{
    let path_chars = chars_of(path);
    if let Some(i) = exact_match_index(locations, &path_chars) {
        return Some(i);
    }
    if let Some(i) = strict_prefix_match_index(locations, &path_chars) {
        return Some(i);
    }
    let n = locations.len();
    for i in 0..n
        invariant
            n == locations@.len() == regex_hits@.len(),
            first_hit(regex_hits@, i as int) is None,
            first_exact(locations@, path@, n as int) is None,
            best_strict_prefix(locations@, path@, n as int) is None,
    {
        if regex_hits[i] {
            proof {
                let hits = regex_hits@;
                lemma_first_index_stable(|j: int| hits[j], i + 1, n as int);
            }
            return Some(i);
        }
    }
    prefix_match_index(locations, &path_chars)
}

/// `first_index` depends only on the predicate below the bound.
pub proof fn lemma_first_index_congruent(p: spec_fn(int) -> bool, q: spec_fn(int) -> bool, n: int)
    requires
        forall|i: int| 0 <= i < n ==> #[trigger] p(i) == q(i),
    ensures
        first_index(p, n) == first_index(q, n),
    decreases n,
{
    if n > 0 {
        lemma_first_index_congruent(p, q, n - 1);
    }
}

/// Choosing a location with the actual regex results is `find_match`'s choice.
pub proof fn law_select_with_regex_results(locs: Seq<Location>, path: Seq<char>)
    ensures
        spec_select_location(locs, path, regex_results(locs, path)) == spec_find_match(locs, path),
{
    let hits = regex_results(locs, path);
    lemma_first_index_congruent(
        |i: int| hits[i],
        |i: int| regex_applies(locs[i], path),
        locs.len() as int,
    );
}

} // verus!

verus! {

/// The chosen location's rule fits the path by the rule's own kind: an exact
/// rule names the path itself; a strict or plain prefix rule's pattern starts
/// the path (a plain `/` fits every path); a regex rule compiles and matches
/// the path (a case-insensitive one with `(?i)` in front).
pub proof fn law_chosen_rule_fits_path(locs: Seq<Location>, path: Seq<char>)
    ensures
        spec_find_match(locs, path) matches Some(i) ==> {
            let kind = rule_kind(locs[i]);
            let pattern = rule_pattern(locs[i]);
            &&& kind == RuleType::Exact ==> pattern == path
            &&& kind == RuleType::PrefixStrict ==> pattern.len() <= path.len() && path.subrange(
                0,
                pattern.len() as int,
            ) == pattern
            &&& kind == RuleType::Prefix ==> pattern == seq!['/'] || (pattern.len() <= path.len()
                && path.subrange(0, pattern.len() as int) == pattern)
            &&& kind == RuleType::RegexSensitive ==> regex_compiles(pattern) && regex_is_match(
                pattern,
                path,
            )
            &&& kind == RuleType::RegexInsensitive ==> regex_compiles(seq!['(', '?', 'i', ')'] + pattern)
                && regex_is_match(seq!['(', '?', 'i', ')'] + pattern, path)
        },
{
    lemma_phases(locs, path);
}

/// An exact rule is chosen only for the very path it names: any other path
/// gets another location (or none).
pub proof fn law_exact_rule_only_for_its_path(locs: Seq<Location>, path: Seq<char>, i: int)
    requires
        0 <= i < locs.len(),
        rule_kind(locs[i]) == RuleType::Exact,
        rule_pattern(locs[i]) != path,
    ensures
        spec_find_match(locs, path) != Some(i),
{
    law_chosen_rule_fits_path(locs, path);
}

} // verus!

verus! {

/// What each kind of rule applies to, in terms of the rule's kind and
/// pattern alone, and the weight by which prefix rules are ranked: the
/// number of bytes of the pattern's UTF-8 encoding.
pub proof fn law_rule_predicates(loc: Location, path: Seq<char>)
    ensures
        exact_applies(loc, path) <==> rule_kind(loc) == RuleType::Exact && rule_pattern(loc) == path,
        strict_prefix_applies(loc, path) <==> rule_kind(loc) == RuleType::PrefixStrict && rule_pattern(
            loc,
        ).len() <= path.len() && path.subrange(0, rule_pattern(loc).len() as int) == rule_pattern(
            loc,
        ),
        prefix_applies(loc, path) <==> rule_kind(loc) == RuleType::Prefix && (rule_pattern(loc)
            == seq!['/'] || (rule_pattern(loc).len() <= path.len() && path.subrange(
            0,
            rule_pattern(loc).len() as int,
        ) == rule_pattern(loc))),
        regex_applies(loc, path) <==> (rule_kind(loc) == RuleType::RegexSensitive && regex_compiles(
            rule_pattern(loc),
        ) && regex_is_match(rule_pattern(loc), path)) || (rule_kind(loc)
            == RuleType::RegexInsensitive && regex_compiles(seq!['(', '?', 'i', ')'] + rule_pattern(loc))
            && regex_is_match(seq!['(', '?', 'i', ')'] + rule_pattern(loc), path)),
        pattern_weight(loc) == vstd::utf8::encode_utf8(rule_pattern(loc)).len(),
{
}

} // verus!

verus! {

/// The markers that open the rules: `= `, `^~ `, `~* ` and `~ `; and the
/// flag group `(?i)` that makes a regex ignore case.
pub proof fn law_rule_markers()
    ensures
        exact_marker() == "= "@,
        strict_prefix_marker() == "^~ "@,
        regex_insensitive_marker() == "~* "@,
        regex_sensitive_marker() == "~ "@,
        case_insensitive_flag() == "(?i)"@,
{
    reveal_strlit("= ");
    reveal_strlit("^~ ");
    reveal_strlit("~* ");
    reveal_strlit("~ ");
    reveal_strlit("(?i)");
    assert(exact_marker() =~= "= "@);
    assert(strict_prefix_marker() =~= "^~ "@);
    assert(regex_insensitive_marker() =~= "~* "@);
    assert(regex_sensitive_marker() =~= "~ "@);
    assert(case_insensitive_flag() =~= "(?i)"@);
}

} // verus!
