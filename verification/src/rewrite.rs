//! Path rewriting with regex rules.

use crate::pattern::{compile_pattern, pattern_replace_all, regex_compiles, regex_replace_all};
use crate::types::RewriteRules;
use vstd::prelude::*;
use vstd::string::StringExecFns;

verus! {

/// One rewrite rule applied to `path`: every match of the rule's regex is
/// replaced; a rule whose regex does not compile leaves `path` unchanged.
pub open spec fn rewrite_step(path: Seq<char>, pattern: Seq<char>, replacement: Seq<char>) -> Seq<char> {
    if regex_compiles(pattern) {
        regex_replace_all(pattern, path, replacement)
    } else {
        path
    }
}

/// `path` after the first `n` rules, applied in order.
pub open spec fn spec_apply_rewrite(path: Seq<char>, rules: Seq<(Seq<char>, Seq<char>)>, n: int) -> Seq<char>
    decreases n,
{
    if n <= 0 {
        path
    } else {
        rewrite_step(spec_apply_rewrite(path, rules, n - 1), rules[n - 1].0, rules[n - 1].1)
    }
}

/// Apply path rewrite rules to a given path.
/// Returns the rewritten path.
pub fn apply_rewrite(path: &str, rules: &RewriteRules) -> (res: String)
    ensures
        res@ == spec_apply_rewrite(path@, rules@, rules@.len() as int),
{
    let mut result = String::from_str(path);
    let n = rules.len();
    for i in 0..n
        invariant
            n == rules@.len(),
            result@ == spec_apply_rewrite(path@, rules@, i as int),
    {
        let (pattern, replacement) = rules.get(i);
        if let Some(re) = compile_pattern(pattern) {
            result = pattern_replace_all(&re, result.as_str(), replacement);
        }
    }
    result
}

/// With no rules, the path is left as it is.
pub proof fn law_no_rules_no_change(path: Seq<char>, rules: Seq<(Seq<char>, Seq<char>)>)
    requires
        rules.len() == 0,
    ensures
        spec_apply_rewrite(path, rules, rules.len() as int) == path,
{
}

/// Rules whose regex does not compile have no effect.
pub proof fn law_invalid_rules_ignored(path: Seq<char>, rules: Seq<(Seq<char>, Seq<char>)>, n: int)
    requires
        0 <= n <= rules.len(),
        forall|i: int| 0 <= i < n ==> !regex_compiles(#[trigger] rules[i].0),
    ensures
        spec_apply_rewrite(path, rules, n) == path,
    decreases n,
{
    if n > 0 {
        law_invalid_rules_ignored(path, rules, n - 1);
    }
}

} // verus!
