//! The data that the proxy is configured with and that it logs.

use vstd::prelude::*;

verus! {

/// Kind of a location matching rule, told apart by the rule's leading marker.
#[derive(Debug, Clone, Copy, PartialEq, Eq, Structural)]
pub enum RuleType {
    /// Exact match: `= /path`
    Exact,
    /// Prefix match with highest priority: `^~ /prefix`
    PrefixStrict,
    /// Regex match (case-sensitive): `~ regex`
    RegexSensitive,
    /// Regex match (case-insensitive): `~* regex`
    RegexInsensitive,
    /// Default prefix match: `/`
    Prefix,
}

/// One location block of the configuration.
#[derive(Debug, Clone)]
pub struct Location {
    /// Nginx-like matching rule (e.g., "= /", "^~ /api", "~ .*\.js$")
    pub rule: String,
    /// Target proxy URL
    pub target: String,
    /// Optional HTML content injection
    pub inject: Option<String>,
    /// Optional path rewrite rules (regex pattern -> replacement)
    pub path_rewrite: Option<RewriteRules>,
}

/// Where WebSocket connections are proxied to.
#[derive(Debug, Clone)]
pub struct WebSocketConfig {
    pub target: String,
}

/// The whole proxy configuration.
#[derive(Debug, Clone)]
pub struct Config {
    /// Virtual server name (for identification)
    pub server_name: String,
    /// Default proxy target for unmatched requests
    pub default_target: String,
    /// Port to listen on
    pub port: u16,
    /// Optional WebSocket proxy configuration
    pub websocket: Option<WebSocketConfig>,
    /// Location rules array
    pub locations: Vec<Location>,
}

/// Patterns that occur once each.
pub open spec fn distinct_patterns(rules: Seq<(Seq<char>, Seq<char>)>) -> bool {
    forall|i: int, j: int|
        0 <= i < rules.len() && 0 <= j < rules.len() && i != j ==> #[trigger] rules[i].0
            != #[trigger] rules[j].0
}

/// Path rewrite rules: a map from regex patterns to replacements, which
/// keeps its entries in the order they were first inserted.
#[derive(Debug)]
pub struct RewriteRules {
    rules: Vec<(String, String)>,
}

impl Clone for RewriteRules {
    fn clone(&self) -> (r: Self)
        ensures
            r@ == self@,
    {
        self.duplicate()
    }
}

impl View for RewriteRules {
    type V = Seq<(Seq<char>, Seq<char>)>;

    closed spec fn view(&self) -> Seq<(Seq<char>, Seq<char>)> {
        self.rules@.map_values(|r: (String, String)| (r.0@, r.1@))
    }
}

impl RewriteRules {
    /// No pattern occurs twice.
    #[verifier::type_invariant]
    closed spec fn patterns_occur_once(self) -> bool {
        distinct_patterns(self@)
    }

    /// No rules.
    pub fn new() -> (r: RewriteRules)
        ensures
            r@ == Seq::<(Seq<char>, Seq<char>)>::empty(),
    {
        let r = RewriteRules { rules: Vec::new() };
        assert(r@ =~= Seq::<(Seq<char>, Seq<char>)>::empty());
        r
    }

    /// Maps `pattern` to `replacement`: an entry for `pattern` keeps its
    /// place and gets the new replacement; a new pattern goes last.
    pub fn insert(&mut self, pattern: String, replacement: String)
        ensures
            distinct_patterns(final(self)@),
            (exists|i: int| 0 <= i < old(self)@.len() && old(self)@[i].0 == pattern@) ==> ({
                let i = choose|i: int| 0 <= i < old(self)@.len() && old(self)@[i].0 == pattern@;
                final(self)@ == old(self)@.update(i, (pattern@, replacement@))
            }),
            (forall|i: int| 0 <= i < old(self)@.len() ==> old(self)@[i].0 != pattern@)
                ==> final(self)@ == old(self)@.push((pattern@, replacement@)),
    {
        proof {
            use_type_invariant(&*self);
        }
        let mut rules: Vec<(String, String)> = Vec::new();
        std::mem::swap(&mut rules, &mut self.rules);
        proof {
            assert(self@ =~= Seq::<(Seq<char>, Seq<char>)>::empty());
        }
        let ghost old_view = rules@.map_values(|r: (String, String)| (r.0@, r.1@));
        assert(old_view == old(self)@);
        let n = rules.len();
        let mut i: usize = 0;
        while i < n
            invariant
                n == rules@.len(),
                rules@.map_values(|r: (String, String)| (r.0@, r.1@)) == old_view,
                distinct_patterns(old_view),
                old_view == old(self)@,
                i <= n,
                forall|j: int| 0 <= j < i ==> old_view[j].0 != pattern@,
            decreases n - i,
        {
            if rules[i].0 == pattern {
                let ghost k = i as int;
                rules.set(i, (pattern, replacement));
                let ghost new_view = rules@.map_values(|r: (String, String)| (r.0@, r.1@));
                proof {
                    assert(new_view =~= old_view.update(k, (old_view[k].0, replacement@)));
                    assert(distinct_patterns(new_view));
                    assert(old_view[k].0 == pattern@);
                }
                self.rules = rules;
                proof {
                    assert(exists|c: int| 0 <= c < old_view.len() && old_view[c].0 == pattern@);
                    let c = choose|c: int| 0 <= c < old_view.len() && old_view[c].0 == pattern@;
                    assert(c == k);
                    assert(self@ == new_view);
                    assert(self@ =~= old(self)@.update(c, (pattern@, replacement@)));
                    assert(!(forall|j: int|
                        0 <= j < old(self)@.len() ==> old(self)@[j].0 != pattern@));
                }
                return;
            }
            i = i + 1;
        }
        rules.push((pattern, replacement));
        let ghost new_view = rules@.map_values(|r: (String, String)| (r.0@, r.1@));
        proof {
            assert(new_view =~= old_view.push((pattern@, replacement@)));
        }
        self.rules = rules;
        proof {
            assert(self@ == new_view);
        }
    }

    /// A copy of these rules.
    pub fn duplicate(&self) -> (r: RewriteRules)
        ensures
            r@ == self@,
    {
        proof {
            use_type_invariant(self);
        }
        let n = self.rules.len();
        let mut rules: Vec<(String, String)> = Vec::new();
        for i in 0..n
            invariant
                n == self.rules@.len(),
                rules@.len() == i,
                forall|j: int| 0 <= j < i ==> #[trigger] rules@[j] == self.rules@[j],
        {
            let (p, r) = &self.rules[i];
            rules.push((p.clone(), r.clone()));
        }
        let ghost v = rules@.map_values(|r: (String, String)| (r.0@, r.1@));
        assert(v =~= self@);
        RewriteRules { rules }
    }

    /// The number of rules (no pattern occurs twice among them).
    pub fn len(&self) -> (n: usize)
        ensures
            n == self@.len(),
            distinct_patterns(self@),
    {
        proof {
            use_type_invariant(self);
        }
        self.rules.len()
    }

    /// The `i`-th rule, as (pattern, replacement).
    pub fn get(&self, i: usize) -> (r: (&str, &str))
        requires
            i < self@.len(),
        ensures
            r.0@ == self@[i as int].0,
            r.1@ == self@[i as int].1,
    {
        (self.rules[i].0.as_str(), self.rules[i].1.as_str())
    }
}

/// Log event for tracking proxy operations
#[derive(Debug, Clone)]
pub struct LogEvent {
    pub timestamp: String,
    pub event: String,
    pub req_path: String,
    pub proxy_path: String,
    pub status: u16,
}

/// The port listened on when the configuration names none.
pub open spec fn spec_default_port() -> u16 {
    8080
}

/// The port listened on when the configuration names none.
pub fn default_port() -> (port: u16)
    ensures
        port == spec_default_port(),
{
    8080
}

impl Config {
    /// Replaces the configured port by the one given on the command line, if any.
    pub fn override_port(&mut self, port: Option<u16>)
        ensures
            final(self).port == (match port {
                Some(p) => p,
                None => old(self).port,
            }),
            final(self).server_name == old(self).server_name,
            final(self).default_target == old(self).default_target,
            final(self).websocket == old(self).websocket,
            final(self).locations == old(self).locations,
    {
        if let Some(p) = port {
            self.port = p;
        }
    }
}

} // verus!
