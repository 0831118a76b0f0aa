//! What the proxy writes to its log, and how a log level is read.

use crate::types::LogEvent;
use vstd::prelude::*;
use vstd::string::StringExecFns;

verus! {

broadcast use vstd::string::group_string_axioms;

/// The character of a decimal digit `d < 10`.
pub open spec fn digit_char(d: nat) -> char {
    (48 + d) as char
}

/// The decimal notation of `n`, without leading zeros.
pub open spec fn decimal(n: nat) -> Seq<char>
    decreases n,
{
    if n < 10 {
        seq![digit_char(n)]
    } else {
        decimal(n / 10) + seq![digit_char(n % 10)]
    }
}

/// The string of one decimal digit.
fn digit_str(d: u16) -> (s: &'static str)
    requires
        d < 10,
    ensures
        s@ == seq![digit_char(d as nat)],
{
    match d {
        0 => {
            proof {
                reveal_strlit("0");
            }
            "0"
        },
        1 => {
            proof {
                reveal_strlit("1");
            }
            "1"
        },
        2 => {
            proof {
                reveal_strlit("2");
            }
            "2"
        },
        3 => {
            proof {
                reveal_strlit("3");
            }
            "3"
        },
        4 => {
            proof {
                reveal_strlit("4");
            }
            "4"
        },
        5 => {
            proof {
                reveal_strlit("5");
            }
            "5"
        },
        6 => {
            proof {
                reveal_strlit("6");
            }
            "6"
        },
        7 => {
            proof {
                reveal_strlit("7");
            }
            "7"
        },
        8 => {
            proof {
                reveal_strlit("8");
            }
            "8"
        },
        _ => {
            proof {
                reveal_strlit("9");
            }
            "9"
        },
    }
}

/// Appends the decimal notation of `n` to `out`.
fn append_decimal(out: &mut String, n: u16)
    ensures
        final(out)@ == old(out)@ + decimal(n as nat),
    decreases n,
{
    if n >= 10 {
        append_decimal(out, n / 10);
    }
    out.append(digit_str(n % 10));
    proof {
        assert(decimal(n as nat) == if n < 10 {
            seq![digit_char(n as nat)]
        } else {
            decimal((n / 10) as nat) + seq![digit_char((n % 10) as nat)]
        });
    }
}

/// The line that records `event` in the log file:
/// `[timestamp] event | req: req_path | proxy: proxy_path | status: status` and a newline.
pub open spec fn spec_log_line(event: LogEvent) -> Seq<char> {
    "["@ + event.timestamp@ + "] "@ + event.event@ + " | req: "@ + event.req_path@ + " | proxy: "@
        + event.proxy_path@ + " | status: "@ + decimal(event.status as nat) + "\n"@
}

/// The line that records `event` in the log file (and that is echoed to the console).
pub fn log_event(event: &LogEvent) -> (line: String)
    ensures
        line@ == spec_log_line(*event),
{
    let mut line = "[".to_owned();
    line.append(event.timestamp.as_str());
    line.append("] ");
    line.append(event.event.as_str());
    line.append(" | req: ");
    line.append(event.req_path.as_str());
    line.append(" | proxy: ");
    line.append(event.proxy_path.as_str());
    line.append(" | status: ");
    append_decimal(&mut line, event.status);
    line.append("\n");
    line
}

/// How much the proxy logs.
#[derive(Debug, Clone, Copy, PartialEq, Eq, Structural)]
pub enum LogLevel {
    Trace,
    Debug,
    Info,
    Warn,
    Error,
}

/// `c` is the small letter `w` or its ASCII capital, or `c` is `w` itself.
pub open spec fn same_ignoring_case(c: char, w: char) -> bool {
    if 'A' <= c && c <= 'Z' {
        (c as u32) + 32 == (w as u32)
    } else {
        c == w
    }
}

/// `s` equals the lower-case ASCII word `w` once its ASCII capitals are made small.
pub open spec fn equals_ignoring_case(s: Seq<char>, w: Seq<char>) -> bool {
    s.len() == w.len() && forall|i: int| 0 <= i < s.len() ==> same_ignoring_case(#[trigger] s[i], w[i])
}

/// The level that a level name selects: `trace`, `debug`, `info`, `warn` or
/// `error` in any case; anything else selects `Info`.
pub open spec fn spec_parse_log_level(level: Seq<char>) -> LogLevel {
    if equals_ignoring_case(level, "trace"@) {
        LogLevel::Trace
    } else if equals_ignoring_case(level, "debug"@) {
        LogLevel::Debug
    } else if equals_ignoring_case(level, "info"@) {
        LogLevel::Info
    } else if equals_ignoring_case(level, "warn"@) {
        LogLevel::Warn
    } else if equals_ignoring_case(level, "error"@) {
        LogLevel::Error
    } else {
        LogLevel::Info
    }
}

fn matches_word(s: &Vec<char>, w: &str) -> (b: bool)
    ensures
        b == equals_ignoring_case(s@, w@),
{
    let wc = crate::text::chars_of(w);
    if s.len() != wc.len() {
        return false;
    }
    for i in 0..s.len()
        invariant
            s@.len() == wc@.len(),
            wc@ == w@,
            forall|j: int| 0 <= j < i ==> same_ignoring_case(#[trigger] s@[j], wc@[j]),
    {
        let c = s[i];
        let w = wc[i];
        let same = if 'A' <= c && c <= 'Z' {
            (c as u32) + 32 == (w as u32)
        } else {
            c == w
        };
        if !same {
            return false;
        }
    }
    true
}

/// The log level named by `level` (ignoring the case of its letters).
pub fn parse_log_level(level: &str) -> (r: LogLevel)
    ensures
        r == spec_parse_log_level(level@),
{
    let cs = crate::text::chars_of(level);
    if matches_word(&cs, "trace") {
        LogLevel::Trace
    } else if matches_word(&cs, "debug") {
        LogLevel::Debug
    } else if matches_word(&cs, "info") {
        LogLevel::Info
    } else if matches_word(&cs, "warn") {
        LogLevel::Warn
    } else if matches_word(&cs, "error") {
        LogLevel::Error
    } else {
        LogLevel::Info
    }
}

} // verus!

verus! {

/// A decimal digit character.
pub open spec fn is_decimal_digit(c: char) -> bool {
    '0' <= c && c <= '9'
}

/// The number that a string of decimal digits stands for.
pub open spec fn decimal_value(s: Seq<char>) -> int
    decreases s.len(),
{
    if s.len() == 0 {
        0
    } else {
        decimal_value(s.drop_last()) * 10 + ((s.last() as u32) as int - ('0' as u32) as int)
    }
}

/// The status written in a log line is the decimal notation of the status:
/// digits only, no leading zero, and read back it gives the status.
pub proof fn law_status_digits_read_back(n: nat)
    ensures
        decimal(n).len() >= 1,
        forall|i: int| 0 <= i < decimal(n).len() ==> is_decimal_digit(#[trigger] decimal(n)[i]),
        decimal(n)[0] == '0' ==> n == 0,
        decimal_value(decimal(n)) == n,
    decreases n,
{
    let d = digit_char(n % 10);
    assert(d as u32 == 48 + n % 10);
    if n >= 10 {
        law_status_digits_read_back(n / 10);
        let s = decimal(n / 10);
        assert((s + seq![d]).drop_last() =~= s);
        assert(decimal(n) == s + seq![d]);
        assert((s + seq![d]).last() == d);
        assert(decimal_value(s + seq![d]) == decimal_value(s) * 10 + (n % 10));
        assert((n / 10) * 10 + n % 10 == n) by (nonlinear_arith);
        assert(decimal(n)[0] == s[0]);
        assert forall|i: int| 0 <= i < decimal(n).len() implies is_decimal_digit(
            #[trigger] decimal(n)[i],
        ) by {
            if i < s.len() {
                assert(decimal(n)[i] == s[i]);
            }
        }
    } else {
        assert(seq![d].drop_last() =~= Seq::<char>::empty());
        assert(decimal_value(seq![d]) == decimal_value(Seq::<char>::empty()) * 10 + (n % 10));
    }
}

/// The log line of an event ends with the decimal notation of its status and
/// a newline, right after `" | status: "`.
pub proof fn law_log_line_ends_with_status(event: LogEvent)
    ensures
        ({
            let line = spec_log_line(event);
            let digits = decimal(event.status as nat);
            let k = line.len() - 1 - digits.len();
            &&& k >= 11
            &&& line.subrange(k - 11, k) == " | status: "@
            &&& line.subrange(k, line.len() - 1) == digits
            &&& decimal_value(digits) == event.status
            &&& line.last() == '\n'
        }),
{
    reveal_strlit("\n");
    reveal_strlit(" | status: ");
    law_status_digits_read_back(event.status as nat);
    let line = spec_log_line(event);
    let digits = decimal(event.status as nat);
    let head = "["@ + event.timestamp@ + "] "@ + event.event@ + " | req: "@ + event.req_path@
        + " | proxy: "@ + event.proxy_path@;
    assert(line == head + " | status: "@ + digits + "\n"@);
    let k = line.len() - 1 - digits.len();
    assert(k == head.len() + 11);
    assert(line.subrange(k - 11, k) =~= " | status: "@);
    assert(line.subrange(k, line.len() - 1) =~= digits);
}

} // verus!

verus! {

/// `t` is `s` with some of its ASCII capitals made small.
pub open spec fn lowers_case_of(s: Seq<char>, t: Seq<char>) -> bool {
    &&& s.len() == t.len()
    &&& forall|i: int|
        0 <= i < s.len() ==> (#[trigger] t[i] == s[i] || ('A' <= s[i] && s[i] <= 'Z' && (s[i] as u32)
            + 32 == (t[i] as u32)))
}

proof fn lemma_word_ignores_case(s: Seq<char>, t: Seq<char>, w: Seq<char>)
    requires
        lowers_case_of(s, t),
    ensures
        equals_ignoring_case(s, w) == equals_ignoring_case(t, w),
{
    if s.len() == w.len() {
        assert forall|i: int| 0 <= i < s.len() implies same_ignoring_case(#[trigger] s[i], w[i])
            == same_ignoring_case(t[i], w[i]) by {
            if t[i] != s[i] {
                vstd::utf8::char_u32_cast(t[i], t[i] as u32);
                vstd::utf8::char_u32_cast(w[i], w[i] as u32);
            }
        }
        if equals_ignoring_case(s, w) {
            assert forall|i: int| 0 <= i < t.len() implies same_ignoring_case(#[trigger] t[i], w[i]) by {
                assert(same_ignoring_case(s[i], w[i]));
            }
        }
        if equals_ignoring_case(t, w) {
            assert forall|i: int| 0 <= i < s.len() implies same_ignoring_case(#[trigger] s[i], w[i]) by {
                assert(same_ignoring_case(t[i], w[i]));
            }
        }
    }
}

/// A level name is read ignoring ASCII case: making any of its capitals
/// small (e.g. `WARN` to `warn`, `TrAcE` to `trace`) selects the same level.
pub proof fn law_level_ignores_ascii_case(s: Seq<char>, t: Seq<char>)
    requires
        lowers_case_of(s, t),
    ensures
        spec_parse_log_level(s) == spec_parse_log_level(t),
{
    lemma_word_ignores_case(s, t, "trace"@);
    lemma_word_ignores_case(s, t, "debug"@);
    lemma_word_ignores_case(s, t, "info"@);
    lemma_word_ignores_case(s, t, "warn"@);
    lemma_word_ignores_case(s, t, "error"@);
}

} // verus!
