//! The server's configuration: the ports it listens on, read from text.
use vstd::prelude::*;

verus! {

/// The ports the server listens on.
#[derive(Debug, Clone, Copy, PartialEq, Eq)]
pub struct Config {
    pub player_connect_port: u16,
    pub player_connect_http_port: u16,
}

/// The game port when none is configured.
pub const DEFAULT_PLAYER_CONNECT_PORT: &'static str = "11010";

/// The HTTP port when none is configured.
pub const DEFAULT_PLAYER_CONNECT_HTTP_PORT: &'static str = "11011";

/// Why a configuration was refused.
#[derive(Debug, PartialEq, Eq)]
pub enum ConfigError {
    /// The text given for the game port is no port number.
    InvalidPlayerConnectPort(String),
    /// The text given for the HTTP port is no port number.
    InvalidPlayerConnectHttpPort(String),
}

/// Whether every character is a decimal digit.
pub open spec fn all_digits(s: Seq<char>) -> bool {
    forall|i: int| 0 <= i < s.len() ==> '0' <= #[trigger] s[i] <= '9'
}

/// The number that a string of decimal digits writes.
pub open spec fn decimal_value(s: Seq<char>) -> int
    decreases s.len(),
{
    if s.len() == 0 {
        0
    } else {
        decimal_value(s.drop_last()) * 10 + (s.last() as int - '0' as int)
    }
}

/// What `str::parse::<u16>` gives: a port for an optional `+` followed by
/// at least one decimal digit, whose value is below 2^16; nothing else.
pub open spec fn spec_parse_port(s: Seq<char>) -> Option<u16> {
    let digits = if s.len() > 0 && s[0] == '+' {
        s.drop_first()
    } else {
        s
    };
    if digits.len() > 0 && all_digits(digits) && decimal_value(digits) < 0x1_0000 {
        Some(decimal_value(digits) as u16)
    } else {
        None
    }
}

proof fn lemma_decimal_value_nonneg(s: Seq<char>)
    requires
        all_digits(s),
    ensures
        decimal_value(s) >= 0,
    decreases s.len(),
{
    if s.len() > 0 {
        assert(all_digits(s.drop_last())) by {
            assert forall|i: int| 0 <= i < s.drop_last().len() implies '0' <= #[trigger] s.drop_last()[i] <= '9' by {
                assert(s.drop_last()[i] == s[i]);
            }
        }
        lemma_decimal_value_nonneg(s.drop_last());
        assert('0' <= s[s.len() - 1] <= '9');
    }
}

/// Reads a port number written in decimal (see `spec_parse_port`).
pub fn parse_port(text: &str) -> (r: Option<u16>)
    ensures
        r == spec_parse_port(text@),
{
    let n = text.unicode_len();
    let mut start: usize = 0;
    if n > 0 && text.get_char(0) == '+' {
        start = 1;
    }
    let ghost digits = text@.subrange(start as int, n as int);
    assert(digits =~= if text@.len() > 0 && text@[0] == '+' {
        text@.drop_first()
    } else {
        text@
    });
    if start == n {
        return None;
    }
    let mut value: u32 = 0;
    let mut i: usize = start;
    while i < n
        invariant
            start <= i <= n,
            n == text@.len(),
            digits == text@.subrange(start as int, n as int),
            digits == if text@.len() > 0 && text@[0] == '+' {
                text@.drop_first()
            } else {
                text@
            },
            all_digits(text@.subrange(start as int, i as int)),
            value == decimal_value(text@.subrange(start as int, i as int)),
            value < 0x1_0000,
        decreases n - i,
    {
        let c = text.get_char(i);
        assert(text@.subrange(start as int, i + 1).drop_last() =~= text@.subrange(
            start as int,
            i as int,
        ));
        if !('0' <= c && c <= '9') {
            assert(!all_digits(digits)) by {
                assert(digits[i - start] == c);
            }
            return None;
        }
        let d = (c as u32) - ('0' as u32);
        let next = value * 10 + d;
        assert(all_digits(text@.subrange(start as int, i + 1))) by {
            assert forall|k: int| 0 <= k < i + 1 - start implies '0' <= #[trigger] text@.subrange(
                start as int,
                i + 1,
            )[k] <= '9' by {
                if k < i - start {
                    assert(text@.subrange(start as int, i + 1)[k] == text@.subrange(
                        start as int,
                        i as int,
                    )[k]);
                }
            }
        }
        if next >= 0x1_0000 {
            proof {
                assert(digits.subrange(0, i + 1 - start) =~= text@.subrange(start as int, i + 1));
                lemma_prefix_bound(digits, (i + 1 - start) as int);
            }
            return None;
        }
        value = next;
        i = i + 1;
    }
    assert(text@.subrange(start as int, n as int) == digits);
    Some(value as u16)
}

/// A string of digits is worth at least what any of its prefixes is.
proof fn lemma_prefix_bound(s: Seq<char>, k: int)
    requires
        0 <= k <= s.len(),
        all_digits(s.subrange(0, k)),
    ensures
        all_digits(s) ==> decimal_value(s) >= decimal_value(s.subrange(0, k)),
    decreases s.len() - k,
{
    if all_digits(s) && k < s.len() {
        assert(all_digits(s.subrange(0, k + 1))) by {
            assert forall|i: int| 0 <= i < k + 1 implies '0' <= #[trigger] s.subrange(0, k + 1)[i] <= '9' by {
                assert(s.subrange(0, k + 1)[i] == s[i]);
            }
        }
        lemma_prefix_bound(s, k + 1);
        assert(s.subrange(0, k + 1).drop_last() =~= s.subrange(0, k));
        lemma_decimal_value_nonneg(s.subrange(0, k));
        assert('0' <= s[k] <= '9');
    }
    if k == s.len() {
        assert(s.subrange(0, k) =~= s);
    }
}

impl Config {
    /// The configuration from the text of the two ports, where given; a
    /// missing one takes its default.  Text that is no port is refused.
    pub fn from_values(port: Option<String>, http_port: Option<String>) -> (r: Result<
        Config,
        ConfigError,
    >)
        ensures
            ({
                let p = match port {
                    Some(t) => t@,
                    None => DEFAULT_PLAYER_CONNECT_PORT@,
                };
                let h = match http_port {
                    Some(t) => t@,
                    None => DEFAULT_PLAYER_CONNECT_HTTP_PORT@,
                };
                match (spec_parse_port(p), spec_parse_port(h)) {
                    (Some(a), Some(b)) => r == Ok::<Config, ConfigError>(
                        Config { player_connect_port: a, player_connect_http_port: b },
                    ),
                    (None, _) => r matches Err(ConfigError::InvalidPlayerConnectPort(t)) && t@ == p,
                    (Some(_), None) => r matches Err(ConfigError::InvalidPlayerConnectHttpPort(t))
                        && t@ == h,
                }
            }),
    {
        let port = match port {
            Some(t) => t,
            None => String::from_str(DEFAULT_PLAYER_CONNECT_PORT),
        };
        let http_port = match http_port {
            Some(t) => t,
            None => String::from_str(DEFAULT_PLAYER_CONNECT_HTTP_PORT),
        };
        let a = match parse_port(port.as_str()) {
            Some(a) => a,
            None => {
                return Err(ConfigError::InvalidPlayerConnectPort(port));
            },
        };
        let b = match parse_port(http_port.as_str()) {
            Some(b) => b,
            None => {
                return Err(ConfigError::InvalidPlayerConnectHttpPort(http_port));
            },
        };
        Ok(Config { player_connect_port: a, player_connect_http_port: b })
    }
}

} // verus!
