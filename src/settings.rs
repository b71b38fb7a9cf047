//! Reading the configuration from the textual values that set it, and from the
//! arguments forwarded to the build.
use crate::cutoff::Config;
use vstd::prelude::*;
use vstd::string::StrSliceExecFns;

verus! {

pub open spec fn is_digit(c: char) -> bool {
    '0' <= c && c <= '9'
}

pub open spec fn all_digits(s: Seq<char>) -> bool {
    forall|i: int| 0 <= i < s.len() ==> #[trigger] is_digit(s[i])
}

/// The decimal value of a string of digits.
pub open spec fn decimal(s: Seq<char>) -> int
    decreases s.len(),
{
    if s.len() == 0 {
        0
    } else {
        decimal(s.drop_last()) * 10 + (s.last() as int - '0' as int)
    }
}

/// The digits of a number, after an optional leading `+`.
pub open spec fn digits_of(s: Seq<char>) -> Seq<char> {
    if s.len() > 0 && s[0] == '+' {
        s.subrange(1, s.len() as int)
    } else {
        s
    }
}

/// Whether a text is a non-negative decimal number that fits in 64 bits.
pub open spec fn is_number(s: Seq<char>) -> bool {
    digits_of(s).len() > 0 && all_digits(digits_of(s)) && decimal(digits_of(s)) <= u64::MAX
}

proof fn lemma_decimal_nonneg(s: Seq<char>)
    requires
        all_digits(s),
    ensures
        decimal(s) >= 0,
    decreases s.len(),
{
    if s.len() > 0 {
        assert(all_digits(s.drop_last())) by {
            assert forall|i: int| 0 <= i < s.drop_last().len() implies #[trigger] is_digit(
                s.drop_last()[i],
            ) by {
                assert(s.drop_last()[i] == s[i]);
            }
        }
        lemma_decimal_nonneg(s.drop_last());
        assert(is_digit(s[s.len() - 1]));
    }
}

proof fn lemma_decimal_prefix(s: Seq<char>, j: int)
    requires
        all_digits(s),
        0 <= j <= s.len(),
    ensures
        decimal(s.take(j)) <= decimal(s),
    decreases s.len(),
{
    if j == s.len() {
        assert(s.take(j) =~= s);
    } else {
        assert(all_digits(s.drop_last())) by {
            assert forall|i: int| 0 <= i < s.drop_last().len() implies #[trigger] is_digit(
                s.drop_last()[i],
            ) by {
                assert(s.drop_last()[i] == s[i]);
            }
        }
        lemma_decimal_prefix(s.drop_last(), j);
        assert(s.drop_last().take(j) =~= s.take(j));
        lemma_decimal_nonneg(s.drop_last());
        assert(is_digit(s[s.len() - 1]));
    }
}

/// Parses a non-negative decimal number, as `u64`'s `from_str` does.
pub fn parse_number(s: &str) -> (r: Option<u64>)
    ensures
        r.is_some() == is_number(s@),
        r matches Some(v) ==> v as int == decimal(digits_of(s@)),
{
    let n = s.unicode_len();
    let start: usize = if n > 0 && s.get_char(0) == '+' { 1 } else { 0 };
    let ghost d = digits_of(s@);
    assert(d =~= s@.subrange(start as int, n as int));
    if start == n {
        return None;
    }
    let mut v: u64 = 0;
    let mut i: usize = start;
    while i < n
        invariant
            n == s@.len(),
            start <= i <= n,
            start < n,
            d == s@.subrange(start as int, n as int),
            d == digits_of(s@),
            all_digits(d.take(i - start)),
            v as int == decimal(d.take(i - start)),
        decreases n - i,
    {
        let c = s.get_char(i);
        let ghost t = d.take(i - start + 1);
        assert(t.drop_last() =~= d.take(i - start));
        assert(t.last() == c);
        if !('0' <= c && c <= '9') {
            assert(!all_digits(d)) by {
                assert(!is_digit(d[i - start]));
            }
            return None;
        }
        let digit = (c as u32 - '0' as u32) as u64;
        if v > (u64::MAX - digit) / 10 {
            proof {
                assert(v as int * 10 + digit as int > u64::MAX) by (nonlinear_arith)
                    requires
                        v > (u64::MAX - digit) / 10,
                        digit <= 9,
                ;
                if all_digits(d) {
                    lemma_decimal_prefix(d, i - start + 1);
                }
            }
            return None;
        }
        v = v * 10 + digit;
        assert(all_digits(t)) by {
            assert forall|k: int| 0 <= k < t.len() implies #[trigger] is_digit(t[k]) by {
                if k < t.len() - 1 {
                    assert(t[k] == d.take(i - start)[k]);
                }
            }
        }
        i = i + 1;
    }
    assert(d.take(n - start) =~= d);
    Some(v)
}

/// Whether `s` begins with `p`.
pub open spec fn has_prefix(s: Seq<char>, p: Seq<char>) -> bool {
    p.len() <= s.len() && s.subrange(0, p.len() as int) == p
}

/// Whether `s` begins with `p`.
pub fn starts_with(s: &str, p: &str) -> (r: bool)
    ensures
        r == has_prefix(s@, p@),
{
    let n = s.unicode_len();
    let m = p.unicode_len();
    if m > n {
        return false;
    }
    let mut i: usize = 0;
    while i < m
        invariant
            n == s@.len(),
            m == p@.len(),
            m <= n,
            i <= m,
            forall|k: int| 0 <= k < i ==> s@[k] == p@[k],
        decreases m - i,
    {
        if s.get_char(i) != p.get_char(i) {
            assert(s@.subrange(0, m as int)[i as int] != p@[i as int]);
            return false;
        }
        i = i + 1;
    }
    assert(s@.subrange(0, m as int) =~= p@);
    true
}

/// The value of a boolean setting, spelt as `bool`'s `from_str` takes it.
pub open spec fn flag_of(s: Seq<char>) -> Option<bool> {
    if s == "true"@ {
        Some(true)
    } else if s == "false"@ {
        Some(false)
    } else {
        None
    }
}

/// Parses a boolean setting.
pub fn parse_flag(s: &str) -> (r: Option<bool>)
    ensures
        r == flag_of(s@),
{
    proof {
        reveal_strlit("true");
        reveal_strlit("false");
    }
    let n = s.unicode_len();
    let t = starts_with(s, "true");
    let f = starts_with(s, "false");
    assert(s@.len() == 4 ==> s@.subrange(0, 4) =~= s@);
    assert(s@.len() == 5 ==> s@.subrange(0, 5) =~= s@);
    if n == 4 && t {
        Some(true)
    } else if n == 5 && f {
        Some(false)
    } else {
        None
    }
}

/// The prefix of the argument that asks the build for structured output.
pub open spec fn json_prefix() -> Seq<char> {
    "--message-format=json"@
}

/// Whether the arguments forwarded to the build ask for structured output.
pub open spec fn wants_json(args: Seq<Seq<char>>) -> bool {
    exists|i: int| 0 <= i < args.len() && has_prefix(#[trigger] args[i], json_prefix())
}

pub open spec fn arg_views(v: Seq<String>) -> Seq<Seq<char>> {
    v.map_values(|s: String| s@)
}

/// Whether the arguments forwarded to the build ask for structured output.
pub fn requests_json(args: &Vec<String>) -> (r: bool)
    ensures
        r == wants_json(arg_views(args@)),
{
    let ghost a = arg_views(args@);
    let mut i: usize = 0;
    while i < args.len()
        invariant
            i <= args@.len(),
            a == arg_views(args@),
            forall|k: int| 0 <= k < i ==> !has_prefix(#[trigger] a[k], json_prefix()),
        decreases args@.len() - i,
    {
        if starts_with(args[i].as_str(), "--message-format=json") {
            assert(has_prefix(a[i as int], json_prefix()));
            return true;
        }
        i = i + 1;
    }
    false
}

/// A setting whose value could not be read.
#[derive(Clone, Copy, Debug, PartialEq, Eq, Structural)]
pub enum ConfigError {
    MessageLimit,
    TimeLimit,
    Ascending,
    ForceWarn,
    DepsWarn,
}

/// The textual values of the settings, each absent when unset.
pub struct Settings {
    pub message_limit: Option<String>,
    pub time_limit: Option<String>,
    pub ascending: Option<String>,
    pub force_warn: Option<String>,
    pub deps_warn: Option<String>,
}

pub const DEFAULT_TIME_LIMIT_SECONDS: u64 = 1;

/// A numeric setting: its default when unset, its value when it is a number.
pub open spec fn number_setting(o: Option<String>, default: u64) -> Option<int> {
    match o {
        None => Some(default as int),
        Some(t) => if is_number(t@) {
            Some(decimal(digits_of(t@)))
        } else {
            None
        },
    }
}

/// A boolean setting: false when unset.
pub open spec fn flag_setting(o: Option<String>) -> Option<bool> {
    match o {
        None => Some(false),
        Some(t) => flag_of(t@),
    }
}

/// The configuration that settings and forwarded arguments give, or the
/// first setting, in the order of the fields, that cannot be read.
pub open spec fn config_of(s: Settings, args: Seq<Seq<char>>) -> Result<Config, ConfigError> {
    let ml = number_setting(s.message_limit, 0);
    let tl = number_setting(s.time_limit, DEFAULT_TIME_LIMIT_SECONDS);
    if ml is None || ml.unwrap() > usize::MAX {
        Err(ConfigError::MessageLimit)
    } else if tl is None {
        Err(ConfigError::TimeLimit)
    } else if flag_setting(s.ascending) is None {
        Err(ConfigError::Ascending)
    } else if flag_setting(s.force_warn) is None {
        Err(ConfigError::ForceWarn)
    } else if flag_setting(s.deps_warn) is None {
        Err(ConfigError::DepsWarn)
    } else {
        Ok(
            Config {
                message_limit: ml.unwrap() as usize,
                time_limit_seconds: tl.unwrap() as u64,
                ascending: flag_setting(s.ascending).unwrap(),
                force_warn: flag_setting(s.force_warn).unwrap(),
                show_deps_warnings: flag_setting(s.deps_warn).unwrap(),
                json_output: wants_json(args),
            },
        )
    }
}

fn read_number(o: &Option<String>, default: u64) -> (r: Option<u64>)
    ensures
        r matches Some(v) ==> number_setting(*o, default) == Some(v as int),
        r is None ==> number_setting(*o, default) is None,
{
    match o {
        None => Some(default),
        Some(t) => parse_number(t.as_str()),
    }
}

fn read_flag(o: &Option<String>) -> (r: Option<bool>)
    ensures
        r == flag_setting(*o),
{
    match o {
        None => Some(false),
        Some(t) => parse_flag(t.as_str()),
    }
}

impl Config {
    /// Reads the configuration from settings and forwarded arguments. Unset
    /// settings take their defaults: no message limit, one second after the
    /// first error, and every flag false.
    pub fn from_settings(s: &Settings, args: &Vec<String>) -> (r: Result<Config, ConfigError>)
        ensures
            r == config_of(*s, arg_views(args@)),
    {
        let ml = match read_number(&s.message_limit, 0) {
            Some(v) => {
                if v > usize::MAX as u64 {
                    return Err(ConfigError::MessageLimit);
                }
                v as usize
            },
            None => return Err(ConfigError::MessageLimit),
        };
        let tl = match read_number(&s.time_limit, DEFAULT_TIME_LIMIT_SECONDS) {
            Some(v) => v,
            None => return Err(ConfigError::TimeLimit),
        };
        let ascending = match read_flag(&s.ascending) {
            Some(b) => b,
            None => return Err(ConfigError::Ascending),
        };
        let force_warn = match read_flag(&s.force_warn) {
            Some(b) => b,
            None => return Err(ConfigError::ForceWarn),
        };
        let show_deps_warnings = match read_flag(&s.deps_warn) {
            Some(b) => b,
            None => return Err(ConfigError::DepsWarn),
        };
        Ok(
            Config {
                message_limit: ml,
                time_limit_seconds: tl,
                ascending,
                force_warn,
                show_deps_warnings,
                json_output: requests_json(args),
            },
        )
    }
}

} // verus!
