//! IS-IS SPF start-up defaults: file, environment and YANG values merged
//! with priority file > environment > YANG default, per field.

use vstd::prelude::*;

use crate::text::chars_of;

verus! {

/// SPF control parameters of an IS-IS instance (delays in milliseconds).
#[derive(Clone, Copy, Debug, PartialEq, Eq, Structural)]
pub struct IsisSpfConfig {
    pub enabled: bool,
    pub initial_delay: u32,
    pub short_delay: u32,
    pub long_delay: u32,
    pub hold_down: u32,
    pub time_to_learn: u32,
}

/// Optional per-field sources (TOML or environment). `None` means the source
/// did not set the field.
#[derive(Clone, Copy, Debug, PartialEq, Eq, Structural)]
pub struct SpfConfigSources {
    pub enabled: Option<bool>,
    pub initial_delay: Option<u32>,
    pub short_delay: Option<u32>,
    pub long_delay: Option<u32>,
    pub hold_down: Option<u32>,
    pub time_to_learn: Option<u32>,
}

impl SpfConfigSources {
    /// No field set.
    pub fn new() -> (s: SpfConfigSources)
        ensures
            s == SpfConfigSources::unset(),
    {
        SpfConfigSources {
            enabled: None,
            initial_delay: None,
            short_delay: None,
            long_delay: None,
            hold_down: None,
            time_to_learn: None,
        }
    }

    /// The value with no field set.
    pub open spec fn unset() -> SpfConfigSources {
        SpfConfigSources {
            enabled: None,
            initial_delay: None,
            short_delay: None,
            long_delay: None,
            hold_down: None,
            time_to_learn: None,
        }
    }
}

impl Default for SpfConfigSources {
    /// No field set.
    fn default() -> (s: SpfConfigSources)
        ensures
            s == SpfConfigSources::unset(),
    {
        SpfConfigSources::new()
    }
}

/// The first value that is set, else the default.
pub open spec fn first_set<T>(file: Option<T>, env: Option<T>, dflt: T) -> T {
    match file {
        Some(v) => v,
        None => match env {
            Some(v) => v,
            None => dflt,
        },
    }
}

/// Per field, the file value if set, else the environment value if set,
/// else the default.
pub open spec fn spec_resolve(
    file: SpfConfigSources,
    env: SpfConfigSources,
    dflt: IsisSpfConfig,
) -> IsisSpfConfig {
    IsisSpfConfig {
        enabled: first_set(file.enabled, env.enabled, dflt.enabled),
        initial_delay: first_set(file.initial_delay, env.initial_delay, dflt.initial_delay),
        short_delay: first_set(file.short_delay, env.short_delay, dflt.short_delay),
        long_delay: first_set(file.long_delay, env.long_delay, dflt.long_delay),
        hold_down: first_set(file.hold_down, env.hold_down, dflt.hold_down),
        time_to_learn: first_set(file.time_to_learn, env.time_to_learn, dflt.time_to_learn),
    }
}

/// YANG defaults for SPF control: enabled; initial, short and long delay of
/// 50, 200 and 5000 ms; hold-down 10000 ms; time-to-learn 500 ms.
pub open spec fn spec_yang_spf_defaults() -> IsisSpfConfig {
    IsisSpfConfig {
        enabled: true,
        initial_delay: 50,
        short_delay: 200,
        long_delay: 5000,
        hold_down: 10000,
        time_to_learn: 500,
    }
}

/// YANG/code defaults for SPF control parameters.
pub fn yang_spf_defaults() -> (c: IsisSpfConfig)
    ensures
        c == spec_yang_spf_defaults(),
{
    IsisSpfConfig {
        enabled: true,
        initial_delay: 50,
        short_delay: 200,
        long_delay: 5000,
        hold_down: 10000,
        time_to_learn: 500,
    }
}

fn pick_bool(file: Option<bool>, env: Option<bool>, dflt: bool) -> (r: bool)
    ensures
        r == first_set(file, env, dflt),
{
    match file {
        Some(v) => v,
        None => match env {
            Some(v) => v,
            None => dflt,
        },
    }
}

fn pick_u32(file: Option<u32>, env: Option<u32>, dflt: u32) -> (r: u32)
    ensures
        r == first_set(file, env, dflt),
{
    match file {
        Some(v) => v,
        None => match env {
            Some(v) => v,
            None => dflt,
        },
    }
}

/// Resolves SPF defaults with priority file > environment > YANG default.
pub fn resolve_spf_defaults(
    file: &SpfConfigSources,
    env: &SpfConfigSources,
    dflt: &IsisSpfConfig,
) -> (c: IsisSpfConfig)
    ensures
        c == spec_resolve(*file, *env, *dflt),
{
    IsisSpfConfig {
        enabled: pick_bool(file.enabled, env.enabled, dflt.enabled),
        initial_delay: pick_u32(file.initial_delay, env.initial_delay, dflt.initial_delay),
        short_delay: pick_u32(file.short_delay, env.short_delay, dflt.short_delay),
        long_delay: pick_u32(file.long_delay, env.long_delay, dflt.long_delay),
        hold_down: pick_u32(file.hold_down, env.hold_down, dflt.hold_down),
        time_to_learn: pick_u32(file.time_to_learn, env.time_to_learn, dflt.time_to_learn),
    }
}

/// ASCII lower case of a character; other characters are unchanged.
pub open spec fn ascii_lower(c: char) -> char {
    if 'A' <= c <= 'Z' {
        ((c as u32) + 32) as char
    } else {
        c
    }
}

/// ASCII lower case of every character.
pub open spec fn ascii_lower_seq(s: Seq<char>) -> Seq<char> {
    Seq::new(s.len(), |i: int| ascii_lower(s[i]))
}

/// Boolean value of an environment setting: after ASCII lower-casing, "1",
/// "true", "yes" and "on" are true, "0", "false", "no" and "off" are false,
/// anything else is not a boolean.
pub open spec fn spec_parse_env_bool(raw: Seq<char>) -> Option<bool> {
    let s = ascii_lower_seq(raw);
    if s == seq!['1'] || s == seq!['t', 'r', 'u', 'e'] || s == seq!['y', 'e', 's'] || s == seq![
        'o',
        'n',
    ] {
        Some(true)
    } else if s == seq!['0'] || s == seq!['f', 'a', 'l', 's', 'e'] || s == seq!['n', 'o'] || s
        == seq!['o', 'f', 'f'] {
        Some(false)
    } else {
        None
    }
}

fn lower_char(c: char) -> (r: char)
    ensures
        r == ascii_lower(c),
{
    if 'A' <= c && c <= 'Z' {
        ((c as u8) + 32) as char
    } else {
        c
    }
}

fn same_chars(v: &Vec<char>, w: &[char]) -> (r: bool)
    ensures
        r == (v@ == w@),
{
    if v.len() != w.len() {
        return false;
    }
    let mut i: usize = 0;
    while i < v.len()
        invariant
            v@.len() == w@.len(),
            i <= v@.len(),
            forall|j: int| 0 <= j < i ==> v@[j] == w@[j],
        decreases v@.len() - i,
    {
        if v[i] != w[i] {
            return false;
        }
        i += 1;
    }
    assert(v@ =~= w@);
    true
}

/// Parses the boolean value of an environment setting.
pub fn parse_env_bool(raw: &str) -> (r: Option<bool>)
    ensures
        r == spec_parse_env_bool(raw@),
{
    let chars = chars_of(raw);
    let mut s: Vec<char> = Vec::new();
    for i in 0..chars.len()
        invariant
            chars@ == raw@,
            s@ == ascii_lower_seq(raw@).take(i as int),
    {
        s.push(lower_char(chars[i]));
        assert(s@ =~= ascii_lower_seq(raw@).take(i + 1));
    }
    assert(s@ =~= ascii_lower_seq(raw@));
    let t1 = ['1'];
    let t2 = ['t', 'r', 'u', 'e'];
    let t3 = ['y', 'e', 's'];
    let t4 = ['o', 'n'];
    let f1 = ['0'];
    let f2 = ['f', 'a', 'l', 's', 'e'];
    let f3 = ['n', 'o'];
    let f4 = ['o', 'f', 'f'];
    assert(t1@ =~= seq!['1']);
    assert(t2@ =~= seq!['t', 'r', 'u', 'e']);
    assert(t3@ =~= seq!['y', 'e', 's']);
    assert(t4@ =~= seq!['o', 'n']);
    assert(f1@ =~= seq!['0']);
    assert(f2@ =~= seq!['f', 'a', 'l', 's', 'e']);
    assert(f3@ =~= seq!['n', 'o']);
    assert(f4@ =~= seq!['o', 'f', 'f']);
    if same_chars(&s, &t1) || same_chars(&s, &t2) || same_chars(&s, &t3) || same_chars(&s, &t4) {
        Some(true)
    } else if same_chars(&s, &f1) || same_chars(&s, &f2) || same_chars(&s, &f3) || same_chars(
        &s,
        &f4,
    ) {
        Some(false)
    } else {
        None
    }
}

/// Every character is a decimal digit.
pub open spec fn all_digits(s: Seq<char>) -> bool {
    forall|i: int| 0 <= i < s.len() ==> '0' <= #[trigger] s[i] <= '9'
}

/// Value of a string of decimal digits.
pub open spec fn digits_value(s: Seq<char>) -> nat
    decreases s.len(),
{
    if s.len() == 0 {
        0
    } else {
        digits_value(s.drop_last()) * 10 + (s.last() as nat - 48) as nat
    }
}

/// Unsigned decimal number as Rust parses one: an optional `+`, then one or
/// more decimal digits, with a value that fits the type's maximum `max`.
pub open spec fn spec_parse_unsigned(raw: Seq<char>, max: nat) -> Option<nat> {
    let d = if raw.len() > 0 && raw[0] == '+' {
        raw.skip(1)
    } else {
        raw
    };
    if d.len() == 0 || !all_digits(d) || digits_value(d) > max {
        None
    } else {
        Some(digits_value(d))
    }
}

/// Parses an unsigned decimal number no greater than `max` from the
/// characters `lo..hi` of `chars`.
pub fn parse_unsigned_range(chars: &Vec<char>, lo: usize, hi: usize, max: u64) -> (r: Option<u64>)
    requires
        lo <= hi <= chars@.len(),
    ensures
        match spec_parse_unsigned(chars@.subrange(lo as int, hi as int), max as nat) {
            Some(v) => r == Some(v as u64),
            None => r is None,
        },
{
    let ghost raw = chars@.subrange(lo as int, hi as int);
    let start: usize = if lo < hi && chars[lo] == '+' {
        lo + 1
    } else {
        lo
    };
    let ghost d = if raw.len() > 0 && raw[0] == '+' {
        raw.skip(1)
    } else {
        raw
    };
    assert(d =~= chars@.subrange(start as int, hi as int));
    if start >= hi {
        return None;
    }
    let mut value: u64 = 0;
    let mut i: usize = start;
    while i < hi
        invariant
            lo <= start <= i <= hi <= chars@.len(),
            raw == chars@.subrange(lo as int, hi as int),
            d == chars@.subrange(start as int, hi as int),
            d == (if raw.len() > 0 && raw[0] == '+' {
                raw.skip(1)
            } else {
                raw
            }),
            all_digits(d.take(i - start)),
            value == digits_value(d.take(i - start)),
            value <= max,
        decreases hi - i,
    {
        let c = chars[i];
        assert(d.take(i + 1 - start).drop_last() =~= d.take(i - start));
        assert(d[i - start] == c);
        if c < '0' || c > '9' {
            assert(!('0' <= d[i - start] <= '9'));
            assert(!all_digits(d));
            return None;
        }
        let digit = (c as u64) - 48;
        assert(digits_value(d.take(i + 1 - start)) == value * 10 + digit);
        if digit > max || value > (max - digit) / 10 {
            proof {
                assert(value * 10 + digit > max) by (nonlinear_arith)
                    requires
                        digit > max || value > (max - digit) / 10,
                        digit <= 9,
                ;
                if all_digits(d) {
                    lemma_digits_value_prefix(d, (i + 1 - start) as int);
                }
            }
            return None;
        }
        assert(value * 10 + digit <= max) by (nonlinear_arith)
            requires
                value <= (max - digit) / 10,
                digit <= max,
        ;
        value = value * 10 + digit;
        i += 1;
        assert(all_digits(d.take(i - start))) by {
            assert forall|j: int| 0 <= j < d.take(i - start).len() implies '0' <= #[trigger] d.take(
                i - start,
            )[j] <= '9' by {
                if j < i - 1 - start {
                    assert(d.take(i - start)[j] == d.take(i - 1 - start)[j]);
                }
            }
        }
    }
    assert(d.take(i - start) =~= d);
    Some(value)
}

/// Parses an unsigned decimal number no greater than `max`.
pub fn parse_unsigned(raw: &str, max: u64) -> (r: Option<u64>)
    ensures
        match spec_parse_unsigned(raw@, max as nat) {
            Some(v) => r == Some(v as u64),
            None => r is None,
        },
{
    let chars = chars_of(raw);
    assert(chars@.subrange(0, chars@.len() as int) =~= raw@);
    parse_unsigned_range(&chars, 0, chars.len(), max)
}

/// The value of a digit string is at least that of its prefixes.
proof fn lemma_digits_value_prefix(d: Seq<char>, n: int)
    requires
        0 <= n <= d.len(),
        all_digits(d),
    ensures
        digits_value(d.take(n)) <= digits_value(d),
    decreases d.len() - n,
{
    if n < d.len() {
        lemma_digits_value_prefix(d, n + 1);
        assert(d.take(n + 1).drop_last() =~= d.take(n));
        assert(d.take(n + 1).last() == d[n]);
    } else {
        assert(d.take(n) =~= d);
    }
}

/// Parses an unsigned 32-bit number of an environment setting.
pub fn parse_env_u32(raw: &str) -> (r: Option<u32>)
    ensures
        match spec_parse_unsigned(raw@, u32::MAX as nat) {
            Some(v) => r == Some(v as u32),
            None => r is None,
        },
{
    match parse_unsigned(raw, u32::MAX as u64) {
        Some(v) => Some(v as u32),
        None => None,
    }
}

/// The optional setting, parsed as a boolean; an invalid value counts as
/// unset.
pub open spec fn env_bool_field(raw: Option<Seq<char>>) -> Option<bool> {
    match raw {
        Some(s) => spec_parse_env_bool(s),
        None => None,
    }
}

/// The optional setting, parsed as an unsigned 32-bit number; an invalid
/// value counts as unset.
pub open spec fn env_u32_field(raw: Option<Seq<char>>) -> Option<u32> {
    match raw {
        Some(s) => match spec_parse_unsigned(s, u32::MAX as nat) {
            Some(v) => Some(v as u32),
            None => None,
        },
        None => None,
    }
}

/// The characters of an optional string slice.
pub open spec fn opt_str_view(s: Option<&str>) -> Option<Seq<char>> {
    match s {
        Some(s) => Some(s@),
        None => None,
    }
}

fn opt_bool(raw: Option<&str>) -> (r: Option<bool>)
    ensures
        r == env_bool_field(opt_str_view(raw)),
{
    match raw {
        Some(s) => parse_env_bool(s),
        None => None,
    }
}

fn opt_u32(raw: Option<&str>) -> (r: Option<u32>)
    ensures
        r == env_u32_field(opt_str_view(raw)),
{
    match raw {
        Some(s) => parse_env_u32(s),
        None => None,
    }
}

/// SPF sources from the raw values of the `HOLO_ISIS_SPF_*` environment
/// variables (`None` for a variable that is not set): values that do not
/// parse count as unset, so the next priority applies.
pub fn spf_sources_from_env(
    enabled: Option<&str>,
    initial_delay: Option<&str>,
    short_delay: Option<&str>,
    long_delay: Option<&str>,
    hold_down: Option<&str>,
    time_to_learn: Option<&str>,
) -> (s: SpfConfigSources)
    ensures
        s.enabled == env_bool_field(opt_str_view(enabled)),
        s.initial_delay == env_u32_field(opt_str_view(initial_delay)),
        s.short_delay == env_u32_field(opt_str_view(short_delay)),
        s.long_delay == env_u32_field(opt_str_view(long_delay)),
        s.hold_down == env_u32_field(opt_str_view(hold_down)),
        s.time_to_learn == env_u32_field(opt_str_view(time_to_learn)),
{
    SpfConfigSources {
        enabled: opt_bool(enabled),
        initial_delay: opt_u32(initial_delay),
        short_delay: opt_u32(short_delay),
        long_delay: opt_u32(long_delay),
        hold_down: opt_u32(hold_down),
        time_to_learn: opt_u32(time_to_learn),
    }
}

/// A value set in the file wins over the environment and the default.
pub proof fn law_file_value_wins(
    file: SpfConfigSources,
    env: SpfConfigSources,
    dflt: IsisSpfConfig,
)
    ensures
        file.enabled matches Some(v) ==> spec_resolve(file, env, dflt).enabled == v,
        file.initial_delay matches Some(v) ==> spec_resolve(file, env, dflt).initial_delay == v,
        file.short_delay matches Some(v) ==> spec_resolve(file, env, dflt).short_delay == v,
        file.long_delay matches Some(v) ==> spec_resolve(file, env, dflt).long_delay == v,
        file.hold_down matches Some(v) ==> spec_resolve(file, env, dflt).hold_down == v,
        file.time_to_learn matches Some(v) ==> spec_resolve(file, env, dflt).time_to_learn == v,
{
}

/// With nothing set in the file or the environment, the defaults apply
/// unchanged; with nothing set in the file, the environment alone decides
/// over the defaults.
pub proof fn law_unset_sources_fall_through(env: SpfConfigSources, dflt: IsisSpfConfig)
    ensures
        spec_resolve(SpfConfigSources::unset(), SpfConfigSources::unset(), dflt) == dflt,
        spec_resolve(SpfConfigSources::unset(), env, dflt) == spec_resolve(
            env,
            SpfConfigSources::unset(),
            dflt,
        ),
{
}

} // verus!
