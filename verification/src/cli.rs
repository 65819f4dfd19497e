//! Command-line values: flag values as numbers and byte sizes, with the
//! messages the commands give for bad values.
use vstd::prelude::*;

use crate::llm_backend::strs_view;
use crate::memory_monitor::MemoryPressureLevel;
use crate::text::{
    all_digits, ascii_lower, chars_of, concat2, concat3, digits_u64, digits_value, is_digit, lowercase,
    parse_u32_spec, parse_u32_str, parse_u64_spec, parse_u64_str, range_eq, str_eq, string_of,
    lemma_trim_end_at, lemma_trim_start_at, to_lowercase, trim, trimmed,
};

verus! {

/// Why command-line arguments were refused.
#[derive(Debug, Clone)]
pub enum ArgError {
    /// A bad flag or value; the message says which.
    Message(String),
    /// A byte size whose value does not fit in 64 bits.
    SizeOverflow,
}

/// The outcome of reading a flag's value.
pub ghost enum Parsed<T> {
    Value(T),
    Invalid(Seq<char>),
    Overflow,
}

/// The relation between a parse result and its specified outcome.
pub open spec fn parsed_matches<T>(r: Result<T, ArgError>, p: Parsed<T>) -> bool {
    match p {
        Parsed::Value(v) => r matches Ok(x) && x == v,
        Parsed::Invalid(m) => r matches Err(ArgError::Message(e)) && e@ == m,
        Parsed::Overflow => r matches Err(ArgError::SizeOverflow),
    }
}

pub open spec fn invalid_number(flag: Seq<char>, value: Seq<char>) -> Seq<char> {
    "Invalid numeric value for "@ + flag + ": "@ + value
}

pub open spec fn must_be_positive(flag: Seq<char>) -> Seq<char> {
    flag + " must be > 0"@
}

/// A flag's value as a `u32`.
pub open spec fn u32_flag(flag: Seq<char>, value: Seq<char>) -> Parsed<u32> {
    match parse_u32_spec(value) {
        Some(n) => Parsed::Value(n),
        None => Parsed::Invalid(invalid_number(flag, value)),
    }
}

/// A flag's value as a `u64`.
pub open spec fn u64_flag(flag: Seq<char>, value: Seq<char>) -> Parsed<u64> {
    match parse_u64_spec(value) {
        Some(n) => Parsed::Value(n),
        None => Parsed::Invalid(invalid_number(flag, value)),
    }
}

/// A flag's value as a positive `u32`.
pub open spec fn nonzero_u32_flag(flag: Seq<char>, value: Seq<char>) -> Parsed<u32> {
    match u32_flag(flag, value) {
        Parsed::Value(n) => if n == 0 {
            Parsed::Invalid(must_be_positive(flag))
        } else {
            Parsed::Value(n)
        },
        other => other,
    }
}

/// A flag's value as a positive `u64`.
pub open spec fn nonzero_u64_flag(flag: Seq<char>, value: Seq<char>) -> Parsed<u64> {
    match u64_flag(flag, value) {
        Parsed::Value(n) => if n == 0 {
            Parsed::Invalid(must_be_positive(flag))
        } else {
            Parsed::Value(n)
        },
        other => other,
    }
}

fn error_message(m: String) -> (r: ArgError)
    ensures
        r matches ArgError::Message(e) && e@ == m@,
{
    ArgError::Message(m)
}

fn invalid_number_error(flag: &str, value: &str) -> (r: ArgError)
    ensures
        r matches ArgError::Message(e) && e@ == invalid_number(flag@, value@),
{
    let mut m = concat3("Invalid numeric value for ", flag, ": ");
    m.append(value);
    ArgError::Message(m)
}

pub fn parse_u32(flag: &str, value: &str) -> (r: Result<u32, ArgError>)
    ensures
        parsed_matches(r, u32_flag(flag@, value@)),
{
    match parse_u32_str(value) {
        Some(n) => Ok(n),
        None => Err(invalid_number_error(flag, value)),
    }
}

pub fn parse_u64(flag: &str, value: &str) -> (r: Result<u64, ArgError>)
    ensures
        parsed_matches(r, u64_flag(flag@, value@)),
{
    match parse_u64_str(value) {
        Some(n) => Ok(n),
        None => Err(invalid_number_error(flag, value)),
    }
}

pub fn parse_nonzero_u32(flag: &str, value: &str) -> (r: Result<u32, ArgError>)
    ensures
        parsed_matches(r, nonzero_u32_flag(flag@, value@)),
{
    let n = match parse_u32(flag, value) {
        Ok(n) => n,
        Err(e) => {
            return Err(e);
        },
    };
    if n == 0 {
        return Err(error_message(concat2(flag, " must be > 0")));
    }
    Ok(n)
}

pub fn parse_nonzero_u64(flag: &str, value: &str) -> (r: Result<u64, ArgError>)
    ensures
        parsed_matches(r, nonzero_u64_flag(flag@, value@)),
{
    let n = match parse_u64(flag, value) {
        Ok(n) => n,
        Err(e) => {
            return Err(e);
        },
    };
    if n == 0 {
        return Err(error_message(concat2(flag, " must be > 0")));
    }
    Ok(n)
}

/// The length of the run of ASCII digits that `s` starts with.
pub open spec fn digit_prefix_len(s: Seq<char>) -> int
    decreases s.len(),
{
    if s.len() == 0 || !is_digit(s[0]) {
        0
    } else {
        1 + digit_prefix_len(s.drop_first())
    }
}

proof fn lemma_digit_prefix_at(s: Seq<char>, i: int)
    requires
        0 <= i <= s.len(),
        forall|k: int| 0 <= k < i ==> is_digit(#[trigger] s[k]),
        i == s.len() || !is_digit(s[i]),
    ensures
        digit_prefix_len(s) == i,
    decreases i,
{
    if i > 0 {
        assert forall|k: int| 0 <= k < i - 1 implies is_digit(#[trigger] s.drop_first()[k]) by {
            assert(s.drop_first()[k] == s[k + 1]);
        }
        if i < s.len() {
            assert(s.drop_first()[i - 1] == s[i]);
        }
        lemma_digit_prefix_at(s.drop_first(), i - 1);
    }
}

/// The factor that a size unit stands for.
pub open spec fn unit_multiplier(unit: Seq<char>) -> Option<nat> {
    if unit == ""@ || unit == "b"@ {
        Some(1)
    } else if unit == "k"@ || unit == "kb"@ {
        Some(1024)
    } else if unit == "m"@ || unit == "mb"@ {
        Some(1048576)
    } else if unit == "g"@ || unit == "gb"@ {
        Some(1073741824)
    } else if unit == "t"@ || unit == "tb"@ {
        Some(1099511627776)
    } else {
        None
    }
}

/// The text added to the unknown-unit message when listing the units.
pub open spec fn unit_hint_text(hint: bool) -> Seq<char> {
    if hint {
        " (use b, kb, mb, gb, tb)"@
    } else {
        ""@
    }
}

/// A byte size such as `512mb`: the trimmed, lower-cased value is a number followed
/// by a unit (`b`, `k`/`kb`, `m`/`mb`, `g`/`gb`, `t`/`tb`, or none for bytes).
pub open spec fn bytes_flag(flag: Seq<char>, value: Seq<char>, hint: bool) -> Parsed<u64> {
    let lower = lowercase(trim(value));
    let k = digit_prefix_len(lower);
    let number = lower.subrange(0, k);
    let unit = lower.subrange(k, lower.len() as int);
    if k == 0 || digits_value(number) > u64::MAX {
        Parsed::Invalid("Invalid byte value for "@ + flag + ": "@ + value)
    } else {
        match unit_multiplier(unit) {
            None => Parsed::Invalid(
                "Unknown unit for "@ + flag + ": "@ + unit + unit_hint_text(hint),
            ),
            Some(m) => if digits_value(number) * m > u64::MAX {
                Parsed::Overflow
            } else {
                Parsed::Value((digits_value(number) * m) as u64)
            },
        }
    }
}

/// A positive byte size.
pub open spec fn nonzero_bytes_flag(flag: Seq<char>, value: Seq<char>, hint: bool) -> Parsed<u64> {
    match bytes_flag(flag, value, hint) {
        Parsed::Value(n) => if n == 0 {
            Parsed::Invalid(must_be_positive(flag))
        } else {
            Parsed::Value(n)
        },
        other => other,
    }
}

fn unit_factor(v: &Vec<char>, from: usize, to: usize) -> (r: Option<u64>)
    requires
        from <= to <= v@.len(),
    ensures
        match unit_multiplier(v@.subrange(from as int, to as int)) {
            Some(m) => r == Some(m as u64),
            None => r is None,
        },
{
    if range_eq(v, from, to, "") || range_eq(v, from, to, "b") {
        Some(1)
    } else if range_eq(v, from, to, "k") || range_eq(v, from, to, "kb") {
        Some(1024)
    } else if range_eq(v, from, to, "m") || range_eq(v, from, to, "mb") {
        Some(1048576)
    } else if range_eq(v, from, to, "g") || range_eq(v, from, to, "gb") {
        Some(1073741824)
    } else if range_eq(v, from, to, "t") || range_eq(v, from, to, "tb") {
        Some(1099511627776)
    } else {
        None
    }
}

/// Reads a byte size; see [`bytes_flag`]. `hint` adds the list of units to the
/// unknown-unit message.
pub fn parse_bytes(flag: &str, value: &str, hint: bool) -> (r: Result<u64, ArgError>)
    ensures
        parsed_matches(r, bytes_flag(flag@, value@, hint)),
{
    let t = trimmed(value);
    let lower = to_lowercase(t.as_str());
    let v = chars_of(lower.as_str());
    let mut k: usize = 0;
    while k < v.len() && '0' <= v[k] && v[k] <= '9'
        invariant
            k <= v@.len(),
            forall|j: int| 0 <= j < k ==> is_digit(#[trigger] v@[j]),
        decreases v@.len() - k,
    {
        k = k + 1;
    }
    proof {
        lemma_digit_prefix_at(v@, k as int);
    }
    let base = if k == 0 {
        None
    } else {
        digits_u64(&v, 0, k)
    };
    let base = match base {
        Some(b) => b,
        None => {
            let mut m = concat3("Invalid byte value for ", flag, ": ");
            m.append(value);
            return Err(ArgError::Message(m));
        },
    };
    match unit_factor(&v, k, v.len()) {
        None => {
            let mut m = concat3("Unknown unit for ", flag, ": ");
            let unit = string_of(&v, k, v.len());
            m.append(unit.as_str());
            if hint {
                m.append(" (use b, kb, mb, gb, tb)");
            } else {
                m.append("");
            }
            Err(ArgError::Message(m))
        },
        Some(f) => match base.checked_mul(f) {
            Some(n) => Ok(n),
            None => Err(ArgError::SizeOverflow),
        },
    }
}

pub fn parse_nonzero_bytes(flag: &str, value: &str, hint: bool) -> (r: Result<u64, ArgError>)
    ensures
        parsed_matches(r, nonzero_bytes_flag(flag@, value@, hint)),
{
    let n = match parse_bytes(flag, value, hint) {
        Ok(n) => n,
        Err(e) => {
            return Err(e);
        },
    };
    if n == 0 {
        return Err(error_message(concat2(flag, " must be > 0")));
    }
    Ok(n)
}

/// The message for a flag given without its value.
pub open spec fn missing_value(flag: Seq<char>) -> Seq<char> {
    "Missing value for "@ + flag
}

/// The argument after a flag, or the error naming the flag when there is none.
pub fn next_value(flag: &str, args: &Vec<String>, i: usize) -> (r: Result<String, ArgError>)
    ensures
        i < args@.len() ==> (r matches Ok(s) && s@ == args@[i as int]@),
        i >= args@.len() ==> (r matches Err(ArgError::Message(e)) && e@ == missing_value(flag@)),
{
    if i < args.len() {
        Ok(args[i].clone())
    } else {
        Err(ArgError::Message(concat2("Missing value for ", flag)))
    }
}

/// The name a pressure level is printed with.
pub open spec fn level_name(level: MemoryPressureLevel) -> Seq<char> {
    match level {
        MemoryPressureLevel::Normal => "normal"@,
        MemoryPressureLevel::Warning => "warning"@,
        MemoryPressureLevel::Critical => "critical"@,
    }
}

pub fn format_level(level: MemoryPressureLevel) -> (r: &'static str)
    ensures
        r@ == level_name(level),
{
    match level {
        MemoryPressureLevel::Normal => "normal",
        MemoryPressureLevel::Warning => "warning",
        MemoryPressureLevel::Critical => "critical",
    }
}

/// The relation between a parse result and its specified outcome, by view.
pub open spec fn view_matches<T: View>(r: Result<T, ArgError>, p: Parsed<T::V>) -> bool {
    match p {
        Parsed::Value(v) => r matches Ok(x) && x@ == v,
        Parsed::Invalid(m) => r matches Err(ArgError::Message(e)) && e@ == m,
        Parsed::Overflow => r matches Err(ArgError::SizeOverflow),
    }
}

/// Whether `--help` or `-h` is among the arguments.
pub open spec fn wants_help(args: Seq<Seq<char>>) -> bool {
    exists|i: int| 0 <= i < args.len() && (args[i] == "--help"@ || args[i] == "-h"@)
}

pub fn has_help_flag(args: &Vec<String>) -> (r: bool)
    ensures
        r == wants_help(strs_view(args@)),
{
    let ghost av = strs_view(args@);
    let mut i: usize = 0;
    while i < args.len()
        invariant
            i <= args@.len(),
            av == strs_view(args@),
            forall|k: int| 0 <= k < i ==> !(av[k] == "--help"@ || av[k] == "-h"@),
        decreases args@.len() - i,
    {
        let a = args[i].as_str();
        assert(av[i as int] == a@);
        if str_eq(a, "--help") || str_eq(a, "-h") {
            return true;
        }
        i = i + 1;
    }
    false
}

/// Whether an argument looks like a flag: it starts with `-`.
pub fn starts_with_dash(a: &str) -> (r: bool)
    ensures
        r == (a@.len() > 0 && a@[0] == '-'),
{
    a.unicode_len() > 0 && a.get_char(0) == '-'
}

/// A number followed by a unit in lower-case letters is its own trimmed,
/// lower-cased text, and its digits end where the unit starts.
proof fn lemma_number_with_unit(d: Seq<char>, u: Seq<char>)
    requires
        d.len() > 0,
        all_digits(d),
        u.len() > 0,
        forall|i: int| 0 <= i < u.len() ==> 'a' <= #[trigger] u[i] <= 'z',
    ensures
        lowercase(trim(d + u)) == d + u,
        digit_prefix_len(d + u) == d.len(),
        (d + u).subrange(0, d.len() as int) == d,
        (d + u).subrange(d.len() as int, (d + u).len() as int) == u,
{
    let s = d + u;
    assert(s[0] == d[0]);
    assert(is_digit(d[0]));
    lemma_trim_start_at(s, 0);
    assert(s.subrange(0, s.len() as int) =~= s);
    assert(s[s.len() - 1] == u[u.len() - 1]);
    lemma_trim_end_at(s, s.len() as int);
    assert(trim(s) == s);
    assert forall|i: int| 0 <= i < s.len() implies (#[trigger] s[i] as u32) < 128 by {
        if i < d.len() {
            assert(s[i] == d[i]);
            assert(is_digit(d[i]));
        } else {
            assert(s[i] == u[i - d.len()]);
        }
    }
    assert(ascii_lower(s) =~= s) by {
        assert forall|i: int| 0 <= i < s.len() implies ascii_lower(s)[i] == s[i] by {
            if i < d.len() {
                assert(s[i] == d[i]);
                assert(is_digit(d[i]));
            } else {
                assert(s[i] == u[i - d.len()]);
            }
        }
    }
    assert forall|k: int| 0 <= k < d.len() implies is_digit(#[trigger] s[k]) by {
        assert(s[k] == d[k]);
    }
    assert(s[d.len() as int] == u[0]);
    lemma_digit_prefix_at(s, d.len() as int);
    assert(s.subrange(0, d.len() as int) =~= d);
    assert(s.subrange(d.len() as int, s.len() as int) =~= u);
}

/// The size for a number with a unit: the number times the unit's factor.
pub open spec fn scaled(d: Seq<char>, factor: nat) -> Parsed<u64> {
    if digits_value(d) * factor > u64::MAX {
        Parsed::Overflow
    } else {
        Parsed::Value((digits_value(d) * factor) as u64)
    }
}

/// Each short unit means the same as its long form (`k` and `kb`, `m` and `mb`, `g`
/// and `gb`, `t` and `tb`), and a size written with a unit is the number times
/// 1024 to the power of the unit's rank (`b` counting as bytes).
pub proof fn law_byte_units(flag: Seq<char>, d: Seq<char>, hint: bool)
    requires
        d.len() > 0,
        all_digits(d),
        digits_value(d) <= u64::MAX,
    ensures
        bytes_flag(flag, d + seq!['b'], hint) == scaled(d, 1),
        bytes_flag(flag, d + seq!['k'], hint) == scaled(d, 1024),
        bytes_flag(flag, d + seq!['k', 'b'], hint) == scaled(d, 1024),
        bytes_flag(flag, d + seq!['m'], hint) == scaled(d, 1024 * 1024),
        bytes_flag(flag, d + seq!['m', 'b'], hint) == scaled(d, 1024 * 1024),
        bytes_flag(flag, d + seq!['g'], hint) == scaled(d, 1024 * 1024 * 1024),
        bytes_flag(flag, d + seq!['g', 'b'], hint) == scaled(d, 1024 * 1024 * 1024),
        bytes_flag(flag, d + seq!['t'], hint) == scaled(d, 1024 * 1024 * 1024 * 1024),
        bytes_flag(flag, d + seq!['t', 'b'], hint) == scaled(d, 1024 * 1024 * 1024 * 1024),
{
    reveal_strlit("");
    reveal_strlit("b");
    reveal_strlit("k");
    reveal_strlit("kb");
    reveal_strlit("m");
    reveal_strlit("mb");
    reveal_strlit("g");
    reveal_strlit("gb");
    reveal_strlit("t");
    reveal_strlit("tb");
    let units: Seq<Seq<char>> = seq![
        seq!['b'],
        seq!['k'],
        seq!['k', 'b'],
        seq!['m'],
        seq!['m', 'b'],
        seq!['g'],
        seq!['g', 'b'],
        seq!['t'],
        seq!['t', 'b'],
    ];
    assert forall|j: int| 0 <= j < units.len() implies {
        let u = #[trigger] units[j];
        &&& lowercase(trim(d + u)) == d + u
        &&& digit_prefix_len(d + u) == d.len()
        &&& (d + u).subrange(0, d.len() as int) == d
        &&& (d + u).subrange(d.len() as int, (d + u).len() as int) == u
    } by {
        lemma_number_with_unit(d, units[j]);
    }
    assert(units[0] == seq!['b']);
    assert(units[1] == seq!['k']);
    assert(units[2] == seq!['k', 'b']);
    assert(units[3] == seq!['m']);
    assert(units[4] == seq!['m', 'b']);
    assert(units[5] == seq!['g']);
    assert(units[6] == seq!['g', 'b']);
    assert(units[7] == seq!['t']);
    assert(units[8] == seq!['t', 'b']);
    assert(""@ =~= Seq::<char>::empty());
    assert("b"@ =~= seq!['b']);
    assert("k"@ =~= seq!['k']);
    assert("kb"@ =~= seq!['k', 'b']);
    assert("m"@ =~= seq!['m']);
    assert("mb"@ =~= seq!['m', 'b']);
    assert("g"@ =~= seq!['g']);
    assert("gb"@ =~= seq!['g', 'b']);
    assert("t"@ =~= seq!['t']);
    assert("tb"@ =~= seq!['t', 'b']);
}

} // verus!
