//! GGUF metadata: the header and the key/value section of a GGUF model file,
//! read from its bytes. Array values are skipped and recorded by element type
//! and count.
use vstd::prelude::*;

use vstd::bytes::{
    spec_u16_from_le_bytes, spec_u32_from_le_bytes, spec_u64_from_le_bytes, u16_from_le_bytes,
    u32_from_le_bytes, u64_from_le_bytes,
};
use vstd::slice::slice_subrange;
use vstd::utf8::{decode_utf8, valid_utf8};

use crate::text::{concat2, decimal, push_decimal, str_eq};

verus! {

/// One metadata value. Floating-point values are kept as their IEEE-754 bits.
#[derive(Debug, Clone)]
pub enum GgufValue {
    Bool(bool),
    I8(i8),
    U8(u8),
    I16(i16),
    U16(u16),
    I32(i32),
    U32(u32),
    I64(i64),
    U64(u64),
    F32(u32),
    F64(u64),
    String(String),
    Array { element_type: u32, count: u64 },
}

pub ghost enum GgufValueView {
    Bool(bool),
    I8(i8),
    U8(u8),
    I16(i16),
    U16(u16),
    I32(i32),
    U32(u32),
    I64(i64),
    U64(u64),
    F32(u32),
    F64(u64),
    Str(Seq<char>),
    Array { element_type: u32, count: u64 },
}

impl View for GgufValue {
    type V = GgufValueView;

    open spec fn view(&self) -> GgufValueView {
        match self {
            GgufValue::Bool(v) => GgufValueView::Bool(*v),
            GgufValue::I8(v) => GgufValueView::I8(*v),
            GgufValue::U8(v) => GgufValueView::U8(*v),
            GgufValue::I16(v) => GgufValueView::I16(*v),
            GgufValue::U16(v) => GgufValueView::U16(*v),
            GgufValue::I32(v) => GgufValueView::I32(*v),
            GgufValue::U32(v) => GgufValueView::U32(*v),
            GgufValue::I64(v) => GgufValueView::I64(*v),
            GgufValue::U64(v) => GgufValueView::U64(*v),
            GgufValue::F32(v) => GgufValueView::F32(*v),
            GgufValue::F64(v) => GgufValueView::F64(*v),
            GgufValue::String(s) => GgufValueView::Str(s@),
            GgufValue::Array { element_type, count } => GgufValueView::Array {
                element_type: *element_type,
                count: *count,
            },
        }
    }
}

/// The value as an unsigned number: unsigned integers as they are, signed integers
/// when not negative, nothing for other kinds.
pub open spec fn value_as_u64(v: GgufValueView) -> Option<u64> {
    match v {
        GgufValueView::U8(x) => Some(x as u64),
        GgufValueView::U16(x) => Some(x as u64),
        GgufValueView::U32(x) => Some(x as u64),
        GgufValueView::U64(x) => Some(x),
        GgufValueView::I8(x) => if x >= 0 {
            Some(x as u64)
        } else {
            None
        },
        GgufValueView::I16(x) => if x >= 0 {
            Some(x as u64)
        } else {
            None
        },
        GgufValueView::I32(x) => if x >= 0 {
            Some(x as u64)
        } else {
            None
        },
        GgufValueView::I64(x) => if x >= 0 {
            Some(x as u64)
        } else {
            None
        },
        _ => None,
    }
}

impl GgufValue {
    pub fn as_u64(&self) -> (r: Option<u64>)
        ensures
            r == value_as_u64(self@),
    {
        match self {
            GgufValue::U8(v) => Some(*v as u64),
            GgufValue::U16(v) => Some(*v as u64),
            GgufValue::U32(v) => Some(*v as u64),
            GgufValue::U64(v) => Some(*v),
            GgufValue::I8(v) => if *v >= 0 {
                Some(*v as u64)
            } else {
                None
            },
            GgufValue::I16(v) => if *v >= 0 {
                Some(*v as u64)
            } else {
                None
            },
            GgufValue::I32(v) => if *v >= 0 {
                Some(*v as u64)
            } else {
                None
            },
            GgufValue::I64(v) => if *v >= 0 {
                Some(*v as u64)
            } else {
                None
            },
            _ => None,
        }
    }
}

/// The file's format version and its key/value entries in file order.
#[derive(Debug, Clone)]
pub struct GgufMetadata {
    pub version: u32,
    pub kv: Vec<(String, GgufValue)>,
}

pub open spec fn entries_view(v: Seq<(String, GgufValue)>) -> Seq<(Seq<char>, GgufValueView)> {
    v.map_values(|e: (String, GgufValue)| (e.0@, e.1@))
}

/// The value that entries give a key: that of its last occurrence.
pub open spec fn lookup(entries: Seq<(Seq<char>, GgufValueView)>, key: Seq<char>) -> Option<GgufValueView>
    decreases entries.len(),
{
    if entries.len() == 0 {
        None
    } else if entries.last().0 == key {
        Some(entries.last().1)
    } else {
        lookup(entries.drop_last(), key)
    }
}

pub ghost struct GgufMetadataView {
    pub version: u32,
    pub entries: Seq<(Seq<char>, GgufValueView)>,
}

impl View for GgufMetadata {
    type V = GgufMetadataView;

    open spec fn view(&self) -> GgufMetadataView {
        GgufMetadataView { version: self.version, entries: entries_view(self.kv@) }
    }
}

impl GgufMetadata {
    /// The value of `key`; when the file repeats a key, its last value.
    pub fn get(&self, key: &str) -> (r: Option<&GgufValue>)
        ensures
            match r {
                Some(v) => lookup(self@.entries, key@) == Some(v@),
                None => lookup(self@.entries, key@) is None,
            },
    {
        let mut i = self.kv.len();
        assert(entries_view(self.kv@).subrange(0, i as int) =~= entries_view(self.kv@));
        while i > 0
            invariant
                i <= self.kv@.len(),
                lookup(self@.entries, key@) == lookup(entries_view(self.kv@).subrange(0, i as int), key@),
            decreases i,
        {
            let ghost es = entries_view(self.kv@).subrange(0, i as int);
            assert(es.drop_last() =~= entries_view(self.kv@).subrange(0, i - 1));
            i = i - 1;
            if str_eq(self.kv[i].0.as_str(), key) {
                return Some(&self.kv[i].1);
            }
        }
        None
    }
}

/// A parse step's outcome: a value and the position after it, a failure with its
/// message, or an array whose byte size does not fit in 64 bits.
pub ghost enum Step<T> {
    Done(T, int),
    Fail(Seq<char>),
    Overflow,
}

/// The message for reading past the end of the file.
pub open spec fn eof_message(what: Seq<char>) -> Seq<char> {
    "Failed to read "@ + what + ": failed to fill whole buffer"@
}

pub open spec fn read_bytes(b: Seq<u8>, pos: int, n: int, what: Seq<char>) -> Step<Seq<u8>> {
    if 0 <= pos && pos + n <= b.len() {
        Step::Done(b.subrange(pos, pos + n), pos + n)
    } else {
        Step::Fail(eof_message(what))
    }
}

pub open spec fn read_u32_spec(b: Seq<u8>, pos: int) -> Step<u32> {
    match read_bytes(b, pos, 4, "u32"@) {
        Step::Done(s, p) => Step::Done(spec_u32_from_le_bytes(s), p),
        Step::Fail(m) => Step::Fail(m),
        Step::Overflow => Step::Overflow,
    }
}

pub open spec fn read_u64_spec(b: Seq<u8>, pos: int, what: Seq<char>) -> Step<u64> {
    match read_bytes(b, pos, 8, what) {
        Step::Done(s, p) => Step::Done(spec_u64_from_le_bytes(s), p),
        Step::Fail(m) => Step::Fail(m),
        Step::Overflow => Step::Overflow,
    }
}

/// The text of the error that `std::str::from_utf8` (like `String::from_utf8`)
/// reports for bytes that are not UTF-8.
pub uninterp spec fn utf8_error_text(bytes: Seq<u8>) -> Seq<char>;

/// Decodes UTF-8 with `std::str::from_utf8`: succeeds exactly on valid UTF-8, with
/// the decoded characters; otherwise gives the error's text, named `utf8_error_text`.
#[verifier::external_body]
fn string_from_utf8(bytes: &[u8]) -> (r: Result<String, String>)
    ensures
        r is Ok <==> valid_utf8(bytes@),
        r matches Ok(s) ==> s@ == decode_utf8(bytes@),
        r matches Err(e) ==> e@ == utf8_error_text(bytes@),
{
    match std::str::from_utf8(bytes) {
        Ok(s) => Ok(s.to_string()),
        Err(e) => Err(e.to_string()),
    }
}

/// A length-prefixed string: a `u32` byte length, then that many UTF-8 bytes.
pub open spec fn read_string_spec(b: Seq<u8>, pos: int) -> Step<Seq<char>> {
    match read_u32_spec(b, pos) {
        Step::Done(len, p) => match read_bytes(b, p, len as int, "string"@) {
            Step::Done(bytes, q) => if valid_utf8(bytes) {
                Step::Done(decode_utf8(bytes), q)
            } else {
                Step::Fail("Invalid UTF-8 string: "@ + utf8_error_text(bytes))
            },
            Step::Fail(m) => Step::Fail(m),
            Step::Overflow => Step::Overflow,
        },
        Step::Fail(m) => Step::Fail(m),
        Step::Overflow => Step::Overflow,
    }
}

/// Moving the read position by `n` bytes counted as a signed 64-bit offset (as a
/// file seek does); a target before the start of the file is an error.
pub open spec fn skip_spec(pos: int, n: u64) -> Step<()> {
    let target = pos + (n as i64);
    if target < 0 {
        Step::Fail("Failed to skip bytes: Invalid argument (os error 22)"@)
    } else {
        Step::Done((), target)
    }
}

/// Skips `count` length-prefixed strings.
pub open spec fn skip_strings_spec(b: Seq<u8>, pos: int, count: nat) -> Step<()>
    decreases count,
{
    if count == 0 {
        Step::Done((), pos)
    } else {
        match skip_strings_spec(b, pos, (count - 1) as nat) {
            Step::Done(_, p) => match read_string_spec(b, p) {
                Step::Done(_, q) => Step::Done((), q),
                Step::Fail(m) => Step::Fail(m),
                Step::Overflow => Step::Overflow,
            },
            other => other,
        }
    }
}

/// The byte width of an array element type with fixed-size elements.
pub open spec fn element_width(t: u32) -> int {
    if t == 0 || t == 1 || t == 7 {
        1
    } else if t == 2 || t == 3 {
        2
    } else if t == 4 || t == 5 || t == 6 {
        4
    } else if t == 10 || t == 11 || t == 12 {
        8
    } else {
        0
    }
}

/// Skips the elements of an array value.
pub open spec fn skip_array_spec(b: Seq<u8>, pos: int, element_type: u32, count: u64) -> Step<()> {
    if element_width(element_type) > 0 {
        let size = count * element_width(element_type);
        if size > u64::MAX {
            Step::Overflow
        } else {
            skip_spec(pos, size as u64)
        }
    } else if element_type == 8 {
        skip_strings_spec(b, pos, count as nat)
    } else if element_type == 9 {
        Step::Fail("Nested arrays in GGUF are not supported"@)
    } else {
        Step::Fail("Unsupported GGUF array element type: "@ + decimal(element_type as nat))
    }
}

pub open spec fn map_step<A, B>(s: Step<A>, f: spec_fn(A) -> B) -> Step<B> {
    match s {
        Step::Done(a, p) => Step::Done(f(a), p),
        Step::Fail(m) => Step::Fail(m),
        Step::Overflow => Step::Overflow,
    }
}

/// A value of the given type code.
pub open spec fn read_value_spec(b: Seq<u8>, pos: int, ty: u32) -> Step<GgufValueView> {
    if ty == 0 {
        map_step(read_bytes(b, pos, 1, "u8"@), |s: Seq<u8>| GgufValueView::U8(s[0]))
    } else if ty == 1 {
        map_step(read_bytes(b, pos, 1, "u8"@), |s: Seq<u8>| GgufValueView::I8(s[0] as i8))
    } else if ty == 2 {
        map_step(
            read_bytes(b, pos, 2, "u16"@),
            |s: Seq<u8>| GgufValueView::U16(spec_u16_from_le_bytes(s)),
        )
    } else if ty == 3 {
        map_step(
            read_bytes(b, pos, 2, "u16"@),
            |s: Seq<u8>| GgufValueView::I16(spec_u16_from_le_bytes(s) as i16),
        )
    } else if ty == 4 {
        map_step(read_u32_spec(b, pos), |x: u32| GgufValueView::U32(x))
    } else if ty == 5 {
        map_step(read_u32_spec(b, pos), |x: u32| GgufValueView::I32(x as i32))
    } else if ty == 6 {
        map_step(
            read_bytes(b, pos, 4, "f32"@),
            |s: Seq<u8>| GgufValueView::F32(spec_u32_from_le_bytes(s)),
        )
    } else if ty == 7 {
        map_step(read_bytes(b, pos, 1, "u8"@), |s: Seq<u8>| GgufValueView::Bool(s[0] != 0))
    } else if ty == 8 {
        map_step(read_string_spec(b, pos), |s: Seq<char>| GgufValueView::Str(s))
    } else if ty == 9 {
        match read_u32_spec(b, pos) {
            Step::Done(et, p) => match read_u64_spec(b, p, "u64"@) {
                Step::Done(count, q) => match skip_array_spec(b, q, et, count) {
                    Step::Done(_, r) => Step::Done(
                        GgufValueView::Array { element_type: et, count },
                        r,
                    ),
                    Step::Fail(m) => Step::Fail(m),
                    Step::Overflow => Step::Overflow,
                },
                Step::Fail(m) => Step::Fail(m),
                Step::Overflow => Step::Overflow,
            },
            Step::Fail(m) => Step::Fail(m),
            Step::Overflow => Step::Overflow,
        }
    } else if ty == 10 {
        map_step(read_u64_spec(b, pos, "u64"@), |x: u64| GgufValueView::U64(x))
    } else if ty == 11 {
        map_step(read_u64_spec(b, pos, "u64"@), |x: u64| GgufValueView::I64(x as i64))
    } else if ty == 12 {
        map_step(read_u64_spec(b, pos, "f64"@), |x: u64| GgufValueView::F64(x))
    } else {
        Step::Fail("Unsupported GGUF value type: "@ + decimal(ty as nat))
    }
}

/// One entry: a key string, a `u32` type code, then the value.
pub open spec fn read_entry_spec(b: Seq<u8>, pos: int) -> Step<(Seq<char>, GgufValueView)> {
    match read_string_spec(b, pos) {
        Step::Done(key, p) => match read_u32_spec(b, p) {
            Step::Done(ty, q) => match read_value_spec(b, q, ty) {
                Step::Done(v, r) => Step::Done((key, v), r),
                Step::Fail(m) => Step::Fail(m),
                Step::Overflow => Step::Overflow,
            },
            Step::Fail(m) => Step::Fail(m),
            Step::Overflow => Step::Overflow,
        },
        Step::Fail(m) => Step::Fail(m),
        Step::Overflow => Step::Overflow,
    }
}

/// The first `n` entries starting at `pos`.
pub open spec fn read_entries_spec(b: Seq<u8>, pos: int, n: nat) -> Step<
    Seq<(Seq<char>, GgufValueView)>,
>
    decreases n,
{
    if n == 0 {
        Step::Done(Seq::empty(), pos)
    } else {
        match read_entries_spec(b, pos, (n - 1) as nat) {
            Step::Done(es, p) => match read_entry_spec(b, p) {
                Step::Done(e, q) => Step::Done(es.push(e), q),
                Step::Fail(m) => Step::Fail(m),
                Step::Overflow => Step::Overflow,
            },
            Step::Fail(m) => Step::Fail(m),
            Step::Overflow => Step::Overflow,
        }
    }
}

/// The magic number `GGUF`.
pub open spec fn gguf_magic() -> Seq<u8> {
    seq![0x47u8, 0x47u8, 0x55u8, 0x46u8]
}

/// A GGUF file's metadata: the magic `GGUF`, a `u32` version, a `u64` tensor count,
/// a `u64` entry count, then the entries.
pub open spec fn parse_gguf_spec(b: Seq<u8>) -> Step<GgufMetadataView> {
    if b.len() < 4 {
        Step::Fail("Failed to read header: failed to fill whole buffer"@)
    } else if b.subrange(0, 4) != gguf_magic() {
        Step::Fail("Invalid GGUF magic header"@)
    } else {
        match read_u32_spec(b, 4) {
            Step::Done(version, p) => match read_u64_spec(b, p, "u64"@) {
                Step::Done(_tensors, q) => match read_u64_spec(b, q, "u64"@) {
                    Step::Done(n, r) => match read_entries_spec(b, r, n as nat) {
                        Step::Done(es, _) => Step::Done(
                            GgufMetadataView { version, entries: es },
                            0,
                        ),
                        Step::Fail(m) => Step::Fail(m),
                        Step::Overflow => Step::Overflow,
                    },
                    Step::Fail(m) => Step::Fail(m),
                    Step::Overflow => Step::Overflow,
                },
                Step::Fail(m) => Step::Fail(m),
                Step::Overflow => Step::Overflow,
            },
            Step::Fail(m) => Step::Fail(m),
            Step::Overflow => Step::Overflow,
        }
    }
}

/// The metadata that the entries give, or the entries' failure.
pub open spec fn finish(version: u32, s: Step<Seq<(Seq<char>, GgufValueView)>>) -> Step<GgufMetadataView> {
    match s {
        Step::Done(es, _) => Step::Done(GgufMetadataView { version, entries: es }, 0),
        Step::Fail(m) => Step::Fail(m),
        Step::Overflow => Step::Overflow,
    }
}

/// Why metadata could not be read.
#[derive(Debug, Clone)]
pub enum GgufError {
    /// The file is malformed; the message says how.
    Message(String),
    /// An array's byte size does not fit in 64 bits.
    SizeOverflow,
}

/// The relation between an exec outcome and a spec step.
pub open spec fn step_matches<T, V>(r: Result<(T, u128), GgufError>, s: Step<V>, f: spec_fn(T) -> V) -> bool {
    match s {
        Step::Done(v, p) => r matches Ok((t, q)) && f(t) == v && q == p,
        Step::Fail(m) => r matches Err(GgufError::Message(e)) && e@ == m,
        Step::Overflow => r matches Err(GgufError::SizeOverflow),
    }
}

fn eof_error(what: &str) -> (r: GgufError)
    ensures
        r matches GgufError::Message(e) && e@ == eof_message(what@),
{
    let mut s = concat2("Failed to read ", what);
    s.append(": failed to fill whole buffer");
    GgufError::Message(s)
}

fn read_slice<'a>(b: &'a [u8], pos: u128, n: u128, what: &str) -> (r: Result<(&'a [u8], u128), GgufError>)
    ensures
        step_matches(r, read_bytes(b@, pos as int, n as int, what@), |s: &'a [u8]| s@),
{
    if pos <= b.len() as u128 && n <= b.len() as u128 - pos {
        let s = slice_subrange(b, pos as usize, (pos + n) as usize);
        Ok((s, pos + n))
    } else {
        Err(eof_error(what))
    }
}

fn read_u32_at(b: &[u8], pos: u128) -> (r: Result<(u32, u128), GgufError>)
    ensures
        step_matches(r, read_u32_spec(b@, pos as int), |x: u32| x),
{
    match read_slice(b, pos, 4, "u32") {
        Ok((s, p)) => Ok((u32_from_le_bytes(s), p)),
        Err(e) => Err(e),
    }
}

fn read_u64_at(b: &[u8], pos: u128, what: &str) -> (r: Result<(u64, u128), GgufError>)
    ensures
        step_matches(r, read_u64_spec(b@, pos as int, what@), |x: u64| x),
{
    match read_slice(b, pos, 8, what) {
        Ok((s, p)) => Ok((u64_from_le_bytes(s), p)),
        Err(e) => Err(e),
    }
}

fn read_string_at(b: &[u8], pos: u128) -> (r: Result<(String, u128), GgufError>)
    ensures
        step_matches(r, read_string_spec(b@, pos as int), |s: String| s@),
{
    let (len, p) = match read_u32_at(b, pos) {
        Ok(x) => x,
        Err(e) => {
            return Err(e);
        },
    };
    let (bytes, q) = match read_slice(b, p, len as u128, "string") {
        Ok(x) => x,
        Err(e) => {
            return Err(e);
        },
    };
    match string_from_utf8(bytes) {
        Ok(s) => Ok((s, q)),
        Err(m) => Err(GgufError::Message(concat2("Invalid UTF-8 string: ", m.as_str()))),
    }
}

fn skip_at(pos: u128, n: u64) -> (r: Result<((), u128), GgufError>)
    requires
        pos <= u64::MAX,
    ensures
        step_matches(r, skip_spec(pos as int, n), |u: ()| u),
        r matches Ok((_, q)) ==> q <= pos + i64::MAX,
{
    let offset = n as i64;
    if offset < 0 {
        let back = (0i128 - offset as i128) as u128;
        if back > pos {
            return Err(GgufError::Message(String::from_str("Failed to skip bytes: Invalid argument (os error 22)")));
        }
        Ok(((), pos - back))
    } else {
        Ok(((), pos + offset as u128))
    }
}

fn skip_strings_at(b: &[u8], pos: u128, count: u64) -> (r: Result<((), u128), GgufError>)
    requires
        pos <= b@.len(),
    ensures
        step_matches(r, skip_strings_spec(b@, pos as int, count as nat), |u: ()| u),
{
    let mut p = pos;
    let mut k: u64 = 0;
    while k < count
        invariant
            k <= count,
            p <= b@.len(),
            skip_strings_spec(b@, pos as int, k as nat) == Step::<()>::Done((), p as int),
        decreases count - k,
    {
        match read_string_at(b, p) {
            Ok((_, q)) => {
                p = q;
            },
            Err(e) => {
                proof {
                    lemma_skip_strings_fail(b@, pos as int, (k + 1) as nat, count as nat);
                }
                return Err(e);
            },
        }
        k = k + 1;
    }
    Ok(((), p))
}

proof fn lemma_skip_strings_fail(b: Seq<u8>, pos: int, k: nat, n: nat)
    requires
        k <= n,
        !(skip_strings_spec(b, pos, k) is Done),
    ensures
        skip_strings_spec(b, pos, n) == skip_strings_spec(b, pos, k),
    decreases n - k,
{
    if k < n {
        lemma_skip_strings_fail(b, pos, k, (n - 1) as nat);
    }
}

fn skip_array_at(b: &[u8], pos: u128, element_type: u32, count: u64) -> (r: Result<((), u128), GgufError>)
    requires
        pos <= b@.len(),
    ensures
        step_matches(r, skip_array_spec(b@, pos as int, element_type, count), |u: ()| u),
        r matches Ok((_, q)) ==> q <= b@.len() + i64::MAX,
{
    let width: u64 = if element_type == 0 || element_type == 1 || element_type == 7 {
        1
    } else if element_type == 2 || element_type == 3 {
        2
    } else if element_type == 4 || element_type == 5 || element_type == 6 {
        4
    } else if element_type == 10 || element_type == 11 || element_type == 12 {
        8
    } else {
        0
    };
    let blen = b.len();
    assert(pos <= u64::MAX) by {
        assert(blen == b@.len());
        assert(blen as int <= u64::MAX);
    }
    if width > 0 {
        match count.checked_mul(width) {
            Some(size) => skip_at(pos, size),
            None => Err(GgufError::SizeOverflow),
        }
    } else if element_type == 8 {
        skip_strings_at(b, pos, count)
    } else if element_type == 9 {
        Err(GgufError::Message(String::from_str("Nested arrays in GGUF are not supported")))
    } else {
        let mut m = String::from_str("Unsupported GGUF array element type: ");
        push_decimal(&mut m, element_type as u64);
        Err(GgufError::Message(m))
    }
}

fn read_value_at(b: &[u8], pos: u128, ty: u32) -> (r: Result<(GgufValue, u128), GgufError>)
    requires
        pos <= b@.len(),
    ensures
        step_matches(r, read_value_spec(b@, pos as int, ty), |v: GgufValue| v@),
        r matches Ok((_, q)) ==> q <= b@.len() + i64::MAX,
{
    if ty == 0 || ty == 1 || ty == 7 {
        match read_slice(b, pos, 1, "u8") {
            Ok((s, p)) => {
                let x = s[0];
                let v = if ty == 0 {
                    GgufValue::U8(x)
                } else if ty == 1 {
                    GgufValue::I8(x as i8)
                } else {
                    GgufValue::Bool(x != 0)
                };
                Ok((v, p))
            },
            Err(e) => Err(e),
        }
    } else if ty == 2 || ty == 3 {
        match read_slice(b, pos, 2, "u16") {
            Ok((s, p)) => {
                let x = u16_from_le_bytes(s);
                let v = if ty == 2 {
                    GgufValue::U16(x)
                } else {
                    GgufValue::I16(x as i16)
                };
                Ok((v, p))
            },
            Err(e) => Err(e),
        }
    } else if ty == 4 || ty == 5 {
        match read_u32_at(b, pos) {
            Ok((x, p)) => {
                let v = if ty == 4 {
                    GgufValue::U32(x)
                } else {
                    GgufValue::I32(x as i32)
                };
                Ok((v, p))
            },
            Err(e) => Err(e),
        }
    } else if ty == 6 {
        match read_slice(b, pos, 4, "f32") {
            Ok((s, p)) => Ok((GgufValue::F32(u32_from_le_bytes(s)), p)),
            Err(e) => Err(e),
        }
    } else if ty == 8 {
        match read_string_at(b, pos) {
            Ok((s, p)) => Ok((GgufValue::String(s), p)),
            Err(e) => Err(e),
        }
    } else if ty == 9 {
        let (et, p) = match read_u32_at(b, pos) {
            Ok(x) => x,
            Err(e) => {
                return Err(e);
            },
        };
        let (count, q) = match read_u64_at(b, p, "u64") {
            Ok(x) => x,
            Err(e) => {
                return Err(e);
            },
        };
        match skip_array_at(b, q, et, count) {
            Ok((_, r)) => Ok((GgufValue::Array { element_type: et, count }, r)),
            Err(e) => Err(e),
        }
    } else if ty == 10 || ty == 11 {
        match read_u64_at(b, pos, "u64") {
            Ok((x, p)) => {
                let v = if ty == 10 {
                    GgufValue::U64(x)
                } else {
                    GgufValue::I64(x as i64)
                };
                Ok((v, p))
            },
            Err(e) => Err(e),
        }
    } else if ty == 12 {
        match read_u64_at(b, pos, "f64") {
            Ok((x, p)) => Ok((GgufValue::F64(x), p)),
            Err(e) => Err(e),
        }
    } else {
        let mut m = String::from_str("Unsupported GGUF value type: ");
        push_decimal(&mut m, ty as u64);
        Err(GgufError::Message(m))
    }
}

fn read_entry_at(b: &[u8], pos: u128) -> (r: Result<((String, GgufValue), u128), GgufError>)
    requires
        pos <= b@.len() + i64::MAX,
    ensures
        step_matches(
            r,
            read_entry_spec(b@, pos as int),
            |e: (String, GgufValue)| (e.0@, e.1@),
        ),
        r matches Ok((_, q)) ==> q <= b@.len() + i64::MAX,
{
    let (key, p) = match read_string_at(b, pos) {
        Ok(x) => x,
        Err(e) => {
            return Err(e);
        },
    };
    let (ty, q) = match read_u32_at(b, p) {
        Ok(x) => x,
        Err(e) => {
            return Err(e);
        },
    };
    match read_value_at(b, q, ty) {
        Ok((v, r)) => Ok(((key, v), r)),
        Err(e) => Err(e),
    }
}

proof fn lemma_entries_fail(b: Seq<u8>, pos: int, k: nat, n: nat)
    requires
        k <= n,
        !(read_entries_spec(b, pos, k) is Done),
    ensures
        read_entries_spec(b, pos, n) == read_entries_spec(b, pos, k),
    decreases n - k,
{
    if k < n {
        lemma_entries_fail(b, pos, k, (n - 1) as nat);
    }
}

/// Reads the metadata of a GGUF file from its bytes; see [`parse_gguf_spec`].
pub fn parse_metadata(bytes: &[u8]) -> (r: Result<GgufMetadata, GgufError>)
    ensures
        match parse_gguf_spec(bytes@) {
            Step::Done(m, _) => r matches Ok(meta) && meta@ == m,
            Step::Fail(msg) => r matches Err(GgufError::Message(e)) && e@ == msg,
            Step::Overflow => r matches Err(GgufError::SizeOverflow),
        },
{
    if bytes.len() < 4 {
        return Err(GgufError::Message(String::from_str("Failed to read header: failed to fill whole buffer")));
    }
    if !(bytes[0] == 0x47 && bytes[1] == 0x47 && bytes[2] == 0x55 && bytes[3] == 0x46) {
        assert(bytes@.subrange(0, 4) != gguf_magic()) by {
            if bytes@.subrange(0, 4) == gguf_magic() {
                assert(bytes@.subrange(0, 4)[0] == bytes@[0]);
                assert(bytes@.subrange(0, 4)[1] == bytes@[1]);
                assert(bytes@.subrange(0, 4)[2] == bytes@[2]);
                assert(bytes@.subrange(0, 4)[3] == bytes@[3]);
            }
        }
        return Err(GgufError::Message(String::from_str("Invalid GGUF magic header")));
    }
    assert(bytes@.subrange(0, 4) =~= gguf_magic());
    let (version, p) = match read_u32_at(bytes, 4) {
        Ok(x) => x,
        Err(e) => {
            return Err(e);
        },
    };
    let (_tensors, q) = match read_u64_at(bytes, p, "u64") {
        Ok(x) => x,
        Err(e) => {
            return Err(e);
        },
    };
    let (n, start) = match read_u64_at(bytes, q, "u64") {
        Ok(x) => x,
        Err(e) => {
            return Err(e);
        },
    };
    let mut kv: Vec<(String, GgufValue)> = Vec::new();
    let mut pos = start;
    let mut k: u64 = 0;
    assert(entries_view(kv@) =~= Seq::<(Seq<char>, GgufValueView)>::empty());
    assert(parse_gguf_spec(bytes@) == finish(version, read_entries_spec(bytes@, start as int, n as nat)));
    while k < n
        invariant
            k <= n,
            parse_gguf_spec(bytes@) == finish(version, read_entries_spec(bytes@, start as int, n as nat)),
            pos <= bytes@.len() + i64::MAX,
            read_entries_spec(bytes@, start as int, k as nat) == Step::Done(
                entries_view(kv@),
                pos as int,
            ),
        decreases n - k,
    {
        match read_entry_at(bytes, pos) {
            Ok((e, p2)) => {
                let ghost before = kv@;
                kv.push(e);
                assert(entries_view(kv@) =~= entries_view(before).push((e.0@, e.1@)));
                pos = p2;
            },
            Err(err) => {
                proof {
                    lemma_entries_fail(bytes@, start as int, (k + 1) as nat, n as nat);
                }
                return Err(err);
            },
        }
        k = k + 1;
    }
    Ok(GgufMetadata { version, kv })
}

/// An array of fixed-size elements is as long as that many scalars of its element
/// type: reading one scalar of the type moves the position by exactly the element
/// width, and skipping `count` elements moves it by `count` times that many bytes.
pub proof fn law_array_element_is_scalar_width(b: Seq<u8>, pos: int, t: u32, p0: int, count: u64)
    requires
        t <= 7 || (10 <= t && t <= 12),
        0 <= pos,
        pos + 8 <= b.len(),
        0 <= p0,
    ensures
        match read_value_spec(b, pos, t) {
            Step::Done(_, q) => q - pos == element_width(t) && q - pos > 0 && (count * (q - pos)
                <= i64::MAX ==> skip_array_spec(b, p0, t, count) == Step::<()>::Done(
                (),
                p0 + count * (q - pos),
            )),
            _ => false,
        },
{
    let w = element_width(t);
    let n = count * w;
    if n <= i64::MAX {
        let size = n as u64;
        assert(size == n);
        assert((size as i64) as int == size) by (bit_vector)
            requires
                size <= 0x7fff_ffff_ffff_ffffu64,
        ;
    }
}

} // verus!
