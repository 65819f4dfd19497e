//! The free memory that macOS `vm_stat` reports: the page size and the free,
//! inactive and speculative page counts read from its output.
use vstd::prelude::*;

use crate::commands::kv_report::sat_mul;
use crate::text::{
    chars_of, contains, is_digit, parse_u64_range, parse_u64_spec, split, split_state,
    starts_with, str_contains, str_starts_with, string_of,
};

verus! {

/// The ASCII digits of `s`, in order.
pub open spec fn digits_of(s: Seq<char>) -> Seq<char>
    decreases s.len(),
{
    if s.len() == 0 {
        Seq::empty()
    } else if is_digit(s.last()) {
        digits_of(s.drop_last()).push(s.last())
    } else {
        digits_of(s.drop_last())
    }
}

/// The number that all the digits of a line make together, if there are any and
/// it fits in a `u64`.
pub open spec fn first_number_spec(line: Seq<char>) -> Option<u64> {
    let d = digits_of(line);
    if d.len() == 0 {
        None
    } else {
        parse_u64_spec(d)
    }
}

/// The digits of `line`, read as one number.
pub fn extract_first_number(line: &str) -> (r: Option<u64>)
    ensures
        r == first_number_spec(line@),
{
    let v = chars_of(line);
    let mut digits: Vec<char> = Vec::new();
    let mut i: usize = 0;
    while i < v.len()
        invariant
            v@ == line@,
            i <= v@.len(),
            digits@ == digits_of(v@.subrange(0, i as int)),
        decreases v@.len() - i,
    {
        assert(v@.subrange(0, i + 1).drop_last() =~= v@.subrange(0, i as int));
        let c = v[i];
        if '0' <= c && c <= '9' {
            digits.push(c);
        }
        i = i + 1;
    }
    assert(v@.subrange(0, v@.len() as int) =~= v@);
    if digits.len() == 0 {
        None
    } else {
        let r = parse_u64_range(&digits, 0, digits.len());
        assert(digits@.subrange(0, digits@.len() as int) =~= digits@);
        r
    }
}

/// What the output of `vm_stat` says: the page size if a line gives it, and the
/// free, inactive and speculative page counts.
pub struct VmStatCounts {
    pub page_size: Option<u64>,
    pub free_pages: u64,
    pub inactive_pages: u64,
    pub speculative_pages: u64,
}

pub open spec fn count_or_zero(n: Option<u64>) -> u64 {
    match n {
        Some(x) => x,
        None => 0,
    }
}

/// The counts after one more line: a line that mentions the page size sets it (or
/// clears it when it holds no number), and a line that starts with `Pages free`,
/// `Pages inactive` or `Pages speculative` sets that count (zero when it holds no
/// number). Other lines change nothing.
pub open spec fn vm_stat_line(c: VmStatCounts, line: Seq<char>) -> VmStatCounts {
    if contains(line, "page size of"@) {
        VmStatCounts {
            page_size: first_number_spec(line),
            free_pages: c.free_pages,
            inactive_pages: c.inactive_pages,
            speculative_pages: c.speculative_pages,
        }
    } else if starts_with(line, "Pages free"@) {
        VmStatCounts {
            page_size: c.page_size,
            free_pages: count_or_zero(first_number_spec(line)),
            inactive_pages: c.inactive_pages,
            speculative_pages: c.speculative_pages,
        }
    } else if starts_with(line, "Pages inactive"@) {
        VmStatCounts {
            page_size: c.page_size,
            free_pages: c.free_pages,
            inactive_pages: count_or_zero(first_number_spec(line)),
            speculative_pages: c.speculative_pages,
        }
    } else if starts_with(line, "Pages speculative"@) {
        VmStatCounts {
            page_size: c.page_size,
            free_pages: c.free_pages,
            inactive_pages: c.inactive_pages,
            speculative_pages: count_or_zero(first_number_spec(line)),
        }
    } else {
        c
    }
}

pub open spec fn vm_stat_lines(lines: Seq<Seq<char>>) -> VmStatCounts
    decreases lines.len(),
{
    if lines.len() == 0 {
        VmStatCounts { page_size: None, free_pages: 0, inactive_pages: 0, speculative_pages: 0 }
    } else {
        vm_stat_line(vm_stat_lines(lines.drop_last()), lines.last())
    }
}

/// The counts that the output of `vm_stat` gives, read line by line.
pub open spec fn vm_stat_spec(output: Seq<char>) -> VmStatCounts {
    vm_stat_lines(split(output, '\n'))
}

fn vm_stat_step(c: &mut VmStatCounts, v: &Vec<char>, from: usize, to: usize)
    requires
        from <= to <= v@.len(),
    ensures
        *final(c) == vm_stat_line(*old(c), v@.subrange(from as int, to as int)),
{
    let line = string_of(v, from, to);
    if str_contains(line.as_str(), "page size of") {
        c.page_size = extract_first_number(line.as_str());
    } else if str_starts_with(line.as_str(), "Pages free") {
        c.free_pages = match extract_first_number(line.as_str()) {
            Some(n) => n,
            None => 0,
        };
    } else if str_starts_with(line.as_str(), "Pages inactive") {
        c.inactive_pages = match extract_first_number(line.as_str()) {
            Some(n) => n,
            None => 0,
        };
    } else if str_starts_with(line.as_str(), "Pages speculative") {
        c.speculative_pages = match extract_first_number(line.as_str()) {
            Some(n) => n,
            None => 0,
        };
    }
}

/// Reads the output of `vm_stat`.
pub fn vm_stat_counts(output: &str) -> (r: VmStatCounts)
    ensures
        r == vm_stat_spec(output@),
{
    let v = chars_of(output);
    let mut c = VmStatCounts { page_size: None, free_pages: 0, inactive_pages: 0, speculative_pages: 0 };
    let ghost s = v@;
    let mut start: usize = 0;
    let mut i: usize = 0;
    while i < v.len()
        invariant
            s == v@,
            start <= i <= v@.len(),
            v@.subrange(start as int, i as int) == split_state(s.subrange(0, i as int), '\n').1,
            c == vm_stat_lines(split_state(s.subrange(0, i as int), '\n').0),
        decreases v@.len() - i,
    {
        let ghost prev = s.subrange(0, i as int);
        let ghost next = s.subrange(0, i + 1);
        assert(next.drop_last() =~= prev);
        if v[i] == '\n' {
            vm_stat_step(&mut c, &v, start, i);
            let ghost d = split_state(prev, '\n').0;
            assert(d.push(split_state(prev, '\n').1).drop_last() =~= d);
            i = i + 1;
            start = i;
            assert(v@.subrange(start as int, i as int) =~= Seq::<char>::empty());
        } else {
            i = i + 1;
            assert(v@.subrange(start as int, i as int) =~= v@.subrange(
                start as int,
                (i - 1) as int,
            ).push(v@[i - 1]));
        }
    }
    vm_stat_step(&mut c, &v, start, v.len());
    proof {
        assert(s.subrange(0, s.len() as int) =~= s);
        let d = split_state(s, '\n').0;
        assert(d.push(split_state(s, '\n').1).drop_last() =~= d);
    }
    c
}

/// The free memory in bytes: the free, inactive and speculative pages times the
/// page size (4096 when none was given), saturating at the largest `u64`. The page
/// counts must add up within a `u64`.
pub fn available_ram_bytes(c: &VmStatCounts) -> (r: u64)
    requires
        c.free_pages + c.inactive_pages + c.speculative_pages <= u64::MAX,
    ensures
        r == sat_mul(
            (c.free_pages + c.inactive_pages + c.speculative_pages) as u64,
            match c.page_size {
                Some(p) => p,
                None => 4096,
            },
        ),
{
    let page_size = match c.page_size {
        Some(p) => p,
        None => 4096,
    };
    let total_pages = c.free_pages + c.inactive_pages + c.speculative_pages;
    match total_pages.checked_mul(page_size) {
        Some(x) => x,
        None => u64::MAX,
    }
}

} // verus!
