//! Building argument lists: optional flags with a value.
use vstd::prelude::*;

use crate::llm_backend::strs_view;
use crate::text::{decimal, u64_to_string};

verus! {

/// `[flag, n]` when a number is set, nothing otherwise.
pub open spec fn opt_num_flag(flag: Seq<char>, v: Option<u32>) -> Seq<Seq<char>> {
    match v {
        Some(n) => seq![flag, decimal(n as nat)],
        None => Seq::empty(),
    }
}

/// `[flag, text]` when a text is set, nothing otherwise.
pub open spec fn opt_text_flag(flag: Seq<char>, v: Option<Seq<char>>) -> Seq<Seq<char>> {
    match v {
        Some(t) => seq![flag, t],
        None => Seq::empty(),
    }
}

/// Appends one string.
pub fn push_str(args: &mut Vec<String>, s: &str)
    ensures
        strs_view(final(args)@) == strs_view(old(args)@).push(s@),
{
    let ghost before = args@;
    args.push(String::from_str(s));
    assert(strs_view(args@) =~= strs_view(before).push(s@));
}

/// Appends `flag` and the number when it is set.
pub fn push_num_flag(args: &mut Vec<String>, flag: &str, v: Option<u32>)
    ensures
        strs_view(final(args)@) == strs_view(old(args)@) + opt_num_flag(flag@, v),
{
    let ghost before = args@;
    if let Some(n) = v {
        args.push(String::from_str(flag));
        args.push(u64_to_string(n as u64));
        assert(strs_view(args@) =~= strs_view(before) + opt_num_flag(flag@, v));
    } else {
        assert(strs_view(args@) =~= strs_view(before) + opt_num_flag(flag@, v));
    }
}

/// Appends `flag` and the text when it is set.
pub fn push_text_flag(args: &mut Vec<String>, flag: &str, v: &Option<String>)
    ensures
        strs_view(final(args)@) == strs_view(old(args)@) + opt_text_flag(
            flag@,
            crate::llm_backend::opt_str_view(*v),
        ),
{
    let ghost before = args@;
    if let Some(t) = v {
        args.push(String::from_str(flag));
        args.push(t.clone());
    }
    assert(strs_view(args@) =~= strs_view(before) + opt_text_flag(
        flag@,
        crate::llm_backend::opt_str_view(*v),
    ));
}

} // verus!
