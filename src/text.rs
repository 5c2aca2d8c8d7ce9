//! String functions that templates can call.

use vstd::prelude::*;
use vstd::string::*;
use vstd::utf8::*;

verus! {

broadcast use {
    vstd::utf8::group_utf8_lib,
    vstd::string::group_string_axioms,
};

/// Whether `a` and `b` hold the same text.
pub fn same_text(a: &str, b: &str) -> (r: bool)
    ensures
        r == (a@ == b@),
{
    let x = a.as_bytes();
    let y = b.as_bytes();
    proof {
        encode_utf8_decode_utf8(a@);
        encode_utf8_decode_utf8(b@);
    }
    if x.len() != y.len() {
        return false;
    }
    let mut i: usize = 0;
    while i < x.len()
        invariant
            x@ == a.spec_bytes(),
            y@ == b.spec_bytes(),
            x@.len() == y@.len(),
            0 <= i <= x@.len(),
            forall|j: int| 0 <= j < i ==> x@[j] == y@[j],
        decreases x@.len() - i,
    {
        if x[i] != y[i] {
            return false;
        }
        i += 1;
    }
    assert(x@ =~= y@);
    true
}

/// Whether every character of `s` is an ASCII decimal digit.
pub open spec fn all_digits(s: Seq<char>) -> bool {
    forall|i: int| 0 <= i < s.len() ==> '0' <= #[trigger] s[i] <= '9'
}

/// The number that the decimal digits `s` spell.
pub open spec fn digits_value(s: Seq<char>) -> nat
    decreases s.len(),
{
    if s.len() == 0 {
        0
    } else {
        digits_value(s.drop_last()) * 10 + ((s.last() as u32) - ('0' as u32)) as nat
    }
}

/// The `usize` that `s` denotes in decimal: an optional `+`, then at least one
/// digit and nothing else, with a value that fits.
pub open spec fn usize_of(s: Seq<char>) -> Option<usize> {
    let digits = if s.len() > 0 && s[0] == '+' {
        s.drop_first()
    } else {
        s
    };
    if digits.len() > 0 && all_digits(digits) && digits_value(digits) <= usize::MAX {
        Some(digits_value(digits) as usize)
    } else {
        None
    }
}

/// Relies on `str::parse::<usize>`: it accepts an optional `+` followed by
/// decimal digits only, and fails on anything else or on overflow.
#[verifier::external_body]
fn parse_usize(s: &str) -> (r: Option<usize>)
    ensures
        r == usize_of(s@),
{
    s.parse::<usize>().ok()
}

/// The byte range `[start, end)` that `substring` cuts out of a string of
/// `len` bytes, given its extra arguments. No arguments, or more than two,
/// select the whole string; an argument that is no number falls back to the
/// start or the end of the string.
pub open spec fn slice_bounds(args: Seq<Seq<char>>, len: int) -> (int, int) {
    if args.len() == 0 || args.len() > 2 {
        (0, len)
    } else {
        let start = match usize_of(args[0]) {
            Some(n) => n as int,
            None => 0,
        };
        let end = if args.len() == 2 {
            match usize_of(args[1]) {
                Some(n) => n as int,
                None => len,
            }
        } else {
            len
        };
        (start, end)
    }
}

/// The views of a sequence of strings.
pub open spec fn strings_view(v: Seq<String>) -> Seq<Seq<char>> {
    v.map_values(|s: String| s@)
}

/// Whether `[start, end)` is a range of whole characters of the UTF-8 text `bytes`.
pub open spec fn whole_char_range(bytes: Seq<u8>, start: int, end: int) -> bool {
    &&& 0 <= start <= end <= bytes.len()
    &&& is_char_boundary(bytes, start)
    &&& is_char_boundary(bytes, end)
}

/// The bytes that `substring` cuts out of the UTF-8 text `bytes` given its
/// extra arguments `args`, or `None` when the range is not one of whole characters.
pub open spec fn substring_bytes(bytes: Seq<u8>, args: Seq<Seq<char>>) -> Option<Seq<u8>> {
    let (start, end) = slice_bounds(args, bytes.len() as int);
    if whole_char_range(bytes, start, end) {
        Some(bytes.subrange(start, end))
    } else {
        None
    }
}

/// With no extra arguments, or more than two, `substring` gives back the
/// whole of any UTF-8 text.
pub proof fn lemma_substring_whole(bytes: Seq<u8>, args: Seq<Seq<char>>)
    requires
        valid_utf8(bytes),
        args.len() == 0 || args.len() > 2,
    ensures
        substring_bytes(bytes, args) == Some(bytes),
{
    is_char_boundary_start_end_of_seq(bytes);
    assert(bytes.subrange(0, bytes.len() as int) =~= bytes);
}

/// With two numeric arguments `start <= end <= len` on character boundaries,
/// `substring` gives the bytes `[start, end)`; with one, the bytes from
/// `start` to the end.
pub proof fn lemma_substring_range(bytes: Seq<u8>, args: Seq<Seq<char>>, start: usize, end: usize)
    requires
        valid_utf8(bytes),
        args.len() == 1 || args.len() == 2,
        usize_of(args[0]) == Some(start),
        args.len() == 2 ==> usize_of(args[1]) == Some(end),
        args.len() == 1 ==> end == bytes.len(),
        start <= end <= bytes.len(),
        is_char_boundary(bytes, start as int),
        is_char_boundary(bytes, end as int),
    ensures
        substring_bytes(bytes, args) == Some(bytes.subrange(start as int, end as int)),
{
}

/// Why `substring` could not cut its range.
#[derive(Debug, Clone, Copy, PartialEq, Eq, Structural)]
pub enum SubstringError {
    /// The range is reversed, runs past the end, or splits a character.
    InvalidRange,
}

/// Cuts the byte range that `args` select (see `slice_bounds`) out of `input`.
pub fn substring(input: &str, args: &Vec<String>) -> (r: Result<String, SubstringError>)
    ensures
        match r {
            Ok(t) => substring_bytes(input.spec_bytes(), strings_view(args@)) == Some(encode_utf8(t@)),
            Err(_) => substring_bytes(input.spec_bytes(), strings_view(args@)) is None,
        },
{
    let len = input.as_bytes().len();
    let ghost bytes = input.spec_bytes();
    let n = args.len();
    let mut start: usize = 0;
    let mut end: usize = len;
    proof {
        if n > 0 {
            assert(strings_view(args@)[0] == args@[0]@);
        }
        if n > 1 {
            assert(strings_view(args@)[1] == args@[1]@);
        }
    }
    if n == 1 || n == 2 {
        if let Some(s) = parse_usize(args[0].as_str()) {
            start = s;
        }
        if n == 2 {
            if let Some(e) = parse_usize(args[1].as_str()) {
                end = e;
            }
        }
    }
    assert((start as int, end as int) == slice_bounds(strings_view(args@), bytes.len() as int));
    if start > end || end > len {
        return Err(SubstringError::InvalidRange);
    }
    if !input.is_char_boundary(start) || !input.is_char_boundary(end) {
        return Err(SubstringError::InvalidRange);
    }
    let (head, _) = input.split_at(end);
    proof {
        let h = head.spec_bytes();
        encode_utf8_valid_utf8(head@);
        encode_utf8_valid_utf8(input@);
        if start < end {
            assert(h[start as int] == bytes[start as int]);
            is_char_boundary_iff_not_is_continuation_byte(h, start as int);
            is_char_boundary_iff_not_is_continuation_byte(bytes, start as int);
        }
    }
    let (_, middle) = head.split_at(start);
    Ok(middle.to_owned())
}

} // verus!
