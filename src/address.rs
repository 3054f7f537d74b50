//! Parsing of a hexadecimal memory address.
use crate::imageprocessing::ImageProcessingError;
use vstd::prelude::*;
use vstd::string::*;

verus! {

/// Value of a hexadecimal digit, upper or lower case.
pub open spec fn hex_digit(c: char) -> Option<nat> {
    if '0' <= c && c <= '9' {
        Some((c as nat - '0' as nat) as nat)
    } else if 'a' <= c && c <= 'f' {
        Some((c as nat - 'a' as nat + 10) as nat)
    } else if 'A' <= c && c <= 'F' {
        Some((c as nat - 'A' as nat + 10) as nat)
    } else {
        None
    }
}

pub open spec fn all_hex(s: Seq<char>) -> bool {
    forall|i: int| 0 <= i < s.len() ==> (#[trigger] hex_digit(s[i])) is Some
}

/// Value of a string of hexadecimal digits, most significant first.
pub open spec fn hex_value(s: Seq<char>) -> nat
    decreases s.len(),
{
    if s.len() == 0 {
        0
    } else {
        hex_value(s.drop_last()) * 16 + hex_digit(s.last())->0
    }
}

pub open spec fn has_hex_prefix(s: Seq<char>) -> bool {
    s.len() >= 2 && s[0] == '0' && (s[1] == 'x' || s[1] == 'X')
}

/// The digits of an address: the text without a leading `0x` or `0X`.
pub open spec fn address_digits(s: Seq<char>) -> Seq<char> {
    if has_hex_prefix(s) {
        s.subrange(2, s.len() as int)
    } else {
        s
    }
}

/// The address that `s` denotes, if it is one: at least one hexadecimal
/// digit after the optional prefix, nothing else, and a value that fits a `usize`.
pub open spec fn parsed_address(s: Seq<char>) -> Option<usize> {
    let d = address_digits(s);
    if d.len() > 0 && all_hex(d) && hex_value(d) <= usize::MAX {
        Some(hex_value(d) as usize)
    } else {
        None
    }
}

proof fn lemma_hex_value_grows(s: Seq<char>, k: int)
    requires
        0 <= k <= s.len(),
    ensures
        hex_value(s.subrange(0, k)) <= hex_value(s),
    decreases s.len() - k,
{
    if k < s.len() {
        lemma_hex_value_grows(s, k + 1);
        assert(s.subrange(0, k + 1).drop_last() =~= s.subrange(0, k));
    } else {
        assert(s.subrange(0, k) =~= s);
    }
}

fn digit_value(c: char) -> (r: Option<u8>)
    ensures
        r matches Some(v) ==> hex_digit(c) == Some(v as nat) && v < 16,
        r is None ==> hex_digit(c) is None,
{
    if '0' <= c && c <= '9' {
        Some((c as u32 - '0' as u32) as u8)
    } else if 'a' <= c && c <= 'f' {
        Some((c as u32 - 'a' as u32 + 10) as u8)
    } else if 'A' <= c && c <= 'F' {
        Some((c as u32 - 'A' as u32 + 10) as u8)
    } else {
        None
    }
}

/// Decodes a hexadecimal address, with or without a `0x` / `0X` prefix.
pub fn parse_address(address: &str) -> (r: Result<usize, ImageProcessingError>)
    ensures
        r is Ok <==> parsed_address(address@) is Some,
        r matches Ok(v) ==> parsed_address(address@) == Some(v),
        r matches Err(e) ==> e is MalformedAddress,
{
    let len = address.unicode_len();
    let start: usize = if len >= 2 && address.get_char(0) == '0' && (address.get_char(1) == 'x'
        || address.get_char(1) == 'X') {
        2
    } else {
        0
    };
    let ghost d = address_digits(address@);
    assert(d =~= address@.subrange(start as int, len as int));
    if start == len {
        return Err(ImageProcessingError::MalformedAddress);
    }
    let mut value: usize = 0;
    let mut i: usize = start;
    while i < len
        invariant
            start <= i <= len,
            len == address@.len(),
            d == address@.subrange(start as int, len as int),
            d == address_digits(address@),
            all_hex(d.subrange(0, i - start)),
            value as nat == hex_value(d.subrange(0, i - start)),
        decreases len - i,
    {
        let c = address.get_char(i);
        let ghost prefix = d.subrange(0, i + 1 - start);
        assert(prefix.drop_last() =~= d.subrange(0, i - start));
        assert(prefix.last() == c);
        match digit_value(c) {
            None => {
                assert(hex_digit(d[i - start]) is None);
                return Err(ImageProcessingError::MalformedAddress);
            },
            Some(v) => {
                if value > (usize::MAX - v as usize) / 16 {
                    proof {
                        assert(hex_value(prefix) > usize::MAX) by (nonlinear_arith)
                            requires
                                hex_value(prefix) == value * 16 + v,
                                value > (usize::MAX - v) / 16,
                                v < 16,
                        ;
                        lemma_hex_value_grows(d, i + 1 - start);
                    }
                    return Err(ImageProcessingError::MalformedAddress);
                }
                proof {
                    assert(value * 16 + v <= usize::MAX) by (nonlinear_arith)
                        requires
                            value <= (usize::MAX - v) / 16,
                            v < 16,
                    ;
                }
                value = value * 16 + v as usize;
                assert(all_hex(prefix));
            },
        }
        i = i + 1;
    }
    assert(d.subrange(0, len - start) =~= d);
    Ok(value)
}

} // verus!
