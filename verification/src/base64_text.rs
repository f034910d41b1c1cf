//! The base64 text of bytes (RFC 4648), in the standard and the URL-safe
//! alphabet, with or without padding.
use vstd::prelude::*;

verus! {

/// The character that stands for the six-bit value `v`: `A` to `Z`, `a` to
/// `z`, `0` to `9`, then `+` and `/` in the standard alphabet or `-` and
/// `_` in the URL-safe one.
pub open spec fn base64_char(v: int, url_safe: bool) -> char {
    if v < 26 {
        (65 + v) as char
    } else if v < 52 {
        (71 + v) as char
    } else if v < 62 {
        (v - 4) as char
    } else if v == 62 {
        if url_safe {
            '-'
        } else {
            '+'
        }
    } else if url_safe {
        '_'
    } else {
        '/'
    }
}

/// The base64 text of `data`: each group of three bytes gives the four
/// characters of its four six-bit parts, high bits first; a last group of
/// one or two bytes, filled up with zero bits, gives two or three
/// characters, followed where padded by `=` up to four.
pub open spec fn base64_text(data: Seq<u8>, url_safe: bool, padded: bool) -> Seq<char>
    decreases data.len(),
{
    if data.len() == 0 {
        Seq::empty()
    } else {
        let b0 = data[0] as int;
        let b1 = if data.len() > 1 {
            data[1] as int
        } else {
            0
        };
        let b2 = if data.len() > 2 {
            data[2] as int
        } else {
            0
        };
        let c0 = base64_char(b0 / 4, url_safe);
        let c1 = base64_char((b0 % 4) * 16 + b1 / 16, url_safe);
        let c2 = base64_char((b1 % 16) * 4 + b2 / 64, url_safe);
        let c3 = base64_char(b2 % 64, url_safe);
        if data.len() >= 3 {
            seq![c0, c1, c2, c3] + base64_text(data.skip(3), url_safe, padded)
        } else if data.len() == 2 {
            seq![c0, c1, c2] + if padded {
                seq!['=']
            } else {
                Seq::empty()
            }
        } else {
            seq![c0, c1] + if padded {
                seq!['=', '=']
            } else {
                Seq::empty()
            }
        }
    }
}

} // verus!
