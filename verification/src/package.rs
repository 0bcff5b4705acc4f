//! Decoding of a lockfile package checksum into ornament placement data:
//! a CSS colour plus two pixel coordinates, read from the leading hex digits.

use vstd::prelude::*;
use vstd::string::*;

verus! {

/// One `[[package]]` entry of a lockfile, reduced to the only field the
/// colour calculation reads.
pub struct Package {
    pub checksum: String,
}

/// An ASCII hexadecimal digit: `0-9`, `a-f` or `A-F`.
pub open spec fn is_hex_char(c: char) -> bool {
    ||| '0' as u32 <= c as u32 && c as u32 <= '9' as u32
    ||| 'a' as u32 <= c as u32 && c as u32 <= 'f' as u32
    ||| 'A' as u32 <= c as u32 && c as u32 <= 'F' as u32
}

/// The numeric value of one hexadecimal digit.
pub open spec fn hex_char_val(c: char) -> u8
    recommends
        is_hex_char(c),
{
    if '0' as u32 <= c as u32 && c as u32 <= '9' as u32 {
        (c as u32 - '0' as u32) as u8
    } else if 'a' as u32 <= c as u32 && c as u32 <= 'f' as u32 {
        (c as u32 - 'a' as u32 + 10) as u8
    } else {
        (c as u32 - 'A' as u32 + 10) as u8
    }
}

/// The byte written as the two hexadecimal digits `hi` `lo`.
pub open spec fn hex_byte(hi: char, lo: char) -> u8
    recommends
        is_hex_char(hi),
        is_hex_char(lo),
{
    (hex_char_val(hi) * 16 + hex_char_val(lo)) as u8
}

/// A checksum decodes successfully exactly when it has at least ten
/// characters and every character is a hexadecimal digit.
pub open spec fn checksum_decodes(s: Seq<char>) -> bool {
    s.len() >= 10 && (forall|i: int| 0 <= i < s.len() ==> is_hex_char(s[i]))
}

fn hex_val(c: char) -> (v: u8)
    requires
        is_hex_char(c),
    ensures
        v == hex_char_val(c),
{
    let u = c as u32;
    if u >= '0' as u32 && u <= '9' as u32 {
        (u - '0' as u32) as u8
    } else if u >= 'a' as u32 && u <= 'f' as u32 {
        (u - 'a' as u32 + 10) as u8
    } else {
        (u - 'A' as u32 + 10) as u8
    }
}

fn is_hex(c: char) -> (b: bool)
    ensures
        b == is_hex_char(c),
{
    let u = c as u32;
    (u >= '0' as u32 && u <= '9' as u32) || (u >= 'a' as u32 && u <= 'f' as u32) || (u >= 'A'
        as u32 && u <= 'F' as u32)
}

impl Package {
    /// Decodes the checksum: the first six hex digits become a `#`-prefixed
    /// colour, the next two pairs become the top and left pixel offsets.
    /// Yields nothing when the checksum is shorter than ten characters or
    /// holds a non-hexadecimal character.
    pub fn cal(&self) -> (r: Option<(String, u8, u8)>)
        ensures
            r is Some <==> checksum_decodes(self.checksum@),
            r matches Some((color, top, left)) ==> {
                &&& color@ == seq!['#'] + self.checksum@.subrange(0, 6)
                &&& top == hex_byte(self.checksum@[6], self.checksum@[7])
                &&& left == hex_byte(self.checksum@[8], self.checksum@[9])
            },
    {
        let s: &str = self.checksum.as_str();
        let n = s.unicode_len();
        if n < 10 {
            return None;
        }
        let mut i: usize = 0;
        while i < n
            invariant
                0 <= i <= n,
                n == s@.len(),
                s@ == self.checksum@,
                n >= 10,
                forall|j: int| 0 <= j < i ==> is_hex_char(s@[j]),
            decreases n - i,
        {
            if !is_hex(s.get_char(i)) {
                proof {
                    assert(!is_hex_char(self.checksum@[i as int]));
                }
                return None;
            }
            i += 1;
        }
        let mut color = String::new();
        color.append("#");
        color.append(s.substring_char(0, 6));
        let top = hex_val(s.get_char(6)) * 16 + hex_val(s.get_char(7));
        let left = hex_val(s.get_char(8)) * 16 + hex_val(s.get_char(9));
        proof {
            reveal_strlit("#");
            assert(color@ =~= seq!['#'] + self.checksum@.subrange(0, 6));
        }
        Some((color, top, left))
    }
}

} // verus!
