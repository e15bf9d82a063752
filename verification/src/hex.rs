//! Verified parsing of chain-typed string values: 160-bit addresses from
//! 40 hexadecimal digits and 256-bit unsigned integers from up to 64
//! hexadecimal digits, each with an optional `0x` prefix.

use vstd::prelude::*;
use vstd::arithmetic::div_mod::lemma_fundamental_div_mod;
use vstd::string::StrSliceExecFns;
use vstd::string::StringExecFns;

use crate::token::Address;
use crate::token::Uint256;

verus! {

/// Whether a character is a hexadecimal digit.
pub open spec fn is_hex_digit(c: char) -> bool {
    let u = c as u32;
    (48 <= u && u <= 57) || (97 <= u && u <= 102) || (65 <= u && u <= 70)
}

/// The value of a hexadecimal digit (zero on other characters).
pub open spec fn hex_digit_value(c: char) -> int {
    let u = c as u32;
    if 48 <= u && u <= 57 {
        u - 48
    } else if 97 <= u && u <= 102 {
        u - 87
    } else if 65 <= u && u <= 70 {
        u - 55
    } else {
        0
    }
}

/// Whether every character of the sequence is a hexadecimal digit.
pub open spec fn all_hex(s: Seq<char>) -> bool {
    forall|i: int| 0 <= i < s.len() ==> is_hex_digit(s[i])
}

/// The sequence with a leading `0x` removed, if one is there.
pub open spec fn spec_strip_0x(s: Seq<char>) -> Seq<char> {
    if s.len() >= 2 && s[0] == '0' && s[1] == 'x' {
        s.subrange(2, s.len() as int)
    } else {
        s
    }
}

/// The bytes denoted by an even-length sequence of hexadecimal digits,
/// two digits to a byte, most significant first.
pub open spec fn hex_bytes(s: Seq<char>) -> Seq<u8> {
    Seq::new(
        s.len() / 2,
        |i: int| (hex_digit_value(s[2 * i]) * 16 + hex_digit_value(s[2 * i + 1])) as u8,
    )
}

/// The digit sequence left-padded with `'0'` to 64 digits.
pub open spec fn spec_pad64(t: Seq<char>) -> Seq<char> {
    Seq::new((64 - t.len()) as nat, |i: int| '0') + t
}

/// What an address string denotes: its 20 bytes if, after an optional `0x`
/// prefix, it holds exactly 40 hexadecimal digits; nothing otherwise.
pub open spec fn spec_parse_address(s: Seq<char>) -> Option<Seq<u8>> {
    let t = spec_strip_0x(s);
    if t.len() == 40 && all_hex(t) {
        Some(hex_bytes(t))
    } else {
        None
    }
}

/// What a uint256 string denotes: its 32 bytes if, after an optional `0x`
/// prefix, it holds between 1 and 64 hexadecimal digits; nothing otherwise.
pub open spec fn spec_parse_uint256(s: Seq<char>) -> Option<Seq<u8>> {
    let t = spec_strip_0x(s);
    if 1 <= t.len() <= 64 && all_hex(t) {
        Some(hex_bytes(spec_pad64(t)))
    } else {
        None
    }
}

/// The value of one hexadecimal digit character, or nothing.
pub fn hex_val(c: char) -> (r: Option<u8>)
    ensures
        r matches Some(v) ==> is_hex_digit(c) && v == hex_digit_value(c) && v < 16,
        r is None ==> !is_hex_digit(c),
{
    let u = c as u32;
    if 48 <= u && u <= 57 {
        Some((u - 48) as u8)
    } else if 97 <= u && u <= 102 {
        Some((u - 87) as u8)
    } else if 65 <= u && u <= 70 {
        Some((u - 55) as u8)
    } else {
        None
    }
}

/// The length of the string and the position where its digits start:
/// two characters in when the string opens with `0x`, else zero.
fn strip_offset(s: &str) -> (r: (usize, usize))
    ensures
        r.0 == s@.len(),
        r.1 <= 2,
        r.1 <= r.0,
        spec_strip_0x(s@) == s@.subrange(r.1 as int, r.0 as int),
{
    let n = s.unicode_len();
    let off: usize = if n >= 2 && s.get_char(0) == '0' && s.get_char(1) == 'x' {
        2
    } else {
        0
    };
    proof {
        assert(spec_strip_0x(s@) =~= s@.subrange(off as int, n as int));
    }
    (n, off)
}

/// Parses a 160-bit address from 40 hexadecimal digits, optionally
/// `0x`-prefixed. Returns the address exactly when `spec_parse_address`
/// gives its bytes.
pub fn parse_address(s: &str) -> (r: Option<Address>)
    ensures
        r matches Some(a) ==> a.wf() && spec_parse_address(s@) == Some(a.bytes@),
        r is None ==> spec_parse_address(s@) is None,
{
    let (n, off) = strip_offset(s);
    let ghost t = spec_strip_0x(s@);
    if n - off != 40 {
        return None;
    }
    let mut bytes: Vec<u8> = Vec::new();
    let mut i: usize = 0;
    while i < 20
        invariant
            i <= 20,
            n == s@.len(),
            off <= 2,
            off + 40 == n,
            t == spec_strip_0x(s@),
            t == s@.subrange(off as int, n as int),
            bytes@.len() == i,
            forall|j: int| 0 <= j < 2 * i ==> is_hex_digit(t[j]),
            forall|j: int|
                0 <= j < i ==> bytes@[j] == (hex_digit_value(t[2 * j]) * 16 + hex_digit_value(
                    t[2 * j + 1],
                )) as u8,
        decreases 20 - i,
    {
        let c1 = s.get_char(off + 2 * i);
        let c2 = s.get_char(off + 2 * i + 1);
        proof {
            assert(c1 == t[2 * (i as int)]);
            assert(c2 == t[2 * (i as int) + 1]);
        }
        let v1 = match hex_val(c1) {
            Some(v) => v,
            None => {
                return None;
            },
        };
        let v2 = match hex_val(c2) {
            Some(v) => v,
            None => {
                return None;
            },
        };
        bytes.push(v1 * 16 + v2);
        i = i + 1;
    }
    proof {
        assert(bytes@ =~= hex_bytes(t));
    }
    Some(Address { bytes })
}

/// Parses a 256-bit unsigned integer from 1 to 64 hexadecimal digits,
/// optionally `0x`-prefixed, into its 32 big-endian bytes. Returns the
/// integer exactly when `spec_parse_uint256` gives its bytes.
pub fn parse_uint256(s: &str) -> (r: Option<Uint256>)
    ensures
        r matches Some(u) ==> u.wf() && spec_parse_uint256(s@) == Some(u.bytes@),
        r is None ==> spec_parse_uint256(s@) is None,
{
    let (n, off) = strip_offset(s);
    let ghost t = spec_strip_0x(s@);
    let len = n - off;
    if len < 1 || len > 64 {
        return None;
    }
    let mut vals: Vec<u8> = Vec::new();
    let mut i: usize = 0;
    while i < len
        invariant
            i <= len,
            n == s@.len(),
            off <= 2,
            off + len == n,
            1 <= len <= 64,
            t == spec_strip_0x(s@),
            t == s@.subrange(off as int, n as int),
            vals@.len() == i,
            forall|j: int| 0 <= j < i ==> is_hex_digit(t[j]),
            forall|j: int| 0 <= j < i ==> vals@[j] == hex_digit_value(t[j]) && vals@[j] < 16,
        decreases len - i,
    {
        let c = s.get_char(off + i);
        proof {
            assert(c == t[i as int]);
        }
        match hex_val(c) {
            Some(v) => vals.push(v),
            None => {
                return None;
            },
        }
        i = i + 1;
    }
    let ghost padded = spec_pad64(t);
    let pad: usize = 64 - len;
    let mut bytes: Vec<u8> = Vec::new();
    let mut k: usize = 0;
    while k < 32
        invariant
            k <= 32,
            1 <= len <= 64,
            pad + len == 64,
            vals@.len() == len,
            forall|j: int| 0 <= j < len ==> vals@[j] == hex_digit_value(t[j]) && vals@[j] < 16,
            t.len() == len,
            all_hex(t),
            padded == spec_pad64(t),
            bytes@.len() == k,
            forall|j: int|
                0 <= j < k ==> bytes@[j] == (hex_digit_value(padded[2 * j]) * 16
                    + hex_digit_value(padded[2 * j + 1])) as u8,
        decreases 32 - k,
    {
        let hi: u8 = if 2 * k >= pad {
            vals[2 * k - pad]
        } else {
            0
        };
        let lo: u8 = if 2 * k + 1 >= pad {
            vals[2 * k + 1 - pad]
        } else {
            0
        };
        proof {
            assert(padded.len() == 64);
            assert(hex_digit_value('0') == 0);
            if 2 * k >= pad {
                assert(padded[2 * (k as int)] == t[2 * (k as int) - pad]);
            } else {
                assert(padded[2 * (k as int)] == '0');
            }
            if 2 * k + 1 >= pad {
                assert(padded[2 * (k as int) + 1] == t[2 * (k as int) + 1 - pad]);
            } else {
                assert(padded[2 * (k as int) + 1] == '0');
            }
        }
        bytes.push(hi * 16 + lo);
        k = k + 1;
    }
    proof {
        assert(bytes@ =~= hex_bytes(padded));
    }
    Some(Uint256 { bytes })
}

/// The lowercase digit character of a nibble value.
pub open spec fn nibble_char(d: int) -> char {
    if d == 0 {
        '0'
    } else if d == 1 {
        '1'
    } else if d == 2 {
        '2'
    } else if d == 3 {
        '3'
    } else if d == 4 {
        '4'
    } else if d == 5 {
        '5'
    } else if d == 6 {
        '6'
    } else if d == 7 {
        '7'
    } else if d == 8 {
        '8'
    } else if d == 9 {
        '9'
    } else if d == 10 {
        'a'
    } else if d == 11 {
        'b'
    } else if d == 12 {
        'c'
    } else if d == 13 {
        'd'
    } else if d == 14 {
        'e'
    } else {
        'f'
    }
}

/// The lowercase hexadecimal digits of a byte sequence, two to a byte,
/// most significant first.
pub open spec fn hex_of_bytes(b: Seq<u8>) -> Seq<char> {
    Seq::new(
        2 * b.len(),
        |i: int|
            if i % 2 == 0 {
                nibble_char((b[i / 2] / 16) as int)
            } else {
                nibble_char((b[i / 2] % 16) as int)
            },
    )
}

/// The one-character string of a nibble value.
pub(crate) fn nibble_str(d: u8) -> (r: &'static str)
    requires
        d < 16,
    ensures
        r@ == seq![nibble_char(d as int)],
{
    let r: &'static str = if d == 0 {
        "0"
    } else if d == 1 {
        "1"
    } else if d == 2 {
        "2"
    } else if d == 3 {
        "3"
    } else if d == 4 {
        "4"
    } else if d == 5 {
        "5"
    } else if d == 6 {
        "6"
    } else if d == 7 {
        "7"
    } else if d == 8 {
        "8"
    } else if d == 9 {
        "9"
    } else if d == 10 {
        "a"
    } else if d == 11 {
        "b"
    } else if d == 12 {
        "c"
    } else if d == 13 {
        "d"
    } else if d == 14 {
        "e"
    } else {
        "f"
    };
    proof {
        reveal_strlit("0");
        reveal_strlit("1");
        reveal_strlit("2");
        reveal_strlit("3");
        reveal_strlit("4");
        reveal_strlit("5");
        reveal_strlit("6");
        reveal_strlit("7");
        reveal_strlit("8");
        reveal_strlit("9");
        reveal_strlit("a");
        reveal_strlit("b");
        reveal_strlit("c");
        reveal_strlit("d");
        reveal_strlit("e");
        reveal_strlit("f");
        assert(r@ =~= seq![nibble_char(d as int)]);
    }
    r
}

/// The lowercase hexadecimal rendering of a byte vector.
fn bytes_to_hex(bytes: &Vec<u8>) -> (r: String)
    ensures
        r@ == hex_of_bytes(bytes@),
{
    let mut m = String::new();
    let mut i: usize = 0;
    let n = bytes.len();
    while i < n
        invariant
            i <= n,
            n == bytes@.len(),
            m@.len() == 2 * i,
            forall|j: int|
                0 <= j < i ==> m@[2 * j] == nibble_char((bytes@[j] / 16) as int) && m@[2 * j + 1]
                    == nibble_char((bytes@[j] % 16) as int),
        decreases n - i,
    {
        let b = bytes[i];
        m.append(nibble_str(b / 16));
        m.append(nibble_str(b % 16));
        i = i + 1;
    }
    proof {
        assert forall|idx: int| 0 <= idx < 2 * n implies m@[idx] == hex_of_bytes(bytes@)[idx] by {
            if idx % 2 == 0 {
                let j = idx / 2;
                assert(m@[2 * j] == nibble_char((bytes@[j] / 16) as int));
            } else {
                let j = (idx - 1) / 2;
                assert(m@[2 * j + 1] == nibble_char((bytes@[j] % 16) as int));
            }
        }
        assert(m@ =~= hex_of_bytes(bytes@));
    }
    m
}

impl Address {
    /// The 40 lowercase hexadecimal digits of the address.
    pub fn to_hex(&self) -> (r: String)
        ensures
            r@ == hex_of_bytes(self.bytes@),
    {
        bytes_to_hex(&self.bytes)
    }
}

impl Uint256 {
    /// The 64 lowercase hexadecimal digits of the integer.
    pub fn to_hex(&self) -> (r: String)
        ensures
            r@ == hex_of_bytes(self.bytes@),
    {
        bytes_to_hex(&self.bytes)
    }
}

/// A digit character carries the nibble value it was printed from.
pub proof fn lemma_nibble_char_value(d: int)
    requires
        0 <= d < 16,
    ensures
        is_hex_digit(nibble_char(d)),
        hex_digit_value(nibble_char(d)) == d,
{
}

/// Law: rendering bytes as hexadecimal digits and reading the digits back
/// yields the same bytes.
pub proof fn lemma_hex_bytes_roundtrip(b: Seq<u8>)
    ensures
        hex_of_bytes(b).len() == 2 * b.len(),
        all_hex(hex_of_bytes(b)),
        hex_bytes(hex_of_bytes(b)) == b,
{
    let h = hex_of_bytes(b);
    assert forall|i: int| 0 <= i < h.len() implies is_hex_digit(h[i]) by {
        if i % 2 == 0 {
            lemma_nibble_char_value((b[i / 2] / 16) as int);
        } else {
            lemma_nibble_char_value((b[i / 2] % 16) as int);
        }
    }
    assert forall|i: int| 0 <= i < b.len() implies hex_bytes(h)[i] == b[i] by {
        lemma_nibble_char_value((b[i] / 16) as int);
        lemma_nibble_char_value((b[i] % 16) as int);
        assert(h[2 * i] == nibble_char((b[i] / 16) as int));
        assert(h[2 * i + 1] == nibble_char((b[i] % 16) as int));
        lemma_fundamental_div_mod(b[i] as int, 16);
    }
    assert(hex_bytes(h) =~= b);
}

/// Law: the hexadecimal rendering of a 20-byte address parses back to the
/// same address bytes.
pub proof fn lemma_parse_address_roundtrip(b: Seq<u8>)
    requires
        b.len() == 20,
    ensures
        spec_parse_address(hex_of_bytes(b)) == Some(b),
{
    let h = hex_of_bytes(b);
    lemma_hex_bytes_roundtrip(b);
    assert(is_hex_digit(h[1]));
    assert(h[1] != 'x');
    assert(spec_strip_0x(h) == h);
}

/// Law: the hexadecimal rendering of a 32-byte integer parses back to the
/// same bytes.
pub proof fn lemma_parse_uint256_roundtrip(b: Seq<u8>)
    requires
        b.len() == 32,
    ensures
        spec_parse_uint256(hex_of_bytes(b)) == Some(b),
{
    let h = hex_of_bytes(b);
    lemma_hex_bytes_roundtrip(b);
    assert(is_hex_digit(h[1]));
    assert(h[1] != 'x');
    assert(spec_strip_0x(h) == h);
    assert(spec_pad64(h) =~= h);
}

/// Law: an address string parses exactly when, after an optional `0x`
/// prefix, it holds exactly 40 hexadecimal digits.
pub proof fn lemma_parse_address_succeeds(s: Seq<char>)
    ensures
        spec_parse_address(s) is Some <==> (spec_strip_0x(s).len() == 40 && all_hex(
            spec_strip_0x(s),
        )),
{
}

} // verus!
