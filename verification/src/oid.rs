use vstd::prelude::*;

verus! {

/// A document identifier: the engine's own plain model of the store's opaque
/// object ids. An id is a 96-bit value, written as 24 hexadecimal digits.
#[derive(Clone, Copy, PartialEq, Eq, Structural, Hash, Debug)]
pub struct Oid {
    pub code: u128,
}

/// The number of hexadecimal digits in the textual form of an id.
pub open spec fn oid_hex_len() -> nat {
    24
}

pub open spec fn is_hex_char(c: char) -> bool {
    ||| '0' <= c && c <= '9'
    ||| 'a' <= c && c <= 'f'
    ||| 'A' <= c && c <= 'F'
}

pub open spec fn hex_char_value(c: char) -> int {
    if '0' <= c && c <= '9' {
        c as int - '0' as int
    } else if 'a' <= c && c <= 'f' {
        c as int - 'a' as int + 10
    } else {
        c as int - 'A' as int + 10
    }
}

/// A valid textual id: exactly 24 hexadecimal digits.
pub open spec fn oid_chars_valid(s: Seq<char>) -> bool {
    s.len() == oid_hex_len() && (forall|i: int| 0 <= i < s.len() ==> is_hex_char(#[trigger] s[i]))
}

/// The numeric value of the first `n` digits of `s`, most significant first.
pub open spec fn hex_value_upto(s: Seq<char>, n: nat) -> int
    decreases n,
{
    if n == 0 {
        0
    } else {
        hex_value_upto(s, (n - 1) as nat) * 16 + hex_char_value(s[n - 1])
    }
}

/// Sixteen to the power `n`.
pub open spec fn pow16(n: nat) -> int
    decreases n,
{
    if n == 0 {
        1
    } else {
        16 * pow16((n - 1) as nat)
    }
}

proof fn lemma_pow16_pos(n: nat)
    ensures
        pow16(n) >= 1,
    decreases n,
{
    if n > 0 {
        lemma_pow16_pos((n - 1) as nat);
    }
}

proof fn lemma_pow16_le(a: nat, b: nat)
    requires
        a <= b,
    ensures
        pow16(a) <= pow16(b),
    decreases b,
{
    if a < b {
        lemma_pow16_le(a, (b - 1) as nat);
        lemma_pow16_pos((b - 1) as nat);
    }
}

/// The two powers the 24-digit codec turns on, written out.
pub proof fn lemma_pow16_concrete()
    ensures
        pow16(23) == 0x100000000000000000000000,
        pow16(24) == 0x1000000000000000000000000,
{
    reveal_with_fuel(pow16, 25);
}

/// The id a valid 24-digit hexadecimal string denotes, or nothing.
pub open spec fn parse_oid(s: Seq<char>) -> Option<Oid> {
    if oid_chars_valid(s) {
        Some(Oid { code: hex_value_upto(s, s.len()) as u128 })
    } else {
        None
    }
}

/// The lowercase hexadecimal digit for a value below sixteen.
pub open spec fn hex_char_of(d: int) -> char {
    if d < 10 {
        (('0' as u8) + d) as char
    } else {
        (('a' as u8) + (d - 10)) as char
    }
}

/// The 24-digit lowercase hexadecimal form of an id's value.
pub open spec fn oid_hex(code: u128) -> Seq<char> {
    Seq::new(oid_hex_len(), |i: int| hex_char_of((code as int / pow16((23 - i) as nat)) % 16))
}

proof fn lemma_hex_char_roundtrip(d: int)
    requires
        0 <= d < 16,
    ensures
        is_hex_char(hex_char_of(d)),
        hex_char_value(hex_char_of(d)) == d,
{
}

proof fn lemma_hex_value_of_formatted(c: u128, n: nat)
    requires
        (c as int) < pow16(24),
        n <= 24,
    ensures
        hex_value_upto(oid_hex(c), n) == (c as int) / pow16((24 - n) as nat),
    decreases n,
{
    let s = oid_hex(c);
    let code = c as int;
    if n == 0 {
        lemma_pow16_pos(24);
        vstd::arithmetic::div_mod::lemma_basic_div(code, pow16(24));
    } else {
        lemma_hex_value_of_formatted(c, (n - 1) as nat);
        let p = pow16((24 - n) as nat);
        lemma_pow16_pos((24 - n) as nat);
        let q = code / p;
        lemma_hex_char_roundtrip(q % 16);
        assert(s[n - 1] == hex_char_of(q % 16));
        assert(pow16((25 - n) as nat) == 16 * p);
        vstd::arithmetic::div_mod::lemma_div_denominator(code, p, 16);
        vstd::arithmetic::div_mod::lemma_fundamental_div_mod(q, 16);
        assert(hex_value_upto(s, n) == (code / (p * 16)) * 16 + q % 16);
        assert(p * 16 == 16 * p);
        assert((code / (16 * p)) * 16 + q % 16 == q);
    }
}

/// The id codec is coherent: parsing the 24-digit hexadecimal form of an id
/// yields that id back. The boundary prints ids with `to_hex` and order
/// lines carry them back as text, so what a client echoes is what it was
/// given.
pub proof fn lemma_oid_hex_roundtrip(id: Oid)
    requires
        (id.code as int) < pow16(24),
    ensures
        parse_oid(oid_hex(id.code)) == Some(id),
{
    let s = oid_hex(id.code);
    let code = id.code as int;
    assert forall|i: int| 0 <= i < s.len() implies is_hex_char(#[trigger] s[i]) by {
        lemma_pow16_pos((23 - i) as nat);
        lemma_hex_char_roundtrip((code / pow16((23 - i) as nat)) % 16);
    }
    assert(oid_chars_valid(s));
    lemma_hex_value_of_formatted(id.code, 24);
    assert(hex_value_upto(s, 24) == code / pow16(0));
    assert(code / 1 == code) by (nonlinear_arith);
}

impl Oid {
    /// Parses a textual id: accepted exactly when it consists of 24
    /// hexadecimal digits.
    pub fn parse(s: &str) -> (r: Option<Oid>)
        ensures
            r == parse_oid(s@),
    {
        let n: usize = s.unicode_len();
        if n != 24 {
            return None;
        }
        let mut acc: u128 = 0;
        let mut i: usize = 0;

        while i < 24
            invariant
                i <= 24,
                s@.len() == 24,
                forall|j: int| 0 <= j < i ==> is_hex_char(#[trigger] s@[j]),
                acc as int == hex_value_upto(s@, i as nat),
                (acc as int) < pow16(i as nat),
            decreases 24 - i,
        {
            let c = s.get_char(i);
            let v: u32 = c as u32;
            let d: u128;
            if 48 <= v && v <= 57 {
                d = (v - 48) as u128;
            } else if 97 <= v && v <= 102 {
                d = (v - 87) as u128;
            } else if 65 <= v && v <= 70 {
                d = (v - 55) as u128;
            } else {
                assert(!is_hex_char(s@[i as int]));
                return None;
            }
            assert(is_hex_char(s@[i as int]) && d as int == hex_char_value(s@[i as int]));
            proof {
                lemma_pow16_le((i + 1) as nat, 24);
                assert(acc as int * 16 <= (pow16(i as nat) - 1) * 16) by (nonlinear_arith)
                    requires
                        acc as int <= pow16(i as nat) - 1,
                ;
                lemma_pow16_concrete();
            }
            acc = acc * 16 + d;
            i = i + 1;
        }

        Some(Oid { code: acc })
    }

    /// The 24-digit lowercase hexadecimal form of this id.
    pub fn to_hex(&self) -> (r: String)
        ensures
            r@ == oid_hex(self.code),
    {
        let mut res = String::new();
        let mut div: u128 = 0x100000000000000000000000;
        let mut i: usize = 0;

        proof {
            lemma_pow16_concrete();
        }

        while i < 24
            invariant
                i <= 24,
                i < 24 ==> div as int == pow16((23 - i) as nat),
                res@ =~= oid_hex(self.code).take(i as int),
            decreases 24 - i,
        {
            proof {
                lemma_pow16_pos((23 - i) as nat);
            }
            let d: u128 = (self.code / div) % 16;
            let dd: u8 = d as u8;
            let ch: char;
            if dd < 10 {
                ch = (48 + dd) as char;
            } else {
                ch = (87 + dd) as char;
            }
            assert(ch == hex_char_of((self.code as int / pow16((23 - i as int) as nat)) % 16));
            res.push(ch);
            proof {
                assert(res@ =~= oid_hex(self.code).take(i + 1));
            }
            div = div / 16;
            i = i + 1;
            proof {
                if i < 24 {
                    assert(pow16((24 - i) as nat) == 16 * pow16((23 - i) as nat));
                    assert(pow16((24 - i) as nat) / 16 == pow16((23 - i) as nat));
                }
            }
        }

        proof {
            assert(oid_hex(self.code).take(24) =~= oid_hex(self.code));
        }
        res
    }
}

} // verus!
