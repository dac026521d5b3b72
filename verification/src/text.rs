use vstd::prelude::*;
use vstd::string::*;

verus! {

/// The character that writes the decimal digit `d`.
pub open spec fn digit_char(d: int) -> char
    recommends
        0 <= d < 10,
{
    "0123456789"@[d]
}

/// The decimal numeral of a natural number: no sign, no leading zeros,
/// `"0"` for zero.
pub open spec fn nat_text(n: nat) -> Seq<char>
    decreases n,
{
    if n < 10 {
        seq![digit_char(n as int)]
    } else {
        nat_text(n / 10).push(digit_char((n % 10) as int))
    }
}

/// The decimal numeral of an integer: a minus sign before the numeral of
/// the magnitude when the integer is negative.
pub open spec fn int_text(n: int) -> Seq<char> {
    if n < 0 {
        seq!['-'] + nat_text((-n) as nat)
    } else {
        nat_text(n as nat)
    }
}

/// The digit that a character writes, and ten for a character that writes
/// none.
pub open spec fn digit_value(c: char) -> int {
    if c == '0' {
        0
    } else if c == '1' {
        1
    } else if c == '2' {
        2
    } else if c == '3' {
        3
    } else if c == '4' {
        4
    } else if c == '5' {
        5
    } else if c == '6' {
        6
    } else if c == '7' {
        7
    } else if c == '8' {
        8
    } else if c == '9' {
        9
    } else {
        10
    }
}

/// The number that a sequence of digits writes in base ten.
pub open spec fn numeral_value(s: Seq<char>) -> int
    decreases s.len(),
{
    if s.len() == 0 {
        0
    } else {
        numeral_value(s.drop_last()) * 10 + digit_value(s.last())
    }
}

/// Each digit is written by a character of its own, which is no minus
/// sign.
pub proof fn lemma_digit_char(d: int)
    requires
        0 <= d < 10,
    ensures
        digit_value(digit_char(d)) == d,
        digit_char(d) != '-',
{
    reveal_strlit("0123456789");
}

/// A numeral writes the number it was made from, and begins with a digit.
pub proof fn lemma_nat_text_value(n: nat)
    ensures
        numeral_value(nat_text(n)) == n,
        nat_text(n).len() > 0,
        nat_text(n)[0] != '-',
    decreases n,
{
    let s = nat_text(n);
    if n < 10 {
        lemma_digit_char(n as int);
        assert(s.drop_last() =~= Seq::<char>::empty());
        assert(numeral_value(s.drop_last()) == 0);
        assert(s.last() == digit_char(n as int));
    } else {
        lemma_nat_text_value(n / 10);
        lemma_digit_char((n % 10) as int);
        assert(s.drop_last() =~= nat_text(n / 10));
        assert(s.last() == digit_char((n % 10) as int));
        assert(s[0] == nat_text(n / 10)[0]);
    }
}

/// Different natural numbers have different numerals.
pub proof fn lemma_nat_text_injective(a: nat, b: nat)
    requires
        nat_text(a) == nat_text(b),
    ensures
        a == b,
{
    lemma_nat_text_value(a);
    lemma_nat_text_value(b);
}

/// Different integers have different numerals.
pub proof fn lemma_int_text_injective(a: int, b: int)
    requires
        int_text(a) == int_text(b),
    ensures
        a == b,
{
    if a < 0 {
        lemma_nat_text_value((-a) as nat);
    } else {
        lemma_nat_text_value(a as nat);
    }
    if b < 0 {
        lemma_nat_text_value((-b) as nat);
    } else {
        lemma_nat_text_value(b as nat);
    }
    if a < 0 && b < 0 {
        let x = nat_text((-a) as nat);
        let y = nat_text((-b) as nat);
        assert(x =~= int_text(a).drop_first());
        assert(y =~= int_text(b).drop_first());
        lemma_nat_text_injective((-a) as nat, (-b) as nat);
    } else if a >= 0 && b >= 0 {
        lemma_nat_text_injective(a as nat, b as nat);
    } else if a < 0 {
        assert(int_text(a)[0] == '-');
    } else {
        assert(int_text(b)[0] == '-');
    }
}

fn digit_str(d: u64) -> (r: &'static str)
    requires
        d < 10,
    ensures
        r@ == seq![digit_char(d as int)],
{
    proof {
        reveal_strlit("0123456789");
    }
    let r = "0123456789".substring_ascii(d as usize, d as usize + 1);
    assert(r@ =~= seq![digit_char(d as int)]);
    r
}

/// Writes an unsigned integer as its decimal numeral.
pub fn u64_text(n: u64) -> (r: String)
    ensures
        r@ == nat_text(n as nat),
    decreases n,
{
    if n < 10 {
        String::from_str(digit_str(n))
    } else {
        let mut s = u64_text(n / 10);
        s.append(digit_str(n % 10));
        assert(s@ =~= nat_text(n as nat));
        s
    }
}

/// Writes a signed integer as its decimal numeral.
pub fn i64_text(n: i64) -> (r: String)
    ensures
        r@ == int_text(n as int),
{
    if n < 0 {
        let magnitude: u64 = ((-(n + 1)) as u64) + 1;
        let digits = u64_text(magnitude);
        proof {
            reveal_strlit("-");
        }
        let mut s = String::from_str("-");
        s.append(digits.as_str());
        assert(s@ =~= int_text(n as int));
        s
    } else {
        u64_text(n as u64)
    }
}

/// The sixty-four symbols of the base64 alphabet, in the order of their
/// values.
pub open spec fn base64_alphabet() -> Seq<char> {
    "ABCDEFGHIJKLMNOPQRSTUVWXYZabcdefghijklmnopqrstuvwxyz0123456789+/"@
}

/// The symbol that stands for the six-bit value `v`.
pub open spec fn base64_symbol(v: int) -> char
    recommends
        0 <= v < 64,
{
    base64_alphabet()[v]
}

/// The four symbols of a full group of three bytes.
pub open spec fn base64_group(b0: u8, b1: u8, b2: u8) -> Seq<char> {
    seq![
        base64_symbol(b0 as int / 4),
        base64_symbol((b0 as int % 4) * 16 + b1 as int / 16),
        base64_symbol((b1 as int % 16) * 4 + b2 as int / 64),
        base64_symbol(b2 as int % 64),
    ]
}

/// The base64 text of a byte sequence, with the standard alphabet and `=`
/// padding: every three bytes give four symbols, and a last group of one
/// or two bytes gives two or three symbols and is padded to four.
pub open spec fn base64_text(bytes: Seq<u8>) -> Seq<char>
    decreases bytes.len(),
{
    if bytes.len() == 0 {
        Seq::empty()
    } else if bytes.len() == 1 {
        seq![
            base64_symbol(bytes[0] as int / 4),
            base64_symbol((bytes[0] as int % 4) * 16),
            '=',
            '=',
        ]
    } else if bytes.len() == 2 {
        seq![
            base64_symbol(bytes[0] as int / 4),
            base64_symbol((bytes[0] as int % 4) * 16 + bytes[1] as int / 16),
            base64_symbol((bytes[1] as int % 16) * 4),
            '=',
        ]
    } else {
        base64_group(bytes[0], bytes[1], bytes[2]) + base64_text(bytes.skip(3))
    }
}

fn symbol_str(v: u8) -> (r: &'static str)
    requires
        v < 64,
    ensures
        r@ == seq![base64_symbol(v as int)],
{
    proof {
        reveal_strlit("ABCDEFGHIJKLMNOPQRSTUVWXYZabcdefghijklmnopqrstuvwxyz0123456789+/");
    }
    let r = "ABCDEFGHIJKLMNOPQRSTUVWXYZabcdefghijklmnopqrstuvwxyz0123456789+/".substring_ascii(
        v as usize,
        v as usize + 1,
    );
    assert(r@ =~= seq![base64_symbol(v as int)]);
    r
}

/// Encodes bytes as base64 text.
pub fn base64_encode(bytes: &[u8]) -> (r: String)
    ensures
        r@ == base64_text(bytes@),
{
    let n: usize = bytes.len();
    let mut out = String::new();
    let mut i: usize = 0;
    assert(bytes@.skip(0) =~= bytes@);
    while n - i >= 3
        invariant
            n == bytes@.len(),
            i <= n,
            base64_text(bytes@) == out@ + base64_text(bytes@.skip(i as int)),
        decreases n - i,
    {
        let b0: u8 = bytes[i];
        let b1: u8 = bytes[i + 1];
        let b2: u8 = bytes[i + 2];
        let ghost rest = bytes@.skip(i as int);
        let ghost before = out@;
        out.append(symbol_str(b0 / 4));
        out.append(symbol_str((b0 % 4) * 16 + b1 / 16));
        out.append(symbol_str((b1 % 16) * 4 + b2 / 64));
        out.append(symbol_str(b2 % 64));
        proof {
            assert(rest.skip(3) =~= bytes@.skip(i as int + 3));
            assert(out@ =~= before + base64_group(b0, b1, b2));
            assert(base64_text(rest) == base64_group(rest[0], rest[1], rest[2]) + base64_text(
                rest.skip(3),
            ));
            assert(before + base64_text(rest) =~= out@ + base64_text(rest.skip(3)));
        }
        i = i + 3;
    }
    let ghost rest = bytes@.skip(i as int);
    let ghost before = out@;
    proof {
        reveal_strlit("=");
    }
    if n - i == 1 {
        let b0: u8 = bytes[i];
        out.append(symbol_str(b0 / 4));
        out.append(symbol_str((b0 % 4) * 16));
        out.append("=");
        out.append("=");
        assert(out@ =~= before + base64_text(rest));
    } else if n - i == 2 {
        let b0: u8 = bytes[i];
        let b1: u8 = bytes[i + 1];
        out.append(symbol_str(b0 / 4));
        out.append(symbol_str((b0 % 4) * 16 + b1 / 16));
        out.append(symbol_str((b1 % 16) * 4));
        out.append("=");
        assert(out@ =~= before + base64_text(rest));
    } else {
        assert(out@ =~= before + base64_text(rest));
    }
    out
}

} // verus!
