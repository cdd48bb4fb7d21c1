use vstd::prelude::*;

verus! {

/// The ASCII digit for a value below ten.
pub open spec fn spec_digit(d: nat) -> char {
    (d + 48) as char
}

/// The decimal form of a natural number: no sign, no leading zeros
/// (zero itself is written `0`), as `{}` formats an unsigned integer.
pub open spec fn spec_decimal(n: nat) -> Seq<char>
    decreases n,
{
    if n < 10 {
        seq![spec_digit(n)]
    } else {
        spec_decimal(n / 10).push(spec_digit(n % 10))
    }
}

/// The decimal form of an integer, as `{}` formats a signed integer: a
/// leading `-` for negative values, then the digits of the magnitude.
pub open spec fn spec_signed_decimal(n: int) -> Seq<char> {
    if n < 0 {
        seq!['-'] + spec_decimal((-n) as nat)
    } else {
        spec_decimal(n as nat)
    }
}

/// The number a string of decimal digits stands for.
pub open spec fn spec_parse_decimal(s: Seq<char>) -> int
    decreases s.len(),
{
    if s.len() == 0 {
        0
    } else {
        spec_parse_decimal(s.drop_last()) * 10 + (s.last() as int - 48)
    }
}

/// The decimal form holds only the digits `0` to `9`.
pub proof fn lemma_decimal_digits(n: nat)
    ensures
        forall|i: int|
            0 <= i < spec_decimal(n).len() ==> 48 <= #[trigger] (spec_decimal(n)[i] as int) <= 57,
    decreases n,
{
    if n >= 10 {
        lemma_decimal_digits(n / 10);
        let d = spec_decimal(n / 10);
        assert forall|i: int| 0 <= i < spec_decimal(n).len() implies 48 <= #[trigger] (spec_decimal(n)[i] as int) <= 57 by {
            if i < d.len() {
                assert(spec_decimal(n)[i] == d[i]);
            }
        }
    }
}

/// Reading the decimal form back gives the number.
pub proof fn lemma_decimal_parse(n: nat)
    ensures
        spec_parse_decimal(spec_decimal(n)) == n,
    decreases n,
{
    if n < 10 {
        assert(spec_decimal(n).drop_last() =~= Seq::<char>::empty());
        assert(spec_digit(n) as int == n + 48);
        assert(spec_decimal(n).last() == spec_digit(n));
        assert(spec_parse_decimal(Seq::<char>::empty()) == 0);
        assert(spec_parse_decimal(spec_decimal(n)) == spec_parse_decimal(spec_decimal(n).drop_last()) * 10 + (spec_decimal(n).last() as int - 48));
    } else {
        lemma_decimal_parse(n / 10);
        assert(spec_decimal(n).drop_last() =~= spec_decimal(n / 10));
        assert(spec_digit(n % 10) as int == n % 10 + 48);
        assert(spec_decimal(n).last() == spec_digit(n % 10));
        let q = spec_parse_decimal(spec_decimal(n / 10));
        assert(q == n / 10);
        assert(spec_parse_decimal(spec_decimal(n)) == q * 10 + (spec_decimal(n).last() as int - 48));
        assert((n / 10) * 10 + n % 10 == n) by (nonlinear_arith);
    }
}

/// Decimal forms keep the order of the numbers: of two clock readings, the
/// later one's text reads back as a number no smaller (and equal readings,
/// as within one second, give the same text).
pub proof fn lemma_decimal_order(a: nat, b: nat)
    requires
        a <= b,
    ensures
        spec_parse_decimal(spec_decimal(a)) <= spec_parse_decimal(spec_decimal(b)),
        a == b ==> spec_decimal(a) == spec_decimal(b),
{
    lemma_decimal_parse(a);
    lemma_decimal_parse(b);
}

/// The one-character string of a decimal digit.
fn digit_str(d: u64) -> (s: &'static str)
    requires
        d < 10,
    ensures
        s@ == seq![spec_digit(d as nat)],
{
    proof {
        reveal_strlit("0");
        reveal_strlit("1");
        reveal_strlit("2");
        reveal_strlit("3");
        reveal_strlit("4");
        reveal_strlit("5");
        reveal_strlit("6");
        reveal_strlit("7");
        reveal_strlit("8");
        reveal_strlit("9");
    }
    match d {
        0 => "0",
        1 => "1",
        2 => "2",
        3 => "3",
        4 => "4",
        5 => "5",
        6 => "6",
        7 => "7",
        8 => "8",
        _ => "9",
    }
}

/// Appends the decimal form of `n` to `out`.
pub fn push_decimal(out: &mut String, n: u64)
    ensures
        final(out)@ == old(out)@ + spec_decimal(n as nat),
    decreases n,
{
    if n >= 10 {
        push_decimal(out, n / 10);
    }
    let d = digit_str(n % 10);
    out.append(d);
    proof {
        assert(old(out)@ + spec_decimal(n as nat) =~= final(out)@) by {
            if n >= 10 {
                assert(spec_decimal(n as nat) == spec_decimal((n / 10) as nat).push(spec_digit((n % 10) as nat)));
            }
        }
    }
}

/// The decimal form of an unsigned integer.
pub fn u64_to_decimal(n: u64) -> (s: String)
    ensures
        s@ == spec_decimal(n as nat),
{
    let mut s = String::new();
    push_decimal(&mut s, n);
    assert(s@ =~= spec_decimal(n as nat));
    s
}

/// The decimal form of a signed integer.
pub fn i64_to_decimal(n: i64) -> (s: String)
    ensures
        s@ == spec_signed_decimal(n as int),
{
    let mut s = String::new();
    if n < 0 {
        proof { reveal_strlit("-"); }
        s.append("-");
        let m: u64 = ((-(n + 1)) as u64) + 1;
        assert(m == -n);
        push_decimal(&mut s, m);
        assert(s@ =~= spec_signed_decimal(n as int));
    } else {
        push_decimal(&mut s, n as u64);
        assert(s@ =~= spec_signed_decimal(n as int));
    }
    s
}

/// The lowercase hexadecimal digit for a value below sixteen.
pub open spec fn spec_hex_digit(d: nat) -> char {
    if d < 10 {
        (d + 48) as char
    } else {
        (d + 87) as char
    }
}

/// The two lowercase hexadecimal digits of a byte, high nibble first, as
/// `{:02x}` formats it.
pub open spec fn spec_hex_byte(b: u8) -> Seq<char> {
    seq![spec_hex_digit((b / 16) as nat), spec_hex_digit((b % 16) as nat)]
}

/// The lowercase hexadecimal form of a byte string: each byte in turn as two
/// digits.
pub open spec fn spec_hex(bytes: Seq<u8>) -> Seq<char>
    decreases bytes.len(),
{
    if bytes.len() == 0 {
        Seq::empty()
    } else {
        spec_hex(bytes.drop_last()) + spec_hex_byte(bytes.last())
    }
}

/// The one-character string of a hexadecimal digit.
fn hex_digit_str(d: u8) -> (s: &'static str)
    requires
        d < 16,
    ensures
        s@ == seq![spec_hex_digit(d as nat)],
{
    proof {
        reveal_strlit("0");
        reveal_strlit("1");
        reveal_strlit("2");
        reveal_strlit("3");
        reveal_strlit("4");
        reveal_strlit("5");
        reveal_strlit("6");
        reveal_strlit("7");
        reveal_strlit("8");
        reveal_strlit("9");
        reveal_strlit("a");
        reveal_strlit("b");
        reveal_strlit("c");
        reveal_strlit("d");
        reveal_strlit("e");
        reveal_strlit("f");
    }
    match d {
        0 => "0",
        1 => "1",
        2 => "2",
        3 => "3",
        4 => "4",
        5 => "5",
        6 => "6",
        7 => "7",
        8 => "8",
        9 => "9",
        10 => "a",
        11 => "b",
        12 => "c",
        13 => "d",
        14 => "e",
        _ => "f",
    }
}

/// The lowercase hexadecimal form of a byte string.
pub fn to_hex(bytes: &[u8]) -> (s: String)
    ensures
        s@ == spec_hex(bytes@),
{
    let mut s = String::new();
    let n = bytes.len();
    for i in 0..n
        invariant
            n == bytes@.len(),
            s@ == spec_hex(bytes@.take(i as int)),
    {
        let b = bytes[i];
        s.append(hex_digit_str(b / 16));
        s.append(hex_digit_str(b % 16));
        proof {
            let t = bytes@.take(i + 1);
            assert(t.drop_last() =~= bytes@.take(i as int));
            assert(t.last() == b);
            assert(s@ =~= spec_hex(t));
        }
    }
    assert(bytes@.take(n as int) =~= bytes@);
    s
}

/// The hexadecimal form has two digits per byte.
pub proof fn lemma_hex_len(bytes: Seq<u8>)
    ensures
        spec_hex(bytes).len() == 2 * bytes.len(),
    decreases bytes.len(),
{
    if bytes.len() > 0 {
        lemma_hex_len(bytes.drop_last());
    }
}

/// Byte `i` becomes characters `2i` and `2i + 1`: the lowercase hexadecimal
/// digits (`0`-`9`, then `a`-`f`) of its high and low nibble.
pub proof fn lemma_hex_digits(bytes: Seq<u8>)
    ensures
        spec_hex(bytes).len() == 2 * bytes.len(),
        forall|i: int|
            0 <= i < bytes.len() ==> (spec_hex(bytes)[2 * i] as int) == (if #[trigger] bytes[i] / 16 < 10 {
                bytes[i] / 16 + 48
            } else {
                bytes[i] / 16 + 87
            }) && (spec_hex(bytes)[2 * i + 1] as int) == (if bytes[i] % 16 < 10 {
                bytes[i] % 16 + 48
            } else {
                bytes[i] % 16 + 87
            }),
    decreases bytes.len(),
{
    lemma_hex_len(bytes);
    if bytes.len() > 0 {
        let q = bytes.drop_last();
        lemma_hex_digits(q);
        lemma_hex_len(q);
        let h = spec_hex(bytes);
        assert(h == spec_hex(q) + spec_hex_byte(bytes.last()));
        assert forall|i: int| 0 <= i < bytes.len() implies (h[2 * i] as int) == (if #[trigger] bytes[i] / 16 < 10 {
            bytes[i] / 16 + 48
        } else {
            bytes[i] / 16 + 87
        }) && (h[2 * i + 1] as int) == (if bytes[i] % 16 < 10 {
            bytes[i] % 16 + 48
        } else {
            bytes[i] % 16 + 87
        }) by {
            if i < q.len() {
                assert(bytes[i] == q[i]);
                assert(h[2 * i] == spec_hex(q)[2 * i]);
                assert(h[2 * i + 1] == spec_hex(q)[2 * i + 1]);
            } else {
                assert(bytes[i] == bytes.last());
                assert(h[2 * i] == spec_hex_byte(bytes.last())[0]);
                assert(h[2 * i + 1] == spec_hex_byte(bytes.last())[1]);
            }
        }
    }
}

/// The signed decimal form: a `-` then the magnitude's digits for a negative
/// number, the digits alone otherwise; the digits read back as the magnitude.
pub proof fn lemma_signed_decimal(n: int)
    ensures
        n < 0 ==> spec_signed_decimal(n)[0] == '-' && spec_parse_decimal(spec_signed_decimal(n).drop_first()) == -n,
        n >= 0 ==> spec_parse_decimal(spec_signed_decimal(n)) == n,
        forall|i: int| 0 <= i < spec_signed_decimal(n).len() && !(n < 0 && i == 0)
            ==> 48 <= #[trigger] (spec_signed_decimal(n)[i] as int) <= 57,
{
    if n < 0 {
        let m = (-n) as nat;
        lemma_decimal_parse(m);
        lemma_decimal_digits(m);
        let t = spec_signed_decimal(n);
        assert(t.drop_first() =~= spec_decimal(m));
        assert forall|i: int| 0 <= i < t.len() && !(n < 0 && i == 0) implies 48 <= #[trigger] (t[i] as int) <= 57 by {
            assert(t[i] == spec_decimal(m)[i - 1]);
        }
    } else {
        lemma_decimal_parse(n as nat);
        lemma_decimal_digits(n as nat);
    }
}

} // verus!
