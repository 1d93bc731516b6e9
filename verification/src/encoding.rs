//! Text forms of bytes and numbers: lowercase hex and decimal.

use vstd::prelude::*;
use vstd::string::StringExecFns;

verus! {

/// The lowercase hex digit of a value below sixteen.
pub open spec fn hex_digit(n: int) -> char {
    seq!['0', '1', '2', '3', '4', '5', '6', '7', '8', '9', 'a', 'b', 'c', 'd', 'e', 'f'][n]
}

/// Lowercase hex of a byte sequence: two digits per byte, high nibble first.
pub open spec fn hex_string(bytes: Seq<u8>) -> Seq<char> {
    Seq::new(
        2 * bytes.len(),
        |i: int| if i % 2 == 0 {
            hex_digit(bytes[i / 2] as int / 16)
        } else {
            hex_digit(bytes[i / 2] as int % 16)
        },
    )
}

/// The decimal digit of a value below ten.
pub open spec fn decimal_digit(n: int) -> char {
    seq!['0', '1', '2', '3', '4', '5', '6', '7', '8', '9'][n]
}

/// Decimal notation of a natural number, without leading zeros.
pub open spec fn decimal_string(n: nat) -> Seq<char>
    decreases n,
{
    if n < 10 {
        seq![decimal_digit(n as int)]
    } else {
        decimal_string(n / 10).push(decimal_digit((n % 10) as int))
    }
}

/// The number that a sequence of decimal digits denotes; a character that is
/// no digit counts as zero.
pub open spec fn decimal_value(s: Seq<char>) -> nat
    decreases s.len(),
{
    if s.len() == 0 {
        0
    } else {
        10 * decimal_value(s.drop_last()) + digit_value(s.last())
    }
}

/// The value of a decimal digit, zero for any other character.
pub open spec fn digit_value(c: char) -> nat {
    if c == '1' {
        1
    } else if c == '2' {
        2
    } else if c == '3' {
        3
    } else if c == '4' {
        4
    } else if c == '5' {
        5
    } else if c == '6' {
        6
    } else if c == '7' {
        7
    } else if c == '8' {
        8
    } else if c == '9' {
        9
    } else {
        0
    }
}

/// The value of a hex digit, zero for any other character.
pub open spec fn hex_value(c: char) -> nat {
    if c == 'a' {
        10
    } else if c == 'b' {
        11
    } else if c == 'c' {
        12
    } else if c == 'd' {
        13
    } else if c == 'e' {
        14
    } else if c == 'f' {
        15
    } else {
        digit_value(c)
    }
}

/// Reading a hex digit gives back the value it was written for.
proof fn lemma_hex_digit_value(n: int)
    requires
        0 <= n < 16,
    ensures
        hex_value(hex_digit(n)) == n,
{
}

/// Reading a decimal digit gives back the value it was written for.
proof fn lemma_decimal_digit_value(n: int)
    requires
        0 <= n < 10,
    ensures
        digit_value(decimal_digit(n)) == n,
{
}

/// Decimal notation loses nothing: the digits of `n` denote `n`.
pub proof fn lemma_decimal_round_trip(n: nat)
    ensures
        decimal_value(decimal_string(n)) == n,
        decimal_string(n).len() >= 1,
    decreases n,
{
    if n < 10 {
        let s = decimal_string(n);
        assert(s.drop_last() =~= Seq::<char>::empty());
        assert(decimal_value(s.drop_last()) == 0);
        lemma_decimal_digit_value(n as int);
    } else {
        lemma_decimal_round_trip(n / 10);
        let s = decimal_string(n);
        assert(s.drop_last() =~= decimal_string(n / 10));
        lemma_decimal_digit_value((n % 10) as int);
    }
}

/// Two numbers with the same decimal notation are the same number.
pub proof fn lemma_decimal_injective(a: nat, b: nat)
    requires
        decimal_string(a) == decimal_string(b),
    ensures
        a == b,
{
    lemma_decimal_round_trip(a);
    lemma_decimal_round_trip(b);
}

/// Two byte sequences with the same hex form are the same sequence.
pub proof fn lemma_hex_injective(a: Seq<u8>, b: Seq<u8>)
    requires
        hex_string(a) == hex_string(b),
    ensures
        a == b,
{
    assert(hex_string(a).len() == 2 * a.len());
    assert(hex_string(b).len() == 2 * b.len());
    assert forall|i: int| 0 <= i < a.len() implies a[i] == b[i] by {
        let ha = hex_string(a);
        let hb = hex_string(b);
        assert(ha[2 * i] == hb[2 * i]);
        assert(ha[2 * i + 1] == hb[2 * i + 1]);
        assert(ha[2 * i] == hex_digit(a[i] as int / 16));
        assert(ha[2 * i + 1] == hex_digit(a[i] as int % 16));
        assert(hb[2 * i] == hex_digit(b[i] as int / 16));
        assert(hb[2 * i + 1] == hex_digit(b[i] as int % 16));
        lemma_hex_digit_value(a[i] as int / 16);
        lemma_hex_digit_value(a[i] as int % 16);
        lemma_hex_digit_value(b[i] as int / 16);
        lemma_hex_digit_value(b[i] as int % 16);
    }
    assert(a =~= b);
}

/// `alloy_primitives::hex::encode`: returns the bytes as lowercase hex, two
/// digits for each byte and nothing else.
#[verifier::external_body]
pub(crate) fn hex_encode(bytes: &[u8]) -> (text: String)
    ensures
        text@ == hex_string(bytes@),
{
    alloy_primitives::hex::encode(bytes)
}

/// The one-character text of a decimal digit.
fn digit_text(d: usize) -> (text: &'static str)
    requires
        d < 10,
    ensures
        text@ == seq![decimal_digit(d as int)],
{
    proof {
        reveal_strlit("0");
        reveal_strlit("1");
        reveal_strlit("2");
        reveal_strlit("3");
        reveal_strlit("4");
        reveal_strlit("5");
        reveal_strlit("6");
        reveal_strlit("7");
        reveal_strlit("8");
        reveal_strlit("9");
    }
    let text = if d == 0 {
        "0"
    } else if d == 1 {
        "1"
    } else if d == 2 {
        "2"
    } else if d == 3 {
        "3"
    } else if d == 4 {
        "4"
    } else if d == 5 {
        "5"
    } else if d == 6 {
        "6"
    } else if d == 7 {
        "7"
    } else if d == 8 {
        "8"
    } else {
        "9"
    };
    assert(text@ =~= seq![decimal_digit(d as int)]);
    text
}

/// Appends the decimal notation of `n` to `text`.
pub fn push_decimal(text: &mut String, n: usize)
    ensures
        final(text)@ == old(text)@ + decimal_string(n as nat),
    decreases n,
{
    if n >= 10 {
        push_decimal(text, n / 10);
    }
    let digit = digit_text(n % 10);
    text.append(digit);
    proof {
        if n >= 10 {
            assert(final(text)@ =~= old(text)@ + decimal_string(n as nat));
        } else {
            assert(final(text)@ =~= old(text)@ + decimal_string(n as nat));
        }
    }
}

} // verus!
