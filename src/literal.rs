//! Decimal numbers and byte-array literals in the generated test source,
//! with the decoder that reads a byte-array literal back.

use vstd::prelude::*;
use vstd::string::*;

verus! {

/// The character of the decimal digit `d`.
pub open spec fn digit_char(d: nat) -> char {
    if d == 0 {
        '0'
    } else if d == 1 {
        '1'
    } else if d == 2 {
        '2'
    } else if d == 3 {
        '3'
    } else if d == 4 {
        '4'
    } else if d == 5 {
        '5'
    } else if d == 6 {
        '6'
    } else if d == 7 {
        '7'
    } else if d == 8 {
        '8'
    } else {
        '9'
    }
}

/// The value of a decimal digit character.
pub open spec fn digit_value(c: char) -> nat {
    if c == '1' {
        1
    } else if c == '2' {
        2
    } else if c == '3' {
        3
    } else if c == '4' {
        4
    } else if c == '5' {
        5
    } else if c == '6' {
        6
    } else if c == '7' {
        7
    } else if c == '8' {
        8
    } else if c == '9' {
        9
    } else {
        0
    }
}

pub open spec fn is_digit(c: char) -> bool {
    c == '0' || c == '1' || c == '2' || c == '3' || c == '4' || c == '5' || c == '6' || c == '7'
        || c == '8' || c == '9'
}

/// The decimal representation of `n`, without leading zeros.
pub open spec fn decimal(n: nat) -> Seq<char>
    decreases n,
{
    if n < 10 {
        seq![digit_char(n)]
    } else {
        decimal(n / 10) + seq![digit_char(n % 10)]
    }
}

/// The bytes of `b` in decimal, separated by a comma and a space.
pub open spec fn byte_items(b: Seq<u8>) -> Seq<char>
    decreases b.len(),
{
    if b.len() == 0 {
        Seq::empty()
    } else if b.len() == 1 {
        decimal(b[0] as nat)
    } else {
        byte_items(b.drop_last()) + ", "@ + decimal(b.last() as nat)
    }
}

/// The array literal that spells out the bytes of `b`, such as `[104, 105]`.
pub open spec fn byte_literal(b: Seq<u8>) -> Seq<char> {
    "["@ + byte_items(b) + "]"@
}

/// The value of a sequence of decimal digits.
pub open spec fn decimal_value(s: Seq<char>) -> nat
    decreases s.len(),
{
    if s.len() == 0 {
        0
    } else {
        decimal_value(s.drop_last()) * 10 + digit_value(s.last())
    }
}

/// How many digit characters `s` ends with.
pub open spec fn trailing_digits(s: Seq<char>) -> nat
    decreases s.len(),
{
    if s.len() > 0 && is_digit(s.last()) {
        trailing_digits(s.drop_last()) + 1
    } else {
        0
    }
}

/// Reads the numbers of a comma-and-space separated list, from its end.
pub open spec fn decode_items(s: Seq<char>) -> Seq<u8>
    decreases s.len(),
{
    if s.len() == 0 {
        Seq::empty()
    } else {
        proof {
            lemma_trailing_digits_bound(s);
        }
        let k = trailing_digits(s);
        let head = s.take(s.len() - k);
        let value = decimal_value(s.skip(s.len() - k)) as u8;
        if k > 0 && head.len() >= 2 && head[head.len() - 2] == ',' && head.last() == ' ' {
            decode_items(head.take(head.len() - 2)) + seq![value]
        } else {
            seq![value]
        }
    }
}

/// Reads the bytes back out of a byte-array literal.
pub open spec fn decode_byte_literal(s: Seq<char>) -> Seq<u8> {
    decode_items(s.subrange(1, s.len() - 1))
}

pub proof fn lemma_trailing_digits_bound(s: Seq<char>)
    ensures
        trailing_digits(s) <= s.len(),
    decreases s.len(),
{
    if s.len() > 0 && is_digit(s.last()) {
        lemma_trailing_digits_bound(s.drop_last());
    }
}

pub proof fn lemma_decimal_digits(n: nat)
    ensures
        decimal(n).len() > 0,
        forall|i: int| 0 <= i < decimal(n).len() ==> is_digit(#[trigger] decimal(n)[i]),
        decimal_value(decimal(n)) == n,
    decreases n,
{
    let d = decimal(n);
    if n >= 10 {
        lemma_decimal_digits(n / 10);
        assert(d.drop_last() =~= decimal(n / 10));
        assert(digit_value(digit_char(n % 10)) == n % 10);
        assert(decimal_value(d) == decimal_value(d.drop_last()) * 10 + digit_value(d.last()));
        assert(n == (n / 10) * 10 + n % 10);
    } else {
        assert(d.drop_last() =~= Seq::<char>::empty());
        assert(digit_value(digit_char(n)) == n);
        assert(decimal_value(d) == decimal_value(d.drop_last()) * 10 + digit_value(d.last()));
    }
}

proof fn lemma_trailing_digits_of_number(p: Seq<char>, d: Seq<char>)
    requires
        forall|i: int| 0 <= i < d.len() ==> is_digit(#[trigger] d[i]),
        p.len() == 0 || !is_digit(p.last()),
    ensures
        trailing_digits(p + d) == d.len(),
    decreases d.len(),
{
    if d.len() == 0 {
        assert(p + d =~= p);
    } else {
        assert((p + d).drop_last() =~= p + d.drop_last());
        lemma_trailing_digits_of_number(p, d.drop_last());
    }
}

/// Decoding the literal of a byte sequence gives back that sequence.
pub proof fn lemma_byte_literal_round_trip(b: Seq<u8>)
    ensures
        decode_byte_literal(byte_literal(b)) == b,
{
    reveal_strlit("[");
    reveal_strlit("]");
    let lit = byte_literal(b);
    assert(lit.subrange(1, lit.len() - 1) =~= byte_items(b));
    lemma_byte_items_round_trip(b);
}

proof fn lemma_byte_items_round_trip(b: Seq<u8>)
    ensures
        decode_items(byte_items(b)) == b,
    decreases b.len(),
{
    reveal_strlit(", ");
    if b.len() == 0 {
        assert(decode_items(byte_items(b)) =~= b);
    } else if b.len() == 1 {
        let s = decimal(b[0] as nat);
        lemma_decimal_digits(b[0] as nat);
        lemma_trailing_digits_of_number(Seq::empty(), s);
        assert(Seq::<char>::empty() + s =~= s);
        assert(s.skip(0) =~= s);
        assert(decode_items(s) =~= b);
    } else {
        let x = b.last() as nat;
        let rest = byte_items(b.drop_last());
        let head = rest + ", "@;
        let s = head + decimal(x);
        lemma_decimal_digits(x);
        lemma_trailing_digits_of_number(head, decimal(x));
        assert(s.take(s.len() - decimal(x).len()) =~= head);
        assert(s.skip(s.len() - decimal(x).len()) =~= decimal(x));
        assert(head.take(head.len() - 2) =~= rest);
        lemma_byte_items_round_trip(b.drop_last());
        assert(decode_items(s) =~= b.drop_last() + seq![b.last()]);
        assert(b.drop_last() + seq![b.last()] =~= b);
    }
}

/// The one-character text of the digit `d`.
fn digit_str(d: usize) -> (r: &'static str)
    requires
        d < 10,
    ensures
        r@ == seq![digit_char(d as nat)],
{
    if d == 0 {
        proof { reveal_strlit("0"); }
        "0"
    } else if d == 1 {
        proof { reveal_strlit("1"); }
        "1"
    } else if d == 2 {
        proof { reveal_strlit("2"); }
        "2"
    } else if d == 3 {
        proof { reveal_strlit("3"); }
        "3"
    } else if d == 4 {
        proof { reveal_strlit("4"); }
        "4"
    } else if d == 5 {
        proof { reveal_strlit("5"); }
        "5"
    } else if d == 6 {
        proof { reveal_strlit("6"); }
        "6"
    } else if d == 7 {
        proof { reveal_strlit("7"); }
        "7"
    } else if d == 8 {
        proof { reveal_strlit("8"); }
        "8"
    } else {
        proof { reveal_strlit("9"); }
        "9"
    }
}

/// Appends the decimal representation of `n`.
pub fn push_decimal(out: &mut String, n: usize)
    ensures
        final(out)@ == old(out)@ + decimal(n as nat),
    decreases n,
{
    if n >= 10 {
        push_decimal(out, n / 10);
    }
    out.append(digit_str(n % 10));
    assert(out@ =~= old(out)@ + decimal(n as nat));
}

/// Appends the array literal of `bytes`.
pub fn push_byte_literal(out: &mut String, bytes: &[u8])
    ensures
        final(out)@ == old(out)@ + byte_literal(bytes@),
{
    let ghost start = out@;
    out.append("[");
    let mut i: usize = 0;
    while i < bytes.len()
        invariant
            i <= bytes@.len(),
            out@ == start + "["@ + byte_items(bytes@.take(i as int)),
        decreases bytes.len() - i,
    {
        if i > 0 {
            out.append(", ");
        }
        push_decimal(out, bytes[i] as usize);
        proof {
            let t = bytes@.take(i as int + 1);
            assert(t.drop_last() =~= bytes@.take(i as int));
            if i == 0 {
                assert(byte_items(bytes@.take(0)) =~= Seq::<char>::empty());
            }
            assert(out@ =~= start + "["@ + byte_items(t));
        }
        i = i + 1;
    }
    out.append("]");
    assert(bytes@.take(bytes@.len() as int) =~= bytes@);
}

} // verus!
