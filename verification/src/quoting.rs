//! Values written out as text: SQL string literals and hexadecimal bytes.

use vstd::prelude::*;
use vstd::string::*;

use crate::text::chars_of;

verus! {

/// A character inside a SQL string literal: a quote is doubled.
pub open spec fn literal_piece(c: char) -> Seq<char> {
    if c == '\'' {
        seq!['\'', '\'']
    } else {
        seq![c]
    }
}

/// The inside of the SQL string literal for `s`.
pub open spec fn literal_body(s: Seq<char>) -> Seq<char>
    decreases s.len(),
{
    if s.len() == 0 {
        seq![]
    } else {
        literal_piece(s[0]) + literal_body(s.drop_first())
    }
}

/// The SQL string literal for `s`.
pub open spec fn sql_literal(s: Seq<char>) -> Seq<char> {
    seq!['\''] + literal_body(s) + seq!['\'']
}

/// One more character at the end adds its piece at the end.
proof fn lemma_literal_body_push(s: Seq<char>, c: char)
    ensures
        literal_body(s.push(c)) == literal_body(s) + literal_piece(c),
    decreases s.len(),
{
    if s.len() == 0 {
        assert(s.push(c).drop_first() =~= s);
        assert(literal_body(s.push(c)) =~= literal_piece(c));
        assert(literal_body(s) + literal_piece(c) =~= literal_piece(c));
    } else {
        lemma_literal_body_push(s.drop_first(), c);
        assert(s.push(c).drop_first() =~= s.drop_first().push(c));
        assert(literal_body(s.push(c)) =~= literal_body(s) + literal_piece(c));
    }
}

/// The SQL string literal for a value: in quotes, with the quotes inside it doubled.
pub fn sql_string(value: &str) -> (r: String)
    ensures
        r@ == sql_literal(value@),
{
    let x = chars_of(value);
    let mut r = String::new();
    r.push('\'');
    let mut i: usize = 0;
    assert(r@ =~= seq!['\''] + literal_body(value@.take(0)));
    while i < x.len()
        invariant
            i <= x.len(),
            x@ == value@,
            r@ == seq!['\''] + literal_body(value@.take(i as int)),
        decreases x.len() - i,
    {
        proof {
            lemma_literal_body_push(value@.take(i as int), value@[i as int]);
            assert(value@.take(i + 1) =~= value@.take(i as int).push(value@[i as int]));
        }
        if x[i] == '\'' {
            r.push('\'');
        }
        r.push(x[i]);
        assert(r@ =~= seq!['\''] + literal_body(value@.take(i + 1)));
        i += 1;
    }
    assert(value@.take(x.len() as int) =~= value@);
    r.push('\'');
    assert(r@ =~= sql_literal(value@));
    r
}

/// How SQL reads on inside a string literal: two quotes stand for one, a single quote ends the
/// literal. Gives the value that was read and the text after the literal; nothing where the
/// literal does not end.
pub open spec fn read_literal_body(text: Seq<char>) -> Option<(Seq<char>, Seq<char>)>
    decreases text.len(),
{
    if text.len() == 0 {
        None
    } else if text[0] != '\'' {
        match read_literal_body(text.drop_first()) {
            Some((value, rest)) => Some((seq![text[0]] + value, rest)),
            None => None,
        }
    } else if text.len() > 1 && text[1] == '\'' {
        match read_literal_body(text.skip(2)) {
            Some((value, rest)) => Some((seq!['\''] + value, rest)),
            None => None,
        }
    } else {
        Some((seq![], text.drop_first()))
    }
}

/// How SQL reads a text that starts with a string literal.
pub open spec fn read_literal(text: Seq<char>) -> Option<(Seq<char>, Seq<char>)> {
    if text.len() > 0 && text[0] == '\'' {
        read_literal_body(text.drop_first())
    } else {
        None
    }
}

proof fn lemma_read_body(value: Seq<char>, rest: Seq<char>)
    requires
        rest.len() == 0 || rest[0] != '\'',
    ensures
        read_literal_body(literal_body(value) + seq!['\''] + rest) == Some((value, rest)),
    decreases value.len(),
{
    let text = literal_body(value) + seq!['\''] + rest;
    if value.len() == 0 {
        assert(text =~= seq!['\''] + rest);
        assert(text.drop_first() =~= rest);
        assert(value =~= seq![]);
    } else {
        let tail = value.drop_first();
        let next = literal_body(tail) + seq!['\''] + rest;
        lemma_read_body(tail, rest);
        assert(text =~= literal_piece(value[0]) + next);
        assert(value =~= seq![value[0]] + tail);
        if value[0] == '\'' {
            assert(text.skip(2) =~= next);
        } else {
            assert(text.drop_first() =~= next);
        }
    }
}

/// A quoted value cannot break out of its quotes: whatever the value holds, SQL reads the
/// literal back as exactly that value, and the text that follows is what it was.
pub proof fn quoting_is_safe(value: Seq<char>, rest: Seq<char>)
    requires
        rest.len() == 0 || rest[0] != '\'',
    ensures
        read_literal(sql_literal(value) + rest) == Some((value, rest)),
{
    lemma_read_body(value, rest);
    assert((sql_literal(value) + rest).drop_first() =~= literal_body(value) + seq!['\''] + rest);
}

/// The hexadecimal digit for a number below sixteen, in lower case.
pub open spec fn hex_digit_spec(n: int) -> char {
    "0123456789abcdef"@[n]
}

/// Two digits for each byte, the high one first.
pub open spec fn hex_text(bytes: Seq<u8>) -> Seq<char> {
    Seq::new(
        2 * bytes.len(),
        |i: int|
            hex_digit_spec(
                if i % 2 == 0 {
                    bytes[i / 2] as int / 16
                } else {
                    bytes[i / 2] as int % 16
                },
            ),
    )
}

fn hex_digit(n: u8) -> (r: char)
    requires
        n < 16,
    ensures
        r == hex_digit_spec(n as int),
{
    proof {
        reveal_strlit("0123456789abcdef");
    }
    if n < 10 {
        (48 + n) as char
    } else {
        (87 + n) as char
    }
}

/// The bytes in lower case hexadecimal.
pub fn hex_encode(bytes: &[u8]) -> (r: String)
    ensures
        r@ == hex_text(bytes@),
{
    let mut r = String::new();
    let mut i: usize = 0;
    while i < bytes.len()
        invariant
            i <= bytes.len(),
            r@ == hex_text(bytes@.take(i as int)),
        decreases bytes.len() - i,
    {
        let byte = bytes[i];
        r.push(hex_digit(byte / 16));
        r.push(hex_digit(byte % 16));
        assert(r@ =~= hex_text(bytes@.take(i + 1)));
        i += 1;
    }
    assert(bytes@.take(bytes@.len() as int) =~= bytes@);
    r
}

/// The sixteen digits differ from one another.
proof fn lemma_hex_digits_differ(m: int, n: int)
    requires
        0 <= m < 16,
        0 <= n < 16,
        hex_digit_spec(m) == hex_digit_spec(n),
    ensures
        m == n,
{
    reveal_strlit("0123456789abcdef");
}

/// The bytes can be read back: two byte strings with the same hexadecimal text are equal.
pub proof fn hex_is_injective(a: Seq<u8>, b: Seq<u8>)
    requires
        hex_text(a) == hex_text(b),
    ensures
        a == b,
{
    assert(hex_text(a).len() == 2 * a.len());
    assert(hex_text(b).len() == 2 * b.len());
    assert forall|k: int| 0 <= k < a.len() implies a[k] == b[k] by {
        assert((2 * k) / 2 == k && (2 * k + 1) / 2 == k && (2 * k) % 2 == 0 && (2 * k + 1) % 2
            == 1);
        assert(hex_text(a)[2 * k] == hex_digit_spec(a[k] as int / 16));
        assert(hex_text(b)[2 * k] == hex_digit_spec(b[k] as int / 16));
        assert(hex_text(a)[2 * k + 1] == hex_digit_spec(a[k] as int % 16));
        assert(hex_text(b)[2 * k + 1] == hex_digit_spec(b[k] as int % 16));
        lemma_hex_digits_differ(a[k] as int / 16, b[k] as int / 16);
        lemma_hex_digits_differ(a[k] as int % 16, b[k] as int % 16);
    }
    assert(a =~= b);
}

} // verus!
