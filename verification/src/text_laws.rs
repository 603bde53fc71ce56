//! What holds of the text primitives, said of single characters and their places.

use vstd::prelude::*;

use crate::quoting::{hex_digit_spec, hex_text};
use crate::text::{
    after_first, ascii_lower, is_white_space_spec, text_before, trimmed, trimmed_end,
    trimmed_start, without_leading, without_prefixes,
};

verus! {

/// White space is exactly these twenty-five characters.
pub proof fn white_space_is_listed(c: char)
    ensures
        is_white_space_spec(c) <==> set![
            '\t', '\n', '\u{b}', '\u{c}', '\r', ' ', '\u{85}', '\u{a0}', '\u{1680}',
            '\u{2000}', '\u{2001}', '\u{2002}', '\u{2003}', '\u{2004}', '\u{2005}', '\u{2006}',
            '\u{2007}', '\u{2008}', '\u{2009}', '\u{200a}', '\u{2028}', '\u{2029}', '\u{202f}',
            '\u{205f}', '\u{3000}',
        ].contains(c),
{
}

/// Trimming the start drops the white space before the first other character, and nothing else.
pub proof fn trim_start_drops_leading_white_space(s: Seq<char>)
    ensures
        exists|k: int|
            {
                &&& 0 <= k <= s.len()
                &&& trimmed_start(s) == #[trigger] s.skip(k)
                &&& forall|i: int| 0 <= i < k ==> is_white_space_spec(#[trigger] s[i])
                &&& k < s.len() ==> !is_white_space_spec(s[k])
            },
    decreases s.len(),
{
    if s.len() > 0 && is_white_space_spec(s[0]) {
        let tail = s.drop_first();
        trim_start_drops_leading_white_space(tail);
        let k = choose|k: int|
            {
                &&& 0 <= k <= tail.len()
                &&& trimmed_start(tail) == #[trigger] tail.skip(k)
                &&& forall|i: int| 0 <= i < k ==> is_white_space_spec(#[trigger] tail[i])
                &&& k < tail.len() ==> !is_white_space_spec(tail[k])
            };
        assert(tail.skip(k) =~= s.skip(k + 1));
        assert forall|i: int| 0 <= i < k + 1 implies is_white_space_spec(#[trigger] s[i]) by {
            if i > 0 {
                assert(s[i] == tail[i - 1]);
            }
        }
        if k < tail.len() {
            assert(s[k + 1] == tail[k]);
        }
    } else {
        assert(s.skip(0) =~= s);
    }
}

proof fn lemma_trim_end_drops_trailing_white_space(s: Seq<char>)
    ensures
        trimmed_end(s).len() <= s.len(),
        trimmed_end(s) == s.take(trimmed_end(s).len() as int),
        forall|i: int| trimmed_end(s).len() <= i < s.len() ==> is_white_space_spec(#[trigger] s[i]),
        trimmed_end(s).len() > 0 ==> !is_white_space_spec(s[trimmed_end(s).len() - 1]),
    decreases s.len(),
{
    if s.len() > 0 && is_white_space_spec(s.last()) {
        let front = s.drop_last();
        lemma_trim_end_drops_trailing_white_space(front);
        let n = trimmed_end(s).len() as int;
        assert(front.take(n) =~= s.take(n));
        assert forall|i: int| n <= i < s.len() implies is_white_space_spec(#[trigger] s[i]) by {
            if i < front.len() {
                assert(s[i] == front[i]);
            }
        }
        if n > 0 {
            assert(s[n - 1] == front[n - 1]);
        }
    } else {
        assert(s.take(s.len() as int) =~= s);
    }
}

/// Trimming drops the white space before the first and after the last other character, and nothing
/// else.
pub proof fn trim_drops_outer_white_space(s: Seq<char>)
    ensures
        exists|a: int, b: int|
            {
                &&& 0 <= a <= b <= s.len()
                &&& trimmed(s) == #[trigger] s.subrange(a, b)
                &&& forall|i: int|
                    0 <= i < a || b <= i < s.len() ==> is_white_space_spec(#[trigger] s[i])
                &&& a < b ==> !is_white_space_spec(s[a]) && !is_white_space_spec(s[b - 1])
            },
{
    trim_start_drops_leading_white_space(s);
    let a = choose|k: int|
        {
            &&& 0 <= k <= s.len()
            &&& trimmed_start(s) == #[trigger] s.skip(k)
            &&& forall|i: int| 0 <= i < k ==> is_white_space_spec(#[trigger] s[i])
            &&& k < s.len() ==> !is_white_space_spec(s[k])
        };
    let rest = s.skip(a);
    lemma_trim_end_drops_trailing_white_space(rest);
    let b = a + trimmed_end(rest).len();
    assert(trimmed(s) =~= s.subrange(a, b));
    assert forall|i: int| 0 <= i < a || b <= i < s.len() implies is_white_space_spec(
        #[trigger] s[i],
    ) by {
        if i >= b {
            assert(s[i] == rest[i - a]);
        }
    }
    if a < b {
        assert(s[b - 1] == rest[b - 1 - a]);
    }
}

/// Dropping a leading character drops all of its leading occurrences, and nothing else.
pub proof fn only_leading_characters_are_dropped(leading: Seq<char>, rest: Seq<char>, c: char)
    requires
        forall|i: int| 0 <= i < leading.len() ==> #[trigger] leading[i] == c,
        rest.len() > 0 ==> rest[0] != c,
    ensures
        without_leading(leading + rest, c) == rest,
    decreases leading.len(),
{
    if leading.len() == 0 {
        assert(leading + rest =~= rest);
    } else {
        let tail = leading.drop_first();
        assert forall|i: int| 0 <= i < tail.len() implies #[trigger] tail[i] == c by {
            assert(tail[i] == leading[i + 1]);
        }
        only_leading_characters_are_dropped(tail, rest, c);
        assert((leading + rest).drop_first() =~= tail + rest);
    }
}

/// Dropping a prefix drops it as often as it is repeated: once more in front changes nothing, and a
/// text that does not start with it stays as it is.
pub proof fn only_leading_prefixes_are_dropped(prefix: Seq<char>, rest: Seq<char>)
    ensures
        without_prefixes(prefix + rest, prefix) == without_prefixes(rest, prefix),
        !prefix.is_prefix_of(rest) ==> without_prefixes(rest, prefix) == rest,
        prefix.len() == 0 ==> without_prefixes(rest, prefix) == rest,
{
    if prefix.len() > 0 {
        assert((prefix + rest).subrange(0, prefix.len() as int) =~= prefix);
        assert((prefix + rest).skip(prefix.len() as int) =~= rest);
    } else {
        assert(prefix + rest =~= rest);
    }
}

/// A text is split at the first occurrence of a character: what follows it is given, whatever that
/// holds; and of a text without the character nothing is given.
pub proof fn split_is_at_the_first_occurrence(before: Seq<char>, c: char, after: Seq<char>)
    requires
        !before.contains(c),
    ensures
        after_first(before + seq![c] + after, c) == Some(after),
        after_first(before, c) is None,
    decreases before.len(),
{
    let all = before + seq![c] + after;
    if before.len() == 0 {
        assert(all.drop_first() =~= after);
    } else {
        let tail = before.drop_first();
        assert(before.contains(before[0]));
        assert(!tail.contains(c)) by {
            if tail.contains(c) {
                let k = choose|k: int| 0 <= k < tail.len() && tail[k] == c;
                assert(before[k + 1] == c);
            }
        }
        split_is_at_the_first_occurrence(tail, c, after);
        assert(all.drop_first() =~= tail + seq![c] + after);
    }
}

/// Lower case keeps the number of characters and changes the twenty-six letters from `A` to `Z`
/// alone, each by thirty-two code points.
pub proof fn lower_case_changes_ascii_letters_alone(s: Seq<char>)
    ensures
        ascii_lower(s).len() == s.len(),
        forall|i: int|
            0 <= i < s.len() ==> if 65 <= (#[trigger] s[i]) as int <= 90 {
                ascii_lower(s)[i] as int == s[i] as int + 32
            } else {
                ascii_lower(s)[i] == s[i]
            },
{
}

/// The order of texts is decided where they first differ: by the smaller code point, and a text
/// that ends there comes first.
pub proof fn order_is_decided_at_the_first_difference(a: Seq<char>, b: Seq<char>, k: int)
    requires
        0 <= k <= a.len(),
        k <= b.len(),
        a.take(k) == b.take(k),
        k < a.len() && k < b.len() ==> a[k] != b[k],
    ensures
        text_before(a, b) <==> k < b.len() && (k == a.len() || (k < a.len() && (a[k] as int)
            < b[k] as int)),
    decreases k,
{
    if k > 0 {
        assert(a.take(k)[0] == a[0]);
        assert(b.take(k)[0] == b[0]);
        assert(a.take(k).drop_first() =~= a.drop_first().take(k - 1));
        assert(b.take(k).drop_first() =~= b.drop_first().take(k - 1));
        order_is_decided_at_the_first_difference(a.drop_first(), b.drop_first(), k - 1);
    }
}

/// Each byte stands as two digits in its place, the upper four bits first: from `0` to `9`, then
/// from `a` to `f`.
pub proof fn bytes_are_written_in_their_places(bytes: Seq<u8>, i: int)
    ensures
        hex_text(bytes).len() == 2 * bytes.len(),
        0 <= i < bytes.len() ==> ({
            let upper = bytes[i] as int / 16;
            let lower = bytes[i] as int % 16;
            &&& hex_text(bytes)[2 * i] as int == if upper < 10 {
                48 + upper
            } else {
                87 + upper
            }
            &&& hex_text(bytes)[2 * i + 1] as int == if lower < 10 {
                48 + lower
            } else {
                87 + lower
            }
        }),
{
    reveal_strlit("0123456789abcdef");
    assert((2 * i) / 2 == i && (2 * i + 1) / 2 == i && (2 * i) % 2 == 0 && (2 * i + 1) % 2 == 1);
    if 0 <= i < bytes.len() {
        assert(hex_text(bytes)[2 * i] == hex_digit_spec(bytes[i] as int / 16));
        assert(hex_text(bytes)[2 * i + 1] == hex_digit_spec(bytes[i] as int % 16));
    }
}

} // verus!
