//! Text: comparing strings and writing numbers out.
use vstd::prelude::*;

verus! {

/// The decimal digit for `d`.
pub open spec fn digit(d: nat) -> char {
    ('0' as int + d) as char
}

/// `n` in decimal, without leading zeros.
pub open spec fn decimal(n: nat) -> Seq<char>
    decreases n,
{
    if n < 10 {
        seq![digit(n)]
    } else {
        decimal(n / 10).push(digit(n % 10))
    }
}

/// `n` in decimal, with a minus sign where it is negative.
pub open spec fn signed_decimal(n: int) -> Seq<char> {
    if n < 0 {
        seq!['-'] + decimal((-n) as nat)
    } else {
        decimal(n as nat)
    }
}

/// `needle` stands somewhere in `text`.
pub open spec fn occurs(needle: Seq<char>, text: Seq<char>) -> bool {
    exists|i: int|
        0 <= i <= text.len() - needle.len() && #[trigger] text.subrange(i, i + needle.len())
            == needle
}

/// `text` begins with `prefix`.
pub open spec fn begins_with(text: Seq<char>, prefix: Seq<char>) -> bool {
    prefix.len() <= text.len() && text.take(prefix.len() as int) == prefix
}

/// Whether `text` begins with `prefix`.
pub(crate) fn starts_with(text: &str, prefix: &str) -> (starts: bool)
    ensures
        starts == begins_with(text@, prefix@),
{
    let n: usize = prefix.unicode_len();
    if text.unicode_len() < n {
        return false;
    }
    let mut i: usize = 0;
    while i < n
        invariant
            i <= n,
            n == prefix@.len(),
            n <= text@.len(),
            forall|j: int| 0 <= j < i ==> text@[j] == prefix@[j],
        decreases n - i,
    {
        if text.get_char(i) != prefix.get_char(i) {
            assert(text@.take(n as int)[i as int] != prefix@[i as int]);
            return false;
        }
        i += 1;
    }
    assert(text@.take(n as int) =~= prefix@);
    true
}

/// The pieces of `text` between the separators `sep`.
pub open spec fn pieces(text: Seq<char>, sep: char) -> Seq<Seq<char>>
    decreases text.len(),
{
    if text.len() == 0 {
        seq![Seq::empty()]
    } else {
        let rest = pieces(text.drop_last(), sep);
        if text.last() == sep {
            rest.push(Seq::empty())
        } else {
            rest.update(rest.len() - 1, rest.last().push(text.last()))
        }
    }
}

/// What `text` is in lower case.
pub uninterp spec fn lowercase(text: Seq<char>) -> Seq<char>;

/// `str::to_lowercase`: the lower-case form of `text`.
#[verifier::external_body]
pub(crate) fn lowercase_text(text: &str) -> (lower: String)
    ensures
        lower@ == lowercase(text@),
{
    text.to_lowercase()
}

/// Whether `needle` stands somewhere in `text`.
pub(crate) fn contains_text(text: &str, needle: &str) -> (found: bool)
    ensures
        found == occurs(needle@, text@),
{
    let all: usize = text.unicode_len();
    let n: usize = needle.unicode_len();
    let mut i: usize = 0;
    while n <= all && i <= all - n
        invariant
            all == text@.len(),
            n == needle@.len(),
            i <= all,
            forall|j: int| 0 <= j < i ==> #[trigger] text@.subrange(j, j + n) != needle@,
        decreases all - i,
    {
        if same_text(text.substring_char(i, i + n), needle) {
            assert(text@.subrange(i as int, i + n) == needle@);
            return true;
        }
        assert(n == 0 ==> text@.subrange(i as int, i + n) =~= needle@);
        i += 1;
    }
    false
}

/// Whether two strings hold the same characters.
pub(crate) fn same_text(a: &str, b: &str) -> (same: bool)
    ensures
        same == (a@ == b@),
{
    a.to_owned() == b.to_owned()
}

/// `i128`'s `to_string`: the number in decimal.
#[verifier::external_body]
pub(crate) fn decimal_text(n: i128) -> (text: String)
    ensures
        text@ == signed_decimal(n as int),
{
    n.to_string()
}

/// A text stands in another exactly where that is some text, the first text and
/// some text.
pub proof fn law_a_part_occurs(
    before: Seq<char>,
    needle: Seq<char>,
    after: Seq<char>,
    text: Seq<char>,
)
    ensures
        occurs(needle, before + needle + after),
        occurs(needle, text) ==> exists|a: Seq<char>, b: Seq<char>| text == #[trigger] (a + needle
            + b),
        begins_with(needle + after, needle),
        begins_with(text, needle) ==> text == needle + text.skip(needle.len() as int),
        begins_with(text, needle) ==> occurs(needle, text),
{
    let whole = before + needle + after;
    let at = before.len() as int;
    assert(whole.subrange(at, at + needle.len()) =~= needle);
    if occurs(needle, text) {
        let i = choose|i: int|
            0 <= i <= text.len() - needle.len() && #[trigger] text.subrange(i, i + needle.len())
                == needle;
        let a = text.take(i);
        let b = text.skip(i + needle.len());
        assert(text =~= a + needle + b) by {
            assert(text.subrange(i, i + needle.len()) == needle);
            assert forall|j: int| 0 <= j < text.len() implies #[trigger] text[j] == (a + needle
                + b)[j] by {
                if i <= j < i + needle.len() {
                    assert(text.subrange(i, i + needle.len())[j - i] == text[j]);
                }
            }
        }
    }
    assert((needle + after).take(needle.len() as int) =~= needle);
    if begins_with(text, needle) {
        assert(text =~= text.take(needle.len() as int) + text.skip(needle.len() as int));
        assert(text.subrange(0int, 0int + needle.len()) =~= needle);
    }
}

/// Splitting at a separator gives what stands before the separator followed by
/// what stands behind it; a text without the separator is one piece.
pub proof fn law_pieces_are_between_separators(before: Seq<char>, sep: char, after: Seq<char>)
    ensures
        pieces(before.push(sep) + after, sep) == pieces(before, sep) + pieces(after, sep),
        !before.contains(sep) ==> pieces(before, sep) == seq![before],
        pieces(before, sep).len() >= 1,
    decreases before.len() + after.len(),
{
    if after.len() == 0 {
        let whole = before.push(sep);
        assert(whole + after =~= whole);
        assert(whole.drop_last() =~= before);
        assert(pieces(whole, sep) =~= pieces(before, sep) + pieces(after, sep));
    } else {
        let rest = after.drop_last();
        let whole = before.push(sep) + after;
        law_pieces_are_between_separators(before, sep, rest);
        law_pieces_are_between_separators(rest, sep, Seq::empty());
        assert(whole.drop_last() =~= before.push(sep) + rest);
        assert(whole.last() == after.last());
        assert(pieces(whole, sep) =~= pieces(before, sep) + pieces(after, sep));
    }
    lemma_one_piece(before, sep);
}

proof fn lemma_one_piece(text: Seq<char>, sep: char)
    ensures
        pieces(text, sep).len() >= 1,
        !text.contains(sep) ==> pieces(text, sep) == seq![text],
    decreases text.len(),
{
    if text.len() > 0 {
        let rest = text.drop_last();
        lemma_one_piece(rest, sep);
        if !text.contains(sep) {
            assert(text[text.len() - 1] != sep);
            assert(!rest.contains(sep)) by {
                if rest.contains(sep) {
                    let i = choose|i: int| 0 <= i < rest.len() && rest[i] == sep;
                    assert(text[i] == sep);
                }
            }
            assert(rest.push(text.last()) =~= text);
            assert(pieces(text, sep) =~= seq![text]);
        }
    } else {
        assert(text =~= Seq::empty());
    }
}

} // verus!
