//! Bluetooth UUIDs.
use vstd::prelude::*;

verus! {

/// A 128-bit UUID. Its view is its value as a number, the first byte of the
/// UUID being the most significant.
#[derive(Debug, Clone, Copy, PartialEq, Eq, Hash, Structural)]
pub struct Uuid(u128);

impl View for Uuid {
    type V = u128;

    closed spec fn view(&self) -> u128 {
        self.0
    }
}

/// What parsing `text` as a UUID gives: its value, or nothing where `text`
/// is not a UUID in any of the accepted forms.
pub uninterp spec fn parsed_uuid(text: Seq<char>) -> Option<u128>;

/// The lower-case hexadecimal digit for `d`.
pub open spec fn hex_digit(d: int) -> char {
    if d < 10 {
        ('0' as int + d) as char
    } else {
        ('a' as int + d - 10) as char
    }
}

/// The `k`th of the 32 hexadecimal digits of `value`, from the left.
pub open spec fn nibble(value: u128, k: int) -> int {
    (value as int / vstd::arithmetic::power::pow(16, (31 - k) as nat)) % 16
}

/// How many hyphens stand left of position `i` of the hyphenated form.
pub open spec fn hyphens_before(i: int) -> int {
    if i <= 8 {
        0
    } else if i <= 13 {
        1
    } else if i <= 18 {
        2
    } else if i <= 23 {
        3
    } else {
        4
    }
}

/// The hyphenated lower-case form, grouped 8-4-4-4-12.
pub open spec fn uuid_text(value: u128) -> Seq<char> {
    Seq::new(
        36,
        |i: int|
            if i == 8 || i == 13 || i == 18 || i == 23 {
                '-'
            } else {
                hex_digit(nibble(value, i - hyphens_before(i)))
            },
    )
}

/// `uuid::Uuid::parse_str`: the value it reads out of `text`, `None` for its
/// error. Which texts it accepts is left to the name; that it reads back the
/// hyphenated form is stated with [`write_uuid`].
#[verifier::external_body]
fn parse_uuid(text: &str) -> (parsed: Option<u128>)
    ensures
        parsed == parsed_uuid(text@),
{
    match uuid::Uuid::parse_str(text) {
        Ok(uuid) => Some(uuid.as_u128()),
        Err(_) => None,
    }
}

/// `uuid::Uuid`'s `Display`: the hyphenated lower-case form, which
/// `uuid::Uuid::parse_str` reads back as the same UUID.
#[verifier::external_body]
fn write_uuid(value: u128) -> (text: String)
    ensures
        text@ == uuid_text(value),
        parsed_uuid(text@) == Some(value),
{
    uuid::Uuid::from_u128(value).to_string()
}

impl Uuid {
    /// The UUID with the given value.
    pub fn from_u128(value: u128) -> (uuid: Uuid)
        ensures
            uuid@ == value,
    {
        Uuid(value)
    }

    /// The UUID's value.
    pub fn as_u128(&self) -> (value: u128)
        ensures
            value == self@,
    {
        self.0
    }

    /// The UUID whose bits are all zero.
    pub fn nil() -> (uuid: Uuid)
        ensures
            uuid@ == 0,
    {
        Uuid(0)
    }

    /// Read a UUID from text.
    pub fn parse_str(text: &str) -> (parsed: Option<Uuid>)
        ensures
            match parsed {
                Some(uuid) => parsed_uuid(text@) == Some(uuid@),
                None => parsed_uuid(text@) is None,
            },
    {
        match parse_uuid(text) {
            Some(value) => Some(Uuid(value)),
            None => None,
        }
    }

    /// The hyphenated lower-case form of this UUID, which
    /// [`parse_str`](Self::parse_str) reads back as the same UUID.
    pub fn text(&self) -> (text: String)
        ensures
            text@ == uuid_text(self@),
            parsed_uuid(text@) == Some(self@),
    {
        write_uuid(self.0)
    }
}

/// The UUIDs among `pieces`; empty pieces and those that are no UUID are
/// skipped.
pub open spec fn uuids_in(pieces: Seq<Seq<char>>) -> Seq<u128>
    decreases pieces.len(),
{
    if pieces.len() == 0 {
        Seq::empty()
    } else {
        let rest = uuids_in(pieces.drop_last());
        match parsed_uuid(pieces.last()) {
            Some(value) if pieces.last().len() > 0 => rest.push(value),
            _ => rest,
        }
    }
}

/// The values of `uuids`.
pub open spec fn values(uuids: Seq<Uuid>) -> Seq<u128> {
    uuids.map_values(|u: Uuid| u@)
}

/// Read a comma-separated list of UUIDs. Empty entries and those that are no
/// UUID are skipped.
pub fn parse_list(text: &str) -> (uuids: Vec<Uuid>)
    ensures
        values(uuids@) == uuids_in(crate::text::pieces(text@, ',')),
{
    let length: usize = text.unicode_len();
    let mut uuids: Vec<Uuid> = Vec::new();
    let mut from: usize = 0;
    let mut i: usize = 0;
    let ghost mut done: Seq<Seq<char>> = Seq::empty();
    proof {
        assert(text@.take(0) =~= Seq::empty());
        assert(text@.subrange(0, 0) =~= Seq::empty());
        assert(seq![Seq::<char>::empty()] =~= done.push(text@.subrange(0, 0)));
        assert(values(uuids@) =~= Seq::empty());
    }
    while i < length
        invariant
            length == text@.len(),
            from <= i <= length,
            crate::text::pieces(text@.take(i as int), ',') == done.push(
                text@.subrange(from as int, i as int),
            ),
            values(uuids@) == uuids_in(done),
        decreases length - i,
    {
        let c = text.get_char(i);
        proof {
            assert(text@.take(i + 1).drop_last() =~= text@.take(i as int));
        }
        if c == ',' {
            let piece = text.substring_char(from, i);
            push_parsed(&mut uuids, piece);
            proof {
                let closed = done.push(text@.subrange(from as int, i as int));
                assert(closed.drop_last() =~= done);
                done = closed;
                assert(text@.subrange(i + 1, i + 1) =~= Seq::empty());
            }
            from = i + 1;
        } else {
            proof {
                let piece = text@.subrange(from as int, i as int);
                assert(piece.push(c) =~= text@.subrange(from as int, i + 1));
                assert(done.push(piece).update(done.len() as int, piece.push(c)) =~= done.push(
                    piece.push(c),
                ));
            }
        }
        i += 1;
    }
    let piece = text.substring_char(from, length);
    push_parsed(&mut uuids, piece);
    proof {
        assert(text@.take(length as int) =~= text@);
        let closed = done.push(text@.subrange(from as int, length as int));
        assert(closed.drop_last() =~= done);
    }
    uuids
}

/// Add the UUID that `piece` gives, if it gives one.
fn push_parsed(uuids: &mut Vec<Uuid>, piece: &str)
    ensures
        forall|done: Seq<Seq<char>>|
            values(old(uuids)@) == uuids_in(done) ==> values(final(uuids)@) == #[trigger] uuids_in(
                done.push(piece@),
            ),
{
    let ghost before = uuids@;
    if !piece.is_empty() {
        match Uuid::parse_str(piece) {
            Some(uuid) => {
                uuids.push(uuid);
                assert(values(uuids@) =~= values(before).push(uuid@));
            },
            None => {},
        }
    }
    proof {
        assert forall|done: Seq<Seq<char>>| values(before) == uuids_in(done) implies values(
            uuids@,
        ) == #[trigger] uuids_in(done.push(piece@)) by {
            assert(done.push(piece@).drop_last() =~= done);
        }
    }
}

/// The UUIDs of two lists of pieces, one behind the other, are those of the
/// first followed by those of the second.
pub proof fn law_pieces_add_up(first: Seq<Seq<char>>, second: Seq<Seq<char>>)
    ensures
        uuids_in(first + second) == uuids_in(first) + uuids_in(second),
    decreases second.len(),
{
    if second.len() == 0 {
        assert(first + second =~= first);
        assert(uuids_in(first) + uuids_in(second) =~= uuids_in(first));
    } else {
        law_pieces_add_up(first, second.drop_last());
        assert((first + second).drop_last() =~= first + second.drop_last());
        assert(uuids_in(first + second) =~= uuids_in(first) + uuids_in(second));
    }
}

/// Each piece that is not empty and reads as a UUID contributes that UUID, in
/// its place, whatever stands before and behind it; another contributes nothing.
pub proof fn law_each_readable_piece_is_a_uuid(
    before: Seq<Seq<char>>,
    piece: Seq<char>,
    after: Seq<Seq<char>>,
)
    ensures
        uuids_in(before + seq![piece] + after) == uuids_in(before) + (if piece.len() > 0
            && parsed_uuid(piece) is Some {
            seq![parsed_uuid(piece).unwrap()]
        } else {
            Seq::empty()
        }) + uuids_in(after),
        uuids_in(Seq::empty()).len() == 0,
{
    let one = seq![piece];
    law_pieces_add_up(before + one, after);
    law_pieces_add_up(before, one);
    assert(one.drop_last() =~= Seq::empty());
    assert(uuids_in(one.drop_last()).len() == 0);
    assert(one.last() == piece);
    if piece.len() > 0 && parsed_uuid(piece) is Some {
        assert(uuids_in(one) =~= seq![parsed_uuid(piece).unwrap()]);
    } else {
        assert(uuids_in(one) =~= Seq::empty());
    }
}

/// A comma-separated list reads as what stands before a comma followed by what
/// stands behind it; without a comma, as the one UUID that it is, if it is one.
pub proof fn law_lists_are_read_in_order(before: Seq<char>, after: Seq<char>)
    ensures
        uuids_in(crate::text::pieces(before.push(',') + after, ',')) == uuids_in(
            crate::text::pieces(before, ','),
        ) + uuids_in(crate::text::pieces(after, ',')),
        !before.contains(',') && before.len() > 0 && parsed_uuid(before) is Some ==> uuids_in(
            crate::text::pieces(before, ','),
        ) == seq![parsed_uuid(before).unwrap()],
{
    crate::text::law_pieces_are_between_separators(before, ',', after);
    law_pieces_add_up(crate::text::pieces(before, ','), crate::text::pieces(after, ','));
    law_each_readable_piece_is_a_uuid(Seq::empty(), before, Seq::empty());
    let none = Seq::<Seq<char>>::empty();
    assert(none + seq![before] + none =~= seq![before]);
    if before.len() > 0 && parsed_uuid(before) is Some {
        let value = parsed_uuid(before).unwrap();
        assert(uuids_in(none) + seq![value] + uuids_in(none) =~= seq![value]);
    }
}

/// The values of UUIDs are one for each, in order.
pub proof fn law_each_uuid_has_its_value(uuids: Seq<Uuid>, i: int)
    ensures
        values(uuids).len() == uuids.len(),
        0 <= i < uuids.len() ==> values(uuids)[i] == uuids[i]@,
{
}

} // verus!
