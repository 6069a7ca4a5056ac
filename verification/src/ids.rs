//! Random identifiers.

use uuid::Uuid;
use vstd::prelude::*;

verus! {

/// Whether a character is a lower-case hexadecimal digit.
pub open spec fn is_hex_char(c: char) -> bool {
    ('0' <= c && c <= '9') || ('a' <= c && c <= 'f')
}

/// The shape of a random UUID: groups of 8, 4, 4, 4 and 12 lower-case
/// hexadecimal digits with hyphens between them, with the version digit `4`
/// and a variant digit from `8` to `b`.
pub open spec fn is_uuid_v4(s: Seq<char>) -> bool {
    &&& s.len() == 36
    &&& forall|i: int|
        0 <= i < 36 ==> if i == 8 || i == 13 || i == 18 || i == 23 {
            #[trigger] s[i] == '-'
        } else {
            is_hex_char(s[i])
        }
    &&& s[14] == '4'
    &&& (s[19] == '8' || s[19] == '9' || s[19] == 'a' || s[19] == 'b')
}

/// Whether a text can be that of a UUID that was drawn at random.
pub uninterp spec fn may_be_drawn(s: Seq<char>) -> bool;

/// Whether a text is a UUID that was drawn at random.
pub open spec fn is_fresh_id(s: Seq<char>) -> bool {
    is_uuid_v4(s) && may_be_drawn(s)
}

/// `uuid::Uuid::new_v4`, written by its `Display`. The digits are drawn at
/// random: only the shape of the text is claimed of them. A system that has no
/// random bytes to give makes it panic.
#[verifier::external_body]
pub(crate) fn new_uuid() -> (id: String)
    ensures
        is_uuid_v4(id@),
        may_be_drawn(id@),
{
    Uuid::new_v4().to_string()
}

/// A source of random identifiers, which knows what has been drawn from it.
pub struct IdSource {
    drawn: Ghost<Seq<Seq<char>>>,
}

impl IdSource {
    /// The identifiers drawn so far, in order.
    pub closed spec fn drawn(&self) -> Seq<Seq<char>> {
        self.drawn@
    }

    /// A source from which nothing has been drawn.
    pub fn new() -> (source: Self)
        ensures
            source.drawn() == Seq::<Seq<char>>::empty(),
    {
        IdSource { drawn: Ghost(Seq::empty()) }
    }

    /// Draws an identifier.
    pub fn draw(&mut self) -> (id: String)
        ensures
            is_fresh_id(id@),
            final(self).drawn() == old(self).drawn().push(id@),
    {
        let id = new_uuid();
        self.drawn = Ghost(self.drawn@.push(id@));
        id
    }
}

/// A fresh id was drawn at random and has the shape of a UUID: 36 characters, a hyphen after
/// eight, four, four and four digits, and hexadecimal digits everywhere else.
pub proof fn law_fresh_id_is_a_drawn_uuid(s: Seq<char>)
    requires
        is_fresh_id(s),
    ensures
        may_be_drawn(s),
        s.len() == 36,
        s[8] == '-' && s[13] == '-' && s[18] == '-' && s[23] == '-',
        s[14] == '4',
        forall|i: int|
            0 <= i < 36 && i != 8 && i != 13 && i != 18 && i != 23 ==> ('0' <= #[trigger] s[i] <= '9') || ('a' <= s[i]
                <= 'f'),
{
}

} // verus!
