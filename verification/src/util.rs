//! Task identifiers, and the handle on the database.

use rusqlite::Connection;
use vstd::prelude::*;

verus! {

/// What every command runs against: the open database.
pub struct Config {
    pub conn: Connection,
}

/// The number of characters in a task identifier.
pub const ID_LENGTH: usize = 8;

/// The symbols a task identifier is drawn from.
pub const VALID_ID_CHARACTERS: [char; 16] = [
    '1', '2', '3', '4', '5', '6', '7', '8', '9', '0', 'a', 'b', 'c', 'd', 'e', 'f',
];

/// Whether `c` is one of the sixteen symbols `0`-`9`, `a`-`f`.
pub open spec fn is_id_char(c: char) -> bool {
    ('0' <= c && c <= '9') || ('a' <= c && c <= 'f')
}

/// Whether `s` has the shape of a task identifier: eight symbols of the
/// alphabet.
pub open spec fn is_task_id(s: Seq<char>) -> bool {
    &&& s.len() == ID_LENGTH
    &&& forall|i: int| 0 <= i < s.len() ==> is_id_char(#[trigger] s[i])
}

/// `nanoid::format` with the crate's default random source.
///
/// The outside function masks random bytes down to indices into `alphabet`
/// and pushes the symbol found there until the string holds `size` bytes.
/// With an alphabet of ASCII symbols every symbol is one byte, so the result
/// has `size` characters, each of them an element of `alphabet`. The bounds
/// exclude what the outside function rejects or never finishes on: an
/// alphabet of more than 255 symbols, an empty one, and a size of zero.
#[verifier::external_body]
fn nanoid_format(alphabet: &[char], size: usize) -> (id: String)
    requires
        1 <= alphabet@.len() <= 255,
        forall|i: int| 0 <= i < alphabet@.len() ==> (#[trigger] alphabet@[i]) <= '\x7f',
        1 <= size,
        8 * size <= usize::MAX,
    ensures
        id@.len() == size,
        forall|i: int| 0 <= i < id@.len() ==> alphabet@.contains(#[trigger] id@[i]),
{
    nanoid::format(nanoid::rngs::default, alphabet, size)
}

/// A fresh task identifier: eight symbols, each drawn at random from the
/// alphabet `1234567890abcdef`.
pub fn random_id() -> (id: String)
    ensures
        is_task_id(id@),
{
    let id = nanoid_format(VALID_ID_CHARACTERS.as_slice(), ID_LENGTH);
    assert forall|i: int| 0 <= i < id@.len() implies is_id_char(#[trigger] id@[i]) by {
        let at = choose|at: int| 0 <= at < 16 && VALID_ID_CHARACTERS@[at] == id@[i];
        assert(is_id_char(VALID_ID_CHARACTERS@[at]));
    }
    id
}

} // verus!
