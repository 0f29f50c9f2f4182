//! The ids of new streams.
use vstd::prelude::*;

verus! {

/// How many characters the id of a new stream has.
pub const ID_LENGTH: usize = 6;

/// An id as a new stream gets it: six small Latin letters.
pub open spec fn is_stream_id(id: Seq<char>) -> bool {
    &&& id.len() == ID_LENGTH
    &&& forall|i: int| 0 <= i < id.len() ==> 'a' <= #[trigger] id[i] && id[i] <= 'z'
}

/// `nanoid::format` with `nanoid::rngs::default` as its source of randomness:
/// a random text of `size` characters, each taken from `alphabet`. It panics
/// on an alphabet of more than 255 characters, and may not return on an empty
/// one, on a `size` of zero, or where a character takes more than one byte;
/// that the system has randomness to give, no argument decides. Which of the
/// texts comes out is left to chance, and nothing is said of it.
#[verifier::external_body]
fn random_id(alphabet: &[char], size: usize) -> (id: String)
    requires
        0 < alphabet@.len() <= 255,
        forall|i: int| 0 <= i < alphabet@.len() ==> (#[trigger] alphabet@[i]) as u32 <= 127,
        size > 0,
        8 * size <= usize::MAX,
    ensures
        id@.len() == size,
        forall|i: int| 0 <= i < id@.len() ==> alphabet@.contains(#[trigger] id@[i]),
{
    nanoid::format(nanoid::rngs::default, alphabet, size)
}

/// The small Latin letters, in their order.
pub open spec fn small_letters() -> Seq<char> {
    seq![
        'a', 'b', 'c', 'd', 'e', 'f', 'g', 'h', 'i', 'j', 'k', 'l', 'm',
        'n', 'o', 'p', 'q', 'r', 's', 't', 'u', 'v', 'w', 'x', 'y', 'z',
    ]
}

/// The small Latin letters, in their order.
pub fn letters() -> (alphabet: [char; 26])
    ensures
        alphabet@ == small_letters(),
{
    let alphabet: [char; 26] = [
        'a', 'b', 'c', 'd', 'e', 'f', 'g', 'h', 'i', 'j', 'k', 'l', 'm',
        'n', 'o', 'p', 'q', 'r', 's', 't', 'u', 'v', 'w', 'x', 'y', 'z',
    ];
    assert(alphabet@ =~= small_letters());
    alphabet
}

/// A random id for a new stream, drawn from all small Latin letters.
pub fn new_stream_id() -> (id: String)
    ensures
        is_stream_id(id@),
{
    let alphabet = letters();
    random_id(&alphabet, ID_LENGTH)
}

} // verus!
