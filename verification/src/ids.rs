//! Random ids for games and players.

use rand::Rng;
use vstd::prelude::*;

verus! {

/// Whether a character is an ASCII letter or digit.
pub open spec fn is_alphanumeric(c: char) -> bool {
    ('a' <= c && c <= 'z') || ('A' <= c && c <= 'Z') || ('0' <= c && c <= '9')
}

/// What an id looks like: ten ASCII letters and digits.
pub open spec fn is_game_id(id: Seq<char>) -> bool {
    id.len() == 10 && forall|i: int| 0 <= i < id.len() ==> is_alphanumeric(#[trigger] id[i])
}

/// `Rng::sample` of `rand` with the `Alphanumeric` distribution: one character drawn at
/// random from the 62 ASCII letters and digits.
#[verifier::external_body]
fn random_alphanumeric() -> (c: char)
    ensures
        is_alphanumeric(c),
{
    char::from(rand::thread_rng().sample(rand::distributions::Alphanumeric))
}

/// A fresh random id: ten characters, each drawn at random from the ASCII letters and digits.
pub fn random_id() -> (id: String)
    ensures
        is_game_id(id@),
{
    let mut id = String::new();
    let mut k: usize = 0;
    while k < 10
        invariant
            k <= 10,
            id@.len() == k,
            forall|i: int| 0 <= i < id@.len() ==> is_alphanumeric(#[trigger] id@[i]),
        decreases 10 - k,
    {
        let c = random_alphanumeric();
        id.push(c);
        k = k + 1;
    }
    id
}

} // verus!
