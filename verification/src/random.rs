//! The one source of chance the interpreter uses.
use rand::Rng;
use vstd::prelude::*;

verus! {

/// A byte from the thread-local generator of `rand`:
/// `rand::thread_rng().gen::<u8>()`, which takes the low byte of the
/// generator's next 32-bit output. Nothing is stated of the value: it is any
/// byte. (`thread_rng` panics when the generator cannot be seeded from the
/// operating system; nothing here rules that out.)
#[verifier::external_body]
pub(crate) fn random_byte() -> (b: u8) {
    rand::thread_rng().gen::<u8>()
}

} // verus!
