//! Random bytes.
use rand::rngs::{EntropyRng, StdRng};
use rand::{RngCore, SeedableRng};
use vstd::prelude::*;

verus! {

/// The error of the random number generators.
#[verifier::external_type_specification]
#[verifier::external_body]
pub struct ExRandError(rand::Error);

/// Fills `dest` by `rand`'s `StdRng::fill_bytes`, from a generator that
/// `StdRng::from_rng` has seeded from `EntropyRng`.
///
/// Claimed without proof: `dest` keeps its length, and also its contents where no
/// source of entropy could be read, which is the one error there is. What the
/// bytes are is left to chance, and whether there is entropy to the machine.
#[verifier::external_body]
pub(crate) fn fill_random(dest: &mut Vec<u8>) -> (filled: Result<(), rand::Error>)
    ensures
        final(dest)@.len() == old(dest)@.len(),
        filled is Err ==> final(dest)@ == old(dest)@,
{
    let mut rng = StdRng::from_rng(EntropyRng::new())?;
    rng.fill_bytes(dest);
    Ok(())
}

/// Draws `count` random bytes. They are what [`fill_random`] fills in, and there are
/// none only where it has no entropy.
pub(crate) fn draw(count: usize) -> (drawn: Result<Vec<u8>, rand::Error>)
    ensures
        match drawn {
            Ok(bytes) => {
                &&& bytes@.len() == count
                &&& exists|dest: &mut Vec<u8>, filled: Result<(), rand::Error>| #[trigger]
                    call_ensures(fill_random, (dest,), filled) && filled is Ok && final(dest)@
                        == bytes@
            },
            Err(_) => exists|dest: &mut Vec<u8>, filled: Result<(), rand::Error>| #[trigger]
                call_ensures(fill_random, (dest,), filled) && filled is Err,
        },
{
    let mut bytes: Vec<u8> = vec![0u8; count];
    match fill_random(&mut bytes) {
        Ok(_) => Ok(bytes),
        Err(error) => Err(error),
    }
}

/// Drawing `count` random bytes may give `bytes`.
pub closed spec fn may_be_drawn(count: usize, bytes: Seq<u8>) -> bool {
    exists|drawn: Result<Vec<u8>, rand::Error>| #[trigger]
        call_ensures(draw, (count,), drawn) && drawn is Ok && drawn->Ok_0@ == bytes
}

/// Drawing `count` random bytes may fail for want of entropy.
pub closed spec fn may_lack_entropy(count: usize) -> bool {
    exists|drawn: Result<Vec<u8>, rand::Error>| #[trigger]
        call_ensures(draw, (count,), drawn) && drawn is Err
}

/// Drawing may give what a call of [`draw`] gives, and nothing else.
pub(crate) proof fn lemma_drawing(count: usize)
    ensures
        forall|bytes: Seq<u8>| #[trigger]
            may_be_drawn(count, bytes) <==> exists|
                drawn: Result<Vec<u8>, rand::Error>,
            | #[trigger]
                call_ensures(draw, (count,), drawn) && drawn is Ok && drawn->Ok_0@ == bytes,
        may_lack_entropy(count) <==> exists|drawn: Result<Vec<u8>, rand::Error>| #[trigger]
            call_ensures(draw, (count,), drawn) && drawn is Err,
{
}

} // verus!
