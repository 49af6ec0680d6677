//! The fallible entropy interface behind the promotion policy's tie-break.
//!
//! The tick processor takes a plain entropy word each tick and uses it to
//! pick which pending account to promote. Where that word comes from is the
//! host's choice: a randomness beacon carried over from older deployments,
//! or no randomness at all. This module names the two choices.

use vstd::prelude::*;

verus! {

/// Error returned when no entropy is supplied to callers.
#[derive(Clone, Copy, PartialEq, Eq, Structural, Debug)]
pub enum RandomnessError {
    /// The source deliberately supplies no randomness.
    Unavailable,
}

/// Restricts who may implement [`MaybeRandomness`]: only the two sources
/// this module provides are meant to exist.
pub trait Sealed {}

/// A fallible entropy source.
///
/// A failing draw is not an error of the processor: callers fall back to a
/// deterministic tie-break (see [`promotion_entropy`]).
pub trait MaybeRandomness: Sealed {
    /// What [`Self::random`] returns for a given subject.
    spec fn random_spec(&self, subject: Seq<u8>) -> Result<(u64, u64), RandomnessError>;

    /// Draw entropy for `subject`: an entropy word and the block number it
    /// was produced at, or an error when the source supplies none.
    fn random(&self, subject: &[u8]) -> (r: Result<(u64, u64), RandomnessError>)
        ensures
            r == self.random_spec(subject@),
    ;
}

/// Hands out the randomness word the host's beacon produced.
///
/// This exists only to keep old deployments going: a beacon word is public
/// on the ledger, so it is a poor tie-break secret. Prefer [`NoRandomness`].
pub struct UnsafeDeprecatedRandomness {
    /// The entropy word the host's beacon produced.
    pub output: u64,
    /// The block number the word was produced at.
    pub block_number: u64,
}

impl Sealed for UnsafeDeprecatedRandomness {

}

impl MaybeRandomness for UnsafeDeprecatedRandomness {
    open spec fn random_spec(&self, subject: Seq<u8>) -> Result<(u64, u64), RandomnessError> {
        Ok((self.output, self.block_number))
    }

    fn random(&self, _subject: &[u8]) -> (r: Result<(u64, u64), RandomnessError>) {
        Ok((self.output, self.block_number))
    }
}

/// Supplies no randomness: the safe default. Every draw fails, and the
/// promotion tie-break falls back to its deterministic choice.
pub struct NoRandomness;

impl Sealed for NoRandomness {

}

impl MaybeRandomness for NoRandomness {
    open spec fn random_spec(&self, subject: Seq<u8>) -> Result<(u64, u64), RandomnessError> {
        Err(RandomnessError::Unavailable)
    }

    fn random(&self, _subject: &[u8]) -> (r: Result<(u64, u64), RandomnessError>) {
        Err(RandomnessError::Unavailable)
    }
}

/// The promotion entropy to put into a tick environment: the drawn entropy
/// word, or zero — the first queue entry — when the source supplies none.
pub fn promotion_entropy(drawn: Result<(u64, u64), RandomnessError>) -> (r: u64)
    ensures
        r == match drawn {
            Ok((word, _)) => word,
            Err(_) => 0u64,
        },
{
    match drawn {
        Ok((word, _)) => word,
        Err(_) => 0,
    }
}

} // verus!
