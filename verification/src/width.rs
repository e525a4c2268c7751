//! The size capability and its primitive implementations.

use anchor_lang::prelude::Pubkey;
use vstd::prelude::*;

verus! {

/// Bytes that the hosting runtime reserves in front of the data of every
/// account to tell account types apart.
pub const DISCRIMINATOR_LEN: usize = 8;

/// `anchor_lang::prelude::Pubkey`, the public-key type of the hosting
/// runtime. It is taken on trust as an opaque type: nothing is claimed of its
/// values, and no function of it is called.
#[verifier::external_type_specification]
#[verifier::external_body]
pub struct ExPubkey(Pubkey);

/// A type whose values occupy a fixed number of bytes.
///
/// `spec_size` is the width as a mathematical number; `size` computes it and
/// `size_padded` adds the discriminator. Neither depends on a value of the
/// type, so both can be used before any value exists.
pub trait SizedData {
    /// The width of the type in bytes.
    spec fn spec_size() -> nat;

    /// Returns the raw width of the type in bytes.
    fn size() -> (n: usize)
        requires
            Self::spec_size() <= usize::MAX,
        ensures
            n == Self::spec_size(),
    ;

    /// Returns the width including the 8-byte discriminator.
    fn size_padded() -> (n: usize)
        requires
            DISCRIMINATOR_LEN + Self::spec_size() <= usize::MAX,
        ensures
            n == DISCRIMINATOR_LEN + Self::spec_size(),
    {
        DISCRIMINATOR_LEN + Self::size()
    }
}

impl SizedData for u64 {
    open spec fn spec_size() -> nat {
        8
    }

    fn size() -> (n: usize)
        ensures
            n == 8,
    {
        8
    }
}

impl SizedData for [u8; 32] {
    open spec fn spec_size() -> nat {
        32
    }

    fn size() -> (n: usize)
        ensures
            n == 32,
    {
        32
    }
}

impl SizedData for Pubkey {
    open spec fn spec_size() -> nat {
        32
    }

    fn size() -> (n: usize)
        ensures
            n == 32,
    {
        32
    }
}

impl SizedData for u8 {
    open spec fn spec_size() -> nat {
        1
    }

    fn size() -> (n: usize)
        ensures
            n == 1,
    {
        1
    }
}

/// The record without fields: nothing to store.
impl SizedData for () {
    open spec fn spec_size() -> nat {
        0
    }

    fn size() -> (n: usize)
        ensures
            n == 0,
    {
        0
    }
}

/// Two sizeable parts laid out one after the other. Either part may itself
/// be a pair, so nested pairs describe records of any number of fields, and
/// records within records, by the same rule.
impl<A: SizedData, B: SizedData> SizedData for (A, B) {
    open spec fn spec_size() -> nat {
        A::spec_size() + B::spec_size()
    }

    fn size() -> (n: usize) {
        A::size() + B::size()
    }
}

} // verus!
