//! Messages of the block announces protocol that are kept in their encoded form.

use vstd::prelude::*;

use crate::bytes::{decode_valid, decodes_to, is_valid};

verus! {

/// Undecoded but valid block announce handshake.
#[derive(Clone, PartialEq, Eq)]
pub struct EncodedBlockAnnounceHandshake(Vec<u8>);

impl View for EncodedBlockAnnounceHandshake {
    type V = Seq<u8>;

    closed spec fn view(&self) -> Seq<u8> {
        self.0@
    }
}

impl EncodedBlockAnnounceHandshake {
    /// Wraps a handshake that was found to be valid.
    pub fn new(bytes: Vec<u8>) -> (encoded: Self)
        ensures
            encoded@ == bytes@,
    {
        EncodedBlockAnnounceHandshake(bytes)
    }

    /// Returns the decoded version of the handshake.
    pub fn decode<T, E, F: Fn(&[u8]) -> Result<T, E>>(&self, decode: F) -> (decoded: T)
        requires
            is_valid(decode, self@),
        ensures
            decodes_to(decode, self@, Ok::<T, E>(decoded)),
    {
        decode_valid(&decode, &self.0)
    }
}

/// Undecoded but valid block announce.
#[derive(Clone, PartialEq, Eq)]
pub struct EncodedBlockAnnounce(Vec<u8>);

impl View for EncodedBlockAnnounce {
    type V = Seq<u8>;

    closed spec fn view(&self) -> Seq<u8> {
        self.0@
    }
}

impl EncodedBlockAnnounce {
    /// Wraps an announce that was found to be valid.
    pub fn new(bytes: Vec<u8>) -> (encoded: Self)
        ensures
            encoded@ == bytes@,
    {
        EncodedBlockAnnounce(bytes)
    }

    /// Returns the decoded version of the announcement.
    pub fn decode<T, E, F: Fn(&[u8]) -> Result<T, E>>(&self, decode: F) -> (decoded: T)
        requires
            is_valid(decode, self@),
        ensures
            decodes_to(decode, self@, Ok::<T, E>(decoded)),
    {
        decode_valid(&decode, &self.0)
    }
}

} // verus!
