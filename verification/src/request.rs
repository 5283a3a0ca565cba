//! Requests sent to other nodes.
//!
//! Each kind of request comes as two functions: one prepares what has to be handed to the
//! connection layer, the other makes sense of what the connection layer has returned.

use vstd::prelude::*;

use crate::bytes::{can_decode, concatenated, decode_buffer, decodes_to, join_chunks};
use crate::config::{protocol_index, LIGHT_PROTOCOL, SYNC_PROTOCOL, WARP_SYNC_PROTOCOL};
use crate::service::ChainNetwork;
use crate::types::PeerId;
use crate::warp_sync::{
    decode_grandpa_warp_sync_response, response_broken, response_holds, stays_within,
    GrandpaWarpSyncRequest, GrandpaWarpSyncRequestError, GrandpaWarpSyncResponseFragment,
};

verus! {

/// Request that the connection layer has to send.
#[derive(Debug, Clone, PartialEq, Eq)]
pub struct Request {
    /// Node to send the request to.
    pub target: PeerId,
    /// Index of the request-response protocol.
    pub protocol_index: usize,
    /// Body of the request.
    pub request_data: Vec<u8>,
}

/// Error returned by a blocks request.
#[derive(Debug, Clone, PartialEq, Eq)]
pub enum BlocksRequestError<TRequestError, TDecodeError> {
    /// The request itself has failed.
    Request(TRequestError),
    /// The response can't be decoded.
    Decode(TDecodeError),
}

/// Error returned by a storage proof request.
#[derive(Debug, Clone, PartialEq, Eq)]
pub enum StorageProofRequestError<TRequestError, TDecodeError> {
    /// The request itself has failed.
    Request(TRequestError),
    /// The response can't be decoded.
    Decode(TDecodeError),
}

impl ChainNetwork {
    /// Prepares a blocks request for the given peer. The body of the request is given in one or
    /// more pieces.
    pub fn blocks_request(
        &self,
        target: PeerId,
        chain_index: usize,
        request_chunks: &Vec<Vec<u8>>,
    ) -> (request: Request)
        requires
            protocol_index(chain_index as int, SYNC_PROTOCOL as int) <= usize::MAX,
        ensures
            request.target == target,
            request.protocol_index == protocol_index(chain_index as int, SYNC_PROTOCOL as int),
            request.request_data@ == concatenated(request_chunks@),
    {
        Request {
            target,
            protocol_index: self.protocol_index(chain_index, SYNC_PROTOCOL),
            request_data: join_chunks(request_chunks),
        }
    }

    /// Makes sense of the outcome of a blocks request.
    pub fn blocks_response<T, R, D, F: Fn(&[u8]) -> Result<T, D>>(
        response: Result<Vec<u8>, R>,
        decode: F,
    ) -> (outcome: Result<T, BlocksRequestError<R, D>>)
        requires
            response matches Ok(body) ==> can_decode(decode, body@),
        ensures
            match response {
                Ok(body) => match outcome {
                    Ok(blocks) => decodes_to(decode, body@, Ok::<T, D>(blocks)),
                    Err(BlocksRequestError::Decode(error)) => decodes_to(
                        decode,
                        body@,
                        Err::<T, D>(error),
                    ),
                    Err(BlocksRequestError::Request(_)) => false,
                },
                Err(error) => outcome == Err::<T, _>(BlocksRequestError::<R, D>::Request(error)),
            },
    {
        match response {
            Ok(body) => match decode_buffer(&decode, &body) {
                Ok(blocks) => Ok(blocks),
                Err(error) => Err(BlocksRequestError::Decode(error)),
            },
            Err(error) => Err(BlocksRequestError::Request(error)),
        }
    }

    /// Prepares a GrandPa warp sync request for the given peer.
    pub fn grandpa_warp_sync_request(
        &self,
        target: PeerId,
        chain_index: usize,
        begin_hash: [u8; 32],
    ) -> (request: Request)
        requires
            protocol_index(chain_index as int, WARP_SYNC_PROTOCOL as int) <= usize::MAX,
        ensures
            request.target == target,
            request.protocol_index == protocol_index(chain_index as int, WARP_SYNC_PROTOCOL as int),
            request.request_data@ == begin_hash@,
    {
        let request_data = GrandpaWarpSyncRequest { begin: begin_hash }.encode();
        Request {
            target,
            protocol_index: self.protocol_index(chain_index, WARP_SYNC_PROTOCOL),
            request_data,
        }
    }

    /// Makes sense of the outcome of a GrandPa warp sync request. The codecs are given all the
    /// bytes of the response and the position to start from, and return what they have found
    /// together with the position of what follows.
    pub fn grandpa_warp_sync_response<
        H,
        J,
        R,
        F: Fn(&[u8], usize) -> Option<(H, usize)>,
        G: Fn(&[u8], usize) -> Option<(J, usize)>,
    >(response: Result<Vec<u8>, R>, header: F, justification: G) -> (outcome: Result<
        Vec<GrandpaWarpSyncResponseFragment<H, J>>,
        GrandpaWarpSyncRequestError<R>,
    >)
        requires
            response matches Ok(body) ==> forall|bytes: &[u8]| #[trigger]
                bytes@ == body@ ==> stays_within(header, bytes) && stays_within(
                    justification,
                    bytes,
                ),
        ensures
            match response {
                Ok(body) => exists|bytes: &[u8]| #[trigger]
                    bytes@ == body@ && match outcome {
                        Ok(fragments) => response_holds(bytes, header, justification, fragments@),
                        Err(error) => error is BadResponse && response_broken(
                            bytes,
                            header,
                            justification,
                        ),
                    },
                Err(error) => outcome == Err::<Vec<GrandpaWarpSyncResponseFragment<H, J>>, _>(
                    GrandpaWarpSyncRequestError::<R>::Request(error),
                ),
            },
    {
        match response {
            Ok(body) => {
                let bytes = body.as_slice();
                decode_grandpa_warp_sync_response(bytes, header, justification)
            },
            Err(error) => Err(GrandpaWarpSyncRequestError::Request(error)),
        }
    }

    /// Prepares a storage proof request for the given peer. The body of the request is given in
    /// one or more pieces.
    pub fn storage_proof_request(
        &self,
        target: PeerId,
        chain_index: usize,
        request_chunks: &Vec<Vec<u8>>,
    ) -> (request: Request)
        requires
            protocol_index(chain_index as int, LIGHT_PROTOCOL as int) <= usize::MAX,
        ensures
            request.target == target,
            request.protocol_index == protocol_index(chain_index as int, LIGHT_PROTOCOL as int),
            request.request_data@ == concatenated(request_chunks@),
    {
        Request {
            target,
            protocol_index: self.protocol_index(chain_index, LIGHT_PROTOCOL),
            request_data: join_chunks(request_chunks),
        }
    }

    /// Makes sense of the outcome of a storage proof request.
    pub fn storage_proof_response<R, D, F: Fn(&[u8]) -> Result<Vec<Vec<u8>>, D>>(
        response: Result<Vec<u8>, R>,
        decode: F,
    ) -> (outcome: Result<Vec<Vec<u8>>, StorageProofRequestError<R, D>>)
        requires
            response matches Ok(body) ==> can_decode(decode, body@),
        ensures
            match response {
                Ok(body) => match outcome {
                    Ok(proof_entries) => decodes_to(
                        decode,
                        body@,
                        Ok::<Vec<Vec<u8>>, D>(proof_entries),
                    ),
                    Err(StorageProofRequestError::Decode(error)) => decodes_to(
                        decode,
                        body@,
                        Err::<Vec<Vec<u8>>, D>(error),
                    ),
                    Err(StorageProofRequestError::Request(_)) => false,
                },
                Err(error) => outcome == Err::<Vec<Vec<u8>>, _>(
                    StorageProofRequestError::<R, D>::Request(error),
                ),
            },
    {
        match response {
            Ok(body) => match decode_buffer(&decode, &body) {
                Ok(proof_entries) => Ok(proof_entries),
                Err(error) => Err(StorageProofRequestError::Decode(error)),
            },
            Err(error) => Err(StorageProofRequestError::Request(error)),
        }
    }
}

} // verus!
