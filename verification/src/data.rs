//! What precedes the payload of objects on their streams and in their datagrams.
use bytes::Bytes;
use vstd::prelude::*;

verus! {

/// Starts a stream that carries a whole track.
#[derive(Clone, Copy, Debug, PartialEq, Eq, Structural)]
pub struct TrackHeader {
    pub subscribe_id: u64,
    pub track_alias: u64,
    pub publisher_priority: u8,
}

/// Starts an object on a stream that carries a whole track.
#[derive(Clone, Copy, Debug, PartialEq, Eq, Structural)]
pub struct TrackObject {
    pub group_id: u64,
    pub object_id: u64,
    pub size: usize,
    /// The object status code.
    pub status: u64,
}

/// Starts a stream that carries a subgroup.
#[derive(Clone, Copy, Debug, PartialEq, Eq, Structural)]
pub struct SubgroupHeader {
    pub subscribe_id: u64,
    pub track_alias: u64,
    pub group_id: u64,
    pub subgroup_id: u64,
    pub publisher_priority: u8,
}

/// Starts an object on a stream that carries a subgroup.
#[derive(Clone, Copy, Debug, PartialEq, Eq, Structural)]
pub struct SubgroupObject {
    pub object_id: u64,
    pub size: usize,
    /// The object status code.
    pub status: u64,
}

/// An object in a datagram.
#[derive(Debug)]
pub struct Datagram {
    pub subscribe_id: u64,
    pub track_alias: u64,
    pub group_id: u64,
    pub object_id: u64,
    pub publisher_priority: u8,
    /// The object status code.
    pub object_status: u64,
    pub payload_len: u64,
    pub payload: Bytes,
}

} // verus!
