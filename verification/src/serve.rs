//! What is served of a track.
use crate::coding::tuple::Tuple;
use crate::text::decimal;
use crate::text::decimal_text;
use bytes::Bytes;
use vstd::prelude::*;

verus! {

/// Why a track is no longer served.
#[derive(Debug)]
pub enum ServeError {
    /// Everything has been served.
    Done,
    /// The other side gave up.
    Cancel,
    /// The other side closed with this code.
    Closed(u64),
    NotFound,
    Duplicate,
    /// The track is already served in another way.
    Mode,
    Size,
    Internal(String),
}

impl Clone for ServeError {
    fn clone(&self) -> (res: ServeError)
        ensures
            res == *self,
    {
        match self {
            ServeError::Done => ServeError::Done,
            ServeError::Cancel => ServeError::Cancel,
            ServeError::Closed(code) => ServeError::Closed(*code),
            ServeError::NotFound => ServeError::NotFound,
            ServeError::Duplicate => ServeError::Duplicate,
            ServeError::Mode => ServeError::Mode,
            ServeError::Size => ServeError::Size,
            ServeError::Internal(text) => ServeError::Internal(text.clone()),
        }
    }
}

impl ServeError {
    /// The code that the other side is told.
    pub open spec fn code_spec(&self) -> u64 {
        match self {
            ServeError::Done => 0,
            ServeError::Cancel => 1,
            ServeError::Closed(code) => *code,
            ServeError::NotFound => 404,
            ServeError::Duplicate => 409,
            ServeError::Mode => 400,
            ServeError::Size => 413,
            ServeError::Internal(_) => 500,
        }
    }

    /// The code that the other side is told.
    pub fn code(&self) -> (res: u64)
        ensures
            res == self.code_spec(),
    {
        match self {
            ServeError::Done => 0,
            ServeError::Cancel => 1,
            ServeError::Closed(code) => *code,
            ServeError::NotFound => 404,
            ServeError::Duplicate => 409,
            ServeError::Mode => 400,
            ServeError::Size => 413,
            ServeError::Internal(_) => 500,
        }
    }

    /// The reason that the other side is told.
    pub open spec fn reason_spec(&self) -> Seq<char> {
        match self {
            ServeError::Done => "done"@,
            ServeError::Cancel => "cancelled"@,
            ServeError::Closed(code) => "closed, code="@ + decimal_text(*code as nat),
            ServeError::NotFound => "not found"@,
            ServeError::Duplicate => "duplicate"@,
            ServeError::Mode => "multiple stream modes"@,
            ServeError::Size => "wrong size"@,
            ServeError::Internal(text) => "internal error: "@ + text@,
        }
    }

    /// The reason that the other side is told.
    pub fn reason(&self) -> (res: String)
        ensures
            res@ == self.reason_spec(),
    {
        match self {
            ServeError::Done => String::from_str("done"),
            ServeError::Cancel => String::from_str("cancelled"),
            ServeError::Closed(code) => {
                let number: String = decimal(*code);
                String::from_str("closed, code=").concat(number.as_str())
            },
            ServeError::NotFound => String::from_str("not found"),
            ServeError::Duplicate => String::from_str("duplicate"),
            ServeError::Mode => String::from_str("multiple stream modes"),
            ServeError::Size => String::from_str("wrong size"),
            ServeError::Internal(text) => String::from_str("internal error: ").concat(text.as_str()),
        }
    }
}

/// Each error is told with its own code and reason. A code that the other side closed with is told as
/// it is, and so is the text of an internal error, each behind words of its own.
pub proof fn errors_are_told_by_code_and_reason(code: u64, text: String)
    ensures
        ServeError::Done.code_spec() == 0 && ServeError::Done.reason_spec() == "done"@,
        ServeError::Cancel.code_spec() == 1 && ServeError::Cancel.reason_spec() == "cancelled"@,
        ServeError::Closed(code).code_spec() == code,
        ServeError::Closed(code).reason_spec() == "closed, code="@ + decimal_text(code as nat),
        ServeError::NotFound.code_spec() == 404 && ServeError::NotFound.reason_spec()
            == "not found"@,
        ServeError::Duplicate.code_spec() == 409 && ServeError::Duplicate.reason_spec()
            == "duplicate"@,
        ServeError::Mode.code_spec() == 400 && ServeError::Mode.reason_spec()
            == "multiple stream modes"@,
        ServeError::Size.code_spec() == 413 && ServeError::Size.reason_spec() == "wrong size"@,
        ServeError::Internal(text).code_spec() == 500,
        ServeError::Internal(text).reason_spec() == "internal error: "@ + text@,
{
}

/// A track: its namespace, and its name in there.
#[derive(Debug)]
pub struct Track {
    pub namespace: Tuple,
    pub name: String,
}

/// A part of a group that is sent on a stream of its own.
#[derive(Clone, Copy, Debug, PartialEq, Eq, Structural)]
pub struct Subgroup {
    pub group_id: u64,
    pub subgroup_id: u64,
    pub priority: u8,
}

/// An object that is sent as a datagram.
#[derive(Debug)]
pub struct Datagram {
    pub group_id: u64,
    pub object_id: u64,
    pub priority: u8,
    /// The object status code.
    pub status: u64,
    pub payload: Bytes,
}

/// How a track is being written.
#[derive(Clone, Copy, Debug, PartialEq, Eq, Structural)]
pub enum TrackWriterMode {
    /// Not decided yet.
    Track,
    /// As one stream.
    Stream,
    /// As a stream for each subgroup.
    Subgroups,
    /// As datagrams.
    Datagrams,
}

} // verus!
