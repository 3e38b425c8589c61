//! How values of the protocol are laid out in bytes.
pub mod blob;
pub mod error;
pub mod laws;
pub mod params;
pub mod traits;
pub mod tuple;
pub mod varint;
pub mod wire;

pub use error::{DecodeError, EncodeError};
pub use params::Params;
pub use traits::{Decode, Encode};
pub use tuple::Tuple;
