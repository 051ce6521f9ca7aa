//! Verified core of a UEFI binding: status codes, the device-path record
//! format and the utilities that walk, copy, join and truncate device paths,
//! and the bridge between ASCII text and UTF-16 buffers.
//!
//! A device path is held in a buffer of the library's own and addressed by
//! offsets into it. What only the firmware can do (convert a path to text,
//! drive a serial line, look an interface up) comes in as a function that
//! the caller hands over, so that every rule about what is passed to the
//! firmware and what is made of its answer is stated and proved here.

pub mod base;
pub mod bootservices;
pub mod guid;
pub mod protocol;
pub mod util;

pub use base::{Event, Handle, Handles, HandlesIterator, MemoryType, Status, Time, TimeCapabilities};
pub use bootservices::LocateSearchType;
pub use guid::Guid;
