//! A decorator over a message-queue client and an object-storage client that
//! moves message bodies too large for the queue into object storage, leaving a
//! small pointer record in the queue, and undoes this on receipt.
//!
//! The decisions live here, verified: the size rules, the offload policy, the
//! pointer record and extended receipt-handle formats, the configuration and
//! the plan of each queue operation. The network calls are made by the caller
//! of these plans.
pub mod client;
pub mod error;
pub mod json;
pub mod pointer;
pub mod receipt;
pub mod size;
pub mod text;

pub use client::{
    DeletePlan, OffloadPlan, RestoredMessage, SendPlan, SqsExtendedClient,
    SqsExtendedClientBuilder, DEFAULT_POINTER_CLASS, LEGACY_RESERVED_ATTRIBUTE_NAME,
    MAX_MESSAGE_SIZE_IN_BYTES, RESERVED_ATTRIBUTE_NAME,
};
pub use error::SqsExtendedClientError;
pub use pointer::{PointerDecodeError, S3Pointer};
pub use receipt::{new_extended_receipt_handle, parse_extended_receipt_handle};
pub use size::{byte_length, AttributeValue, MessageSize};
