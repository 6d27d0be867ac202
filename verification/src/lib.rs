//! Command dispatch between a contract and the cross-chain messaging of its
//! chain.
//!
//! A contract gives a numbered command with a byte buffer; the dispatcher
//! decodes it, keeps what was prepared for the length of one invocation, and
//! tells the host what to do. Executing and sending are two-phase: a message
//! is prepared or validated first, and only then executed or sent, once.
//!
//! * [`scale`], [`junction`], [`location`], [`asset`]: the wire format of
//!   locations and assets, proved to round-trip and to be unique.
//! * [`message`]: messages in wire form, and the composer of the message
//!   that calls a contract on another chain.
//! * [`command`]: the commands and their payloads.
//! * [`extension`]: the dispatcher and its protocol with the host.
//! * [`laws`]: what holds of the dispatcher in every state.
//! * [`contract`]: the payloads that a contract builds.
//!
//! Two things are left to `staging_xcm`: whether bytes are a message, and the
//! re-anchoring of an asset. Both are reached through one private function
//! each, whose result the contracts know by name only.

pub mod asset;
pub mod command;
pub mod contract;
pub mod error;
pub mod extension;
pub mod junction;
pub mod laws;
pub mod location;
pub mod message;
pub mod scale;

pub use asset::{Asset, AssetId, AssetInstance, Fungibility, VersionedAsset};
pub use command::{Command, ContractCallInput, ValidateSendInput, Weight};
pub use contract::XcmContractPoC;
pub use error::{Error, Status};
pub use extension::{
    Context, Event, Extension, Outcome, PreparedExecution, Reply, Request, Step, ValidatedSend,
};
pub use junction::{BodyId, BodyPart, Junction, NetworkId};
pub use location::{Location, VersionedLocation};
pub use message::{Message, VersionedMessage};
