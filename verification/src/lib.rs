//! Azure resource identifiers, connection strings, storage addresses, names and GUIDs,
//! and the requests and answers of the Azure services.
//!
//! Values go in and out as [`json::Json`]. A text is modelled by the sequence of its
//! characters, a JSON value by [`json::JsonModel`], and an error by its message, so that
//! the contract of an operation equates what it answers with a spec function of what it
//! was given. What the operations promise together, such as that taking a value apart
//! undoes putting it together, is stated by the proof functions whose names begin with
//! `law_`.
pub mod answers;
pub mod blob;
pub mod bridge;
pub mod connection_string;
pub mod cosmos;
pub mod encoding;
pub mod endpoints;
pub mod error;
pub mod guid;
pub mod identity;
pub mod json;
pub mod keys;
pub mod names;
pub mod options;
pub mod queue;
pub mod resource_id;
pub mod secrets;
pub mod storage;
pub mod text;
