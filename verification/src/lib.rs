//! Processing core of an IoT ingestion node: device registry and counters,
//! two-stage authenticated encryption, device authentication and request
//! dispatch.

use vstd::prelude::*;

mod clock;
pub mod codec;
pub mod config;
pub mod database;
pub mod device_auth;
pub mod dispatch;
pub mod encryption;
pub mod error;
pub mod text;

verus! {

/// A sensor reading as a device reports it; `data` is the reading as JSON
/// text.
#[derive(Clone, Debug)]
pub struct IoTData {
    pub device_id: String,
    pub timestamp: u64,
    pub data: String,
}

/// A request to register a device.
#[derive(Clone, Debug)]
pub struct DeviceRegistration {
    pub did: String,
    pub did_document: String,
    pub signature: String,
}

/// An encrypted reading with the fingerprints of the keys that sealed it.
#[derive(Clone, Debug)]
pub struct EncryptedSensorPayload {
    pub device_id: String,
    pub encrypted_data: Vec<u8>,
    pub stage1_key_hash: String,
    pub stage2_key_hash: String,
    pub timestamp: String,
}

/// State shared across requests. The store, the ciphers and the
/// authenticator are values of their own modules; nothing is held here.
#[derive(Clone, Debug)]
pub struct AppState {}

} // verus!
