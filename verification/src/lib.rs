//! Verified core of an exporter for Find My accessory keys.
pub mod accessory;
pub mod deletion;
pub mod device;
pub mod document;
pub mod escrow;
pub mod export;
pub mod filename;
pub mod hexadecimal;
pub mod identity;
pub mod json_tree;
pub mod options;
pub mod plist_tree;
pub mod profile;
pub mod run;
pub mod serial;
pub mod session;
pub mod store;
pub mod text;
pub mod timestamp;
