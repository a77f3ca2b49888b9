//! Perceptual fingerprints for images, a store that keeps every image under
//! its fingerprint, and a search for all images within a Hamming distance of
//! a query fingerprint, together with the account and upload rules around
//! them.

pub mod text;
pub mod clock;
pub mod fingerprint;
pub mod images;
pub mod user;
pub mod database;
pub mod store_laws;
pub mod response;
pub mod auth;
pub mod api;
pub mod config;
pub mod consts;
pub mod upload;
pub mod search;
