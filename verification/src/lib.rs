//! Challenge–response credential registration and authentication, with the
//! list and item records of the surrounding service.

pub mod api;
pub mod db;
pub mod errors;
pub mod localstore;
pub mod models;
pub mod webauthn;
