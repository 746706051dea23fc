//! The decision core of Reyn Studio: preview access, CAD face identity, STEP
//! import rules and the integer side of field post-processing.
//!
//! Every item here is verified. Windows, sockets, credential vaults, floating
//! point and the B-rep translator live in the application around it.

pub mod access;
pub mod access_laws;
pub mod cad_field_ready;
pub mod cad_identity;
pub mod cad_postpro;
pub mod cad_step;
pub mod credential_store;
pub mod field_laws;
pub mod gate;
pub mod gate_laws;
pub mod identity_laws;
pub mod import_laws;
pub mod json;
pub mod lexis_laws;
pub mod remap_laws;
pub mod secret;
pub mod session;
pub mod session_laws;
pub mod step_laws;
pub mod step_lexis;
pub mod step_units;
pub mod store_laws;
pub mod text;
pub mod text_laws;
pub mod unit_laws;
