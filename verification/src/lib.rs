//! A tarot-reading engine: a context-weighted, without-replacement card
//! drawer over an immutable card catalog, and the per-connection session
//! protocol that sequences query intake, card selection and interpretation
//! delivery.

pub mod ai_service;
pub mod channel;
pub mod models;
pub mod protocol;
pub mod rng;
pub mod session;
pub mod tarot_engine;
pub mod text;
