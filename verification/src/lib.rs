//! Verified core of the IsoPlan lead desk: validation, normalisation,
//! scoring and workflow rules of the lead database.

pub mod text;
pub mod error;
pub mod web;
pub mod ids;
pub mod leads;
pub mod review;
pub mod contacts;
pub mod settings;
pub mod workflow;
pub mod drafts;
pub mod exports;
