//! Kensho: the decision core of a local-AI desktop companion.

// Names that only proofs use are not used in compiled code.
#![allow(unused_imports)]

pub mod actor;
pub mod commands;
pub mod config;
pub mod domain;
pub mod error;
pub mod infrastructure;
pub mod json;
pub mod services;
pub mod text;
