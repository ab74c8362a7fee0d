//! Shaping of host inventory data.
//!
//! A host's management interfaces answer with rows of named, dynamically typed
//! properties, with raw registry bytes, or with a refusal. This crate holds the
//! part of an inventory collector that involves no operating-system call: the
//! property values and mappings, the fixed requests, and the rules that turn an
//! answer into the value or the error a caller receives.

pub mod collector;
pub mod error;
pub mod property_map;
pub mod request;
pub mod variant;

pub use collector::{get_avfw, get_cimos, get_cpu, get_key, get_tasks, Reply, Row};
pub use error::Error;
pub use property_map::PropertyMap;
pub use variant::{Value, Variant};
