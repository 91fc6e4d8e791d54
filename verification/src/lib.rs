//! Mirror-and-build orchestration: the decisions behind replicating a
//! project tree into a mirror, running a build tool there and bringing the
//! produced artifacts back, stated over plain values and proved.

pub mod actions;
pub mod args;
pub mod config;
pub mod context;
pub mod destination;
pub mod harvest;
pub mod host;
pub mod mirror;
pub mod mirror_laws;
pub mod outside;
pub mod path_laws;
pub mod paths;
pub mod repatriate;
pub mod replica;
pub mod runner;
pub mod text;
