//! The consensus agent and the rules around it.

pub mod admin;
pub mod archive;
pub mod boot;
pub mod cluster;
pub mod consensus;
pub mod crypto;
pub mod duty;
pub mod durability;
pub mod effects;
pub mod gate;
pub mod ingress;
pub mod markers;
pub mod published;
pub mod reads;
pub mod recover;
