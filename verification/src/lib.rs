//! Tooling logic for running modded Minecraft servers on Kubernetes.

pub mod cli;
pub mod config;
pub mod dashboard;
pub mod error;
pub mod eula;
pub mod health;
pub mod json;
pub mod links;
pub mod k8s;
pub mod manifest;
pub mod mods;
pub mod order;
pub mod rcon;
pub mod text;
