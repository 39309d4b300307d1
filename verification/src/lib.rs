//! A Docker-compatible container engine core: the container lifecycle, image
//! metadata, Dockerfile and Compose handling, and the planning of the commands
//! that run containers inside a managed WSL distribution.

pub mod api;
pub mod builder;
pub mod command;
pub mod compose;
pub mod container;
pub mod diagnostic;
pub mod docker;
pub mod dockerfile;
pub mod engine;
pub mod hostpath;
pub mod ident;
pub mod image;
pub mod network;
pub mod number;
pub mod pull;
pub mod registry;
pub mod rootfs;
pub mod runtime;
pub mod store;
pub mod text;
pub mod volumes;
pub mod words;
pub mod wsl;
pub mod wslpath;
