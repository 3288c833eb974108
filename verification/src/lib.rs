//! The core of a small package installer: it resolves package identifiers,
//! reads package descriptors, plans the commands to run and keeps the manifest
//! of installed packages. The library performs no input or output itself; each
//! orchestrator says which action comes next and is told how it went.

pub mod action;
pub mod cli;
pub mod commands;
pub mod descriptor;
pub mod fetcher;
pub mod install;
pub mod manifest;
pub mod obtain;
pub mod platform;
pub mod resolver;
pub mod runner;
pub mod text;
pub mod uninstall;
pub mod upgrade;
