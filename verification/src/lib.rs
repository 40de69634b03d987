//! Keeps downloaded programs in step with the release pages that publish them.
//!
//! A settings file has a section for each program: the page on which it is released, how to tell
//! the download and the version on it, and the version that is installed. The library reads the
//! settings ([`settings`], [`config`]), searches the page ([`page`]) and the download
//! ([`archive`], [`path`]), and decides step by step what is to be done ([`process`], [`run`]). It
//! asks its caller for everything that touches the network or the disk.
pub mod archive;
pub mod config;
pub mod page;
pub mod path;
pub mod process;
pub mod run;
pub mod settings;
pub mod text;
