//! Installs and removes font packages: validation of an install request,
//! the catalog of aggregator fonts, the layout of the font directories, and
//! the walk over a font archive that decides what is written where.
//!
//! The library decides and its caller acts: nothing here touches the file
//! system, the network or the console.

pub mod command;
pub mod errors;
pub mod files;
pub mod manager;
pub mod nerd;
pub mod text;
