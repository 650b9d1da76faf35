//! A terminal system-summary library.
//!
//! Facts about a host — device identity, OS identity, hostname — are
//! resolved by ordered chains of fallible detectors with candidate
//! normalization and sentinel filtering. Resolved facts become display
//! fields, assembled in a user-configured order and framed with
//! box-drawing borders whose layout goes by visible width, styling
//! sequences not counted.
//!
//! The modules, leaf to root: [`text`] and [`ansi`] hold the character
//! work; [`probe`] the fallback engine; [`device`], [`os`],
//! [`hostname`], [`kernel`], [`loadavg`], [`shell`] and [`size`] the
//! per-category rules; [`config`] the settings model; [`fields`] and
//! [`frame`] the presentation.

pub mod ansi;
pub mod config;
pub mod device;
pub mod fields;
pub mod frame;
pub mod hostname;
pub mod kernel;
pub mod loadavg;
pub mod os;
pub mod probe;
pub mod shell;
pub mod size;
pub mod terminal;
pub mod text;
