//! Verified core of an emulator lifecycle orchestrator.
//!
//! The library reconciles the text output of platform toolchains
//! (declared-device listings, live-instance queries, process tables)
//! into one device model, decides lifecycle actions (start, stop,
//! delete, wipe), and manages a bounded log-session buffer. All
//! process spawning and file I/O live outside the library; callers
//! hand the tool output in and carry the decided actions out.
//!
//! - [`android`], [`harmony`], [`ios`]: per-platform enumeration and
//!   correlation, and the per-platform lifecycle decisions.
//! - [`logs`]: the log-streaming session and its bounded buffer.
//! - [`packages`], [`usb`], [`wipe`]: the package report, the USB
//!   probe decoding, and the data-wipe plan.
//! - [`settings`], [`tools`], [`clock`]: configuration decisions,
//!   tool locations and argument grammars, and time formatting.
//! - [`text`], [`num`], [`model`]: the text and number groundwork
//!   and the shared device and error model.

pub mod android;
pub mod clock;
pub mod harmony;
pub mod ios;
pub mod logs;
pub mod model;
pub mod num;
pub mod packages;
pub mod settings;
pub mod text;
pub mod tools;
pub mod usb;
pub mod wipe;
