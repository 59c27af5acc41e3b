//! A gallery of example scripts: from the descriptor of an example to what
//! its page shows.
//!
//! An example is a script with a descriptor.  The script is fetched at a
//! pinned revision and run in a container without network; the log that it
//! leaves announces the images that it made; of those, one per figure is
//! shown.  This library holds the rules of that pipeline:
//!
//! - [`header`] and [`metadata`] resolve the record of an official example
//!   from the leading comment of its script, and [`source`] gives every
//!   example its key;
//! - [`runner`] says which programs to start for a run, and what each of
//!   their results means for it;
//! - [`log`] finds the announcements in a log, each an [`event`], and
//!   [`select`] picks the images to show;
//! - [`render`] puts together what the templates of the gallery are given.
//!
//! Nothing here reads a file or starts a program: the caller hands in texts
//! and takes texts back.  [`text`] and [`paths`] hold what the other modules
//! share, [`error`] the ways in which an example can fail.

pub mod error;
pub mod event;
pub mod header;
pub mod log;
pub mod metadata;
pub mod paths;
pub mod render;
pub mod runner;
pub mod select;
pub mod source;
pub mod text;
