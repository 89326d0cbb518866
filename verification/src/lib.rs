//! Kosmokopy copies and moves files: on this machine, to a host, from a host,
//! and from one host to another.
//!
//! A [`transfer::Transfer`] is a state machine. It says what is to be done, is
//! told what came of it, and goes on until it is over; whoever runs it touches
//! files and starts programs. [`steps`] is the part of it that deals with one
//! file, [`setup`] what goes before the first one, and [`step_laws`] and
//! [`transfer_laws`] state what holds whatever the world replies: that a copy
//! keeps its source, that a move removes the source only once the target was
//! verified to hold it and never where the source is the target, that nothing
//! is counted that did not arrive, and that every transfer comes to an end.
//! [`route_laws`] and [`action_laws`] state by which steps a file goes on each
//! route and what is asked for on the way, [`plan_laws`] that files keep their
//! place below the source and never meet, and [`deliver`] that every file comes
//! to hold at its target what it held at its source. [`rerun`] states what comes
//! of a copy that is made again.
//!
//! A path on this machine is a sequence of bytes, a path on a host a text.

pub mod action_laws;
pub mod cli;
pub mod collect;
pub mod deliver;
pub mod exchange;
pub mod exclusion;
pub mod form;
pub mod integrity;
pub mod json;
pub mod names;
pub mod notes;
pub mod paths;
pub mod plan;
pub mod plan_laws;
pub mod report;
pub mod request;
pub mod rerun;
pub mod route_laws;
pub mod setting;
pub mod setup;
pub mod shell;
pub mod step_laws;
pub mod steps;
pub mod text;
pub mod text_laws;
pub mod transfer;
pub mod transfer_laws;
pub mod wildcard;
