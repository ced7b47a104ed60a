//! An exporter of NetBird activity events to a Loki-style log backend.
//!
//! Events are read from an append-only source in batches beyond a cursor,
//! grouped into label-keyed streams, and pushed to the backend; the cursor
//! moves only when a push was accepted, so a batch that failed is read and
//! pushed again. This crate holds the rules of that pipeline, each with a
//! machine-checked contract:
//!
//! - [`catalog`]: the names of activity codes;
//! - [`timestamp`]: event timestamps in the backend's form;
//! - [`event`], [`line`], [`grouper`]: events, their lines, and their streams;
//! - [`delivery`]: the body of a push and the meaning of its answer;
//! - [`cursor`], [`batch`], [`pump`]: the control loop as a state machine;
//! - [`config`], [`readiness`]: settings and the wait for the backend;
//! - [`decimal`], [`error`]: numbers as text, and the kinds of failure.
//!
//! Reading the source, sending requests and sleeping are left to the program
//! around this crate.

use vstd::prelude::*;

pub mod batch;
pub mod catalog;
pub mod config;
pub mod cursor;
pub mod decimal;
pub mod delivery;
pub mod error;
pub mod event;
pub mod grouper;
pub mod line;
pub mod pump;
pub mod readiness;
pub mod timestamp;
