//! Identity allocation, behavior indexing and runner-message decoding for a
//! multi-language simulation engine.
//!
//! * [`package`]: the identities of simulation packages and the generator
//!   that allocates them per category.
//! * [`language`], [`behavior`], [`behavior_name`]: the languages of
//!   behaviors and the behaviors that configuration supplies.
//! * [`behavior_execution`], [`exp_init`], [`index_laws`]: the table of
//!   behavior indices, the descriptions sent to runners, and what holds of
//!   both for every set of behaviors.
//! * [`runner_error`], [`task_id`], [`outbound`]: the errors that runners
//!   report, task identities, and the decoding of the messages that runners
//!   send.
//! * [`analysis`]: the configuration of the analysis output package.
//! * [`text`]: decimal text.

pub mod analysis;
pub mod behavior;
pub mod behavior_execution;
pub mod behavior_name;
pub mod exp_init;
pub mod index_laws;
pub mod language;
pub mod outbound;
pub mod package;
pub mod runner_error;
pub mod task_id;
pub mod text;
