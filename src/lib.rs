//! Length-framed binary encoding of bid records, with the pacing rule that
//! releases a timestamped event stream in step with the wall clock.
pub mod args;
pub mod binary_writer;
pub mod event;
pub mod frame;
pub mod pacer;
pub mod record;
