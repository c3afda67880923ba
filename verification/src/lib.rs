//! Verified core of a desktop-backend bridge that shells out to an external
//! build tool (`make <target> KEY=value ...`).
//!
//! The library holds everything about such an invocation that can be decided
//! without performing I/O: assembling the target name and argument list,
//! splitting a streamed standard-output byte sequence into lines, and reducing
//! a finished process (exit status plus captured output) to the caller-facing
//! success or failure value. The surrounding binary performs the actual
//! spawning and reading and hands the captured bytes to these functions.

pub mod decode;
pub mod executor;
pub mod health;
pub mod lines;
pub mod outcome;
pub mod plan;
