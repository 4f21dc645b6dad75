//! The capability contract between the Runtime and its workers, the
//! capability catalogue, and the supervision decisions made around every
//! capability job.

pub mod abi;
pub mod runners;
pub mod host;
pub mod native;
pub mod persistent;
pub mod inputs;
