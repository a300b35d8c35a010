//! Two-phase calls into a target that declares, in a dry run, the extra
//! resources it needs: selectors, the declaration's wire format, resolution
//! against a candidate pool, the invocations of both phases, and the state
//! machine that sequences them. Beside the caller's side stand two targets
//! that make their declarations from derived addresses, and the records
//! that programs of collections announce.

pub mod address;
pub mod benchmark;
pub mod error;
pub mod events;
pub mod identifier;
pub mod instructions;
pub mod invocation;
pub mod matcher;
pub mod nft_style_one;
pub mod orchestrator;
pub mod payload;
pub mod selector;
