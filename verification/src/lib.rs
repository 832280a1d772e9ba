//! Keeping a beacon oracle contract in step with the chain.
//!
//! The oracle records the timestamps of blocks that lie a fixed interval
//! apart. This library decides, from what the chain shows, which timestamp is
//! due next and whether it has to be recorded:
//!
//! - [`locator`] finds the oracle's latest checkpoint by searching its update
//!   events backwards from the chain head;
//! - [`reconcile`] decides whether the next checkpoint is due, and records it
//!   unless the oracle holds it already;
//! - [`cycle`] joins the two into one cycle, to be run once a minute;
//! - [`chain`] names the requests that a cycle makes of the node, the
//!   contract and the signer, and the replies to them;
//! - [`config`] checks the settings of the process;
//! - [`model`] states what whole cycles come to, and proves it.
//!
//! The library does no input or output. A cycle hands out one request at a
//! time; the caller carries it out and hands back the reply.
pub mod chain;
pub mod config;
pub mod cycle;
pub mod locator;
pub mod model;
pub mod reconcile;
