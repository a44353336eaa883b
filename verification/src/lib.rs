//! The two demo components, as verified decision logic.
//!
//! `counter` is the placement-agnostic click total: it reads its own last
//! published total back from the retained `total` window and adds the new
//! clicks. `panel` is the page-hosted button and number, written as a state
//! machine from what the host reports to what the host is asked to do next.
//! `body` frames the JSON bodies both put on the bus, and `envelope` is what a
//! window of `total` carries, as the logic reads it. `activation` follows a
//! panel activation from its start through every event, and proves what holds
//! of every run.

pub mod body;
pub mod envelope;
pub mod counter;
pub mod panel;
pub mod activation;
