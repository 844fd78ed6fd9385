//! Status roll-up, alert filtering and selection tracking for a three-level
//! hierarchy of monitored entities (groups of nodes of content rows).
//!
//! Every executable function carries a contract over the mathematical views
//! of its arguments, and the algebraic laws of aggregation and filtering are
//! stated as public proof functions next to the code they speak of.

pub mod data;
pub mod filter;
pub mod filter_laws;
pub mod sample;
pub mod seq_facts;
pub mod status;
pub mod view;
