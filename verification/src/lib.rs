//! A rule-driven static-analysis engine for VHDL fact databases.
//!
//! A front end hands over a normalised fact database ([`policy::input::Input`]);
//! the engine runs every checker over it and returns the filtered findings.
pub mod text;
pub mod policy;
pub mod incremental;
