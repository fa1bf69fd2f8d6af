//! The fact model, the rule families and the engine that runs them.
pub mod map;
pub mod input;
pub mod result;
pub mod pattern;
pub mod helpers;
pub mod cdc;
pub mod core_rules;
pub mod fsm;
pub mod naming;
pub mod clocks_resets;
pub mod configurations;
pub mod instances;
pub mod processes;
pub mod types;
pub mod ports;
pub mod latch;
pub mod power;
pub mod rdc;
pub mod security;
pub mod sequential;
pub mod testbench;
pub mod style;
pub mod subprograms;
pub mod quality;
pub mod synthesis;
pub mod hierarchy;
pub mod signals;
pub mod sensitivity;
pub mod combinational;
pub mod verification;
pub mod engine;
