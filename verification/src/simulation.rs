//! Batch simulation: configuration, the sequential runner, and the
//! aggregated result statistics.

mod clock;
pub mod config;
pub mod result;
pub mod simulator;

pub use config::SimulationConfig;
pub use config::SimulationConfigBuilder;
pub use config::SimulationConfigBuilderWithEngine;
pub use result::SimulationResult;
pub use simulator::Simulator;
