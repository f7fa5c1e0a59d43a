//! A bounded time-series signal engine: fixed-capacity rolling windows of
//! timed samples, value sources that feed them, and samplers that turn raw
//! host metric readings into chart-ready series.

pub mod app;
pub mod cli_args;
pub mod constants;
pub mod sampler;
pub mod source;
pub mod window;
