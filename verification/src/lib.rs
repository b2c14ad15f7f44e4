//! Budget-aware multi-model orchestration: the verified core.
pub mod money;
pub mod text;
pub mod clock;
pub mod errors;
pub mod budget;
pub mod adapter;
pub mod reply;
pub mod critique;
pub mod ranking;
pub mod routing;
pub mod trace;
pub mod plane;
pub mod boundary;
pub mod geometry;
pub mod crust;
pub mod orchestrate;
