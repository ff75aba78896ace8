//! Exact cubic curves, curve chains, procedural path extension and polygon
//! containment, on integer coordinates and rational curve parameters.
pub mod extender;
pub mod geometry;
pub mod handles;
pub mod lifetime;
pub mod rocks;
pub mod spline;
pub mod state_control;
