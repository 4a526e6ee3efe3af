//! Per-chunk cost analysis of a voxel world save, and the marker overlay
//! that flags the chunks over budget.
pub mod access;
pub mod aggregate;
pub mod analysis;
pub mod classify;
pub mod command;
pub mod costs;
pub mod grid;
pub mod marker;
pub mod message;
pub mod store;
pub mod text;
