//! A boundary-representation modeling kernel.
//!
//! The kernel builds, validates, and sweeps solids from exact line-based
//! geometry over integer coordinates, so that every sign-sensitive
//! decision and every identity comparison is exact: a central store
//! deduplicates structurally equal objects and hands out identity-bearing
//! handles, staged builders infer missing fields before insertion, and
//! the sweep and approximation algorithms preserve shared identity across
//! shared boundaries.

pub mod approx;
pub mod approximation;
pub mod geometry;
pub mod math;
pub mod objects;
pub mod partial;
pub mod robust;
pub mod shape;
pub mod storage;
pub mod sweep;
pub mod sweep_shape;
pub mod topology;
