//! Deterministic computational primitives behind a cross-language boundary.
//!
//! The `compute` module holds the pure operations; `boundary` states the
//! ownership discipline for heap buffers that cross into foreign code;
//! `facade` exposes the operations over boundary-safe values with sentinel
//! results; `bridge` is the managed-runtime path that converts, invokes the
//! facade, and releases every buffer it receives.

pub mod boundary;
pub mod bridge;
pub mod compute;
pub mod facade;
