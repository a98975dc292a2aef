//! Elementwise kernel dispatch across a host fallback and accelerator devices:
//! buffer placement, shape and location validation, a per-device kernel cache
//! and device enumeration.

pub mod buffer;
pub mod cache;
pub mod device;
pub mod dispatch;
pub mod kernels;
