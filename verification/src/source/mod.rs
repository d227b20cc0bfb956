//! Turning a requested system into a concrete download plan.

pub mod resolver;
pub mod tools;
pub mod linux;
pub mod windows;
pub mod dispatch;
