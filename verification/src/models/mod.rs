//! The data that flows through the control plane.

pub mod k8s;
pub mod string_map;
pub mod views;
