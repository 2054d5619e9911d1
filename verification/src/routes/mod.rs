//! What the HTTP surface decides, apart from the serving itself.

pub mod api;
pub mod sse;
pub mod ui;
