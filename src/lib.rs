//! Composable event dispatch: handlers over a tag-keyed dependency container.
pub mod container;
pub mod dispatch;
pub mod handler;
pub mod inject;
pub mod signature;
pub mod laws;
