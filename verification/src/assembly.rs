//! Assembly of element-local contributions.
pub mod local;
pub mod offsets;
