//! Publishing by handles.

pub mod publish;
pub mod publish_laws;
pub mod request_laws;
pub mod slab;
