//! Publishing what is read, and writing what is subscribed to.

pub mod publish;
pub mod subscribe;
pub mod test_catalog;
