//! Verified core of a fast UUID implementation: the integer layout of UUID
//! values, their text and byte forms, field extraction, version stamping, and
//! the decisions that drive generation and argument binding.

pub mod pylong;
pub mod compare;
pub mod text;
pub mod layout;
pub mod version;
pub mod generate;
pub mod node_cache;
pub mod args;
pub mod init;
pub mod dispatch;
pub mod lifecycle;
