//! A credential store: entries held in order and indexed by position, a
//! repeating-key letter cipher for the store's file, and the decisions of the
//! interactive command loop.

pub mod cipher;
pub mod store;
pub mod persist;
pub mod session;
