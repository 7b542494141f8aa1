//! Session controller for picking a remote instance from a fuzzy-searchable
//! list: the filter and selection state, key handling, and the port
//! reservation protocol.

pub mod text;
pub mod matcher;
pub mod aws;
pub mod app;
pub mod handler;
pub mod ports;
pub mod tag_order;
