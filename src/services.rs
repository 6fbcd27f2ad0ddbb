//! Services that coordinate the navigation state, the image cache and the
//! caller's file work.

pub mod navigation_service;
pub mod rating_service;
pub mod auto_reload_service;
