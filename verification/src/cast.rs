//! Playing on Google Cast devices.

pub mod frame;
pub mod http;
pub mod wav;
pub mod devices;
pub mod session;
pub mod manager;
pub mod http_laws;
pub mod manager_laws;
pub mod device_laws;
pub mod session_laws;
pub mod frame_laws;
