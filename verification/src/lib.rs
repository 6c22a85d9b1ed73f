//! Verified core of the chobits voice-assistant stack: the IoT device's light,
//! input and intent logic, and the pure parts of the server.
pub mod iot;
pub mod server;
