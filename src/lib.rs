//! A real-time audio passthrough engine: the device-selection protocol, the
//! lock-free sample bridge between the capture and render callbacks, and the
//! channel-count adaptation between the two devices.
pub mod adapter;
pub mod bridge;
pub mod command;
pub mod selection;
pub mod session;
