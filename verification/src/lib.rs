//! Verified decision logic for a small device that owns an e-paper panel,
//! a barcode scanner on a serial line and a status LED.
//!
//! Every peripheral has one worker that owns it. Producers reach a worker
//! only through a handle that enqueues commands. What a worker decides
//! (how bytes become scan events, which panel operations a display job
//! needs, how the LED blinks) lives here and is proved against its
//! contract; the loops that touch hardware call into it.

pub mod channel;
pub mod text;
pub mod framer;
pub mod barcode;
pub mod blinker;
pub mod canvas;
pub mod framebuffer;
pub mod epaper;
pub mod panel;
pub mod http_server;
