//! Verified core of the MicroTAK administration tool: command shapes, URL and
//! payload construction, response interpretation, report rendering and QR
//! rasterization.

pub mod cli;
pub mod client;
pub mod enroll;
pub mod error;
pub mod pdf;
pub mod qr;
pub mod report;
pub mod text;
