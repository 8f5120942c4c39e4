//! Verified core of the `rt` ray tracer: command-line parsing, the options
//! that steer recursive tracing, and the ASCII P3 PPM image format (writing
//! rendered frames and reading texture files).

pub mod cli;
pub mod decimal;
pub mod ppm;
pub mod roundtrip;
pub mod text;
pub mod texture;
pub mod tracer;
