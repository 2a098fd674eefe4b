//! The WS2812 strip behind the BIO co-processor: a driver that loads one of a
//! small set of animation programs onto a core and swaps it at runtime.

pub mod driver;
pub mod hal;
pub mod laws;
pub mod pattern;
pub mod script;
pub mod traces;

pub use driver::LedDriver;
pub use pattern::PatternKind;
