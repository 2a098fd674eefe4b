//! Control logic of an LED badge firmware: the animation patterns and their
//! order, the driver that loads a pattern onto the BIO co-processor, the LED
//! control service, and the button handling of the badge application.

pub mod badge;
pub mod bio;
pub mod boot;
pub mod keys;
pub mod laws;
pub mod leds;
pub mod messages;
pub mod mirror;
pub mod screen;
