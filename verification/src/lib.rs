//! Decisions of a program that keeps monitor brightness in step with the sun.

pub mod brightness;
pub mod clock;
pub mod config;
pub mod displays;
pub mod icon;
pub mod inactive;
pub mod levels;
pub mod number;
pub mod solar;
pub mod sun_loop;
pub mod text;
pub mod ui;
pub mod weather;
