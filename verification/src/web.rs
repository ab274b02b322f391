//! The dashboard: what it knows, what can happen to it, and what it asks of the
//! server.
//!
//! Each page is a plain value. What the user does and what the server answers
//! are functions on it; a function that needs the network returns the
//! [`api::Call`] to make. The program around the library makes the calls, draws
//! the values and hands the answers back.

pub mod api;
pub mod app;
pub mod components;
pub mod pages;
pub mod session;
pub mod theme;
pub mod toast;
