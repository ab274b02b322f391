//! Feature flags: what is stored of them, and the dashboard that edits them.
//!
//! * [`domain`] is the vocabulary both sides share: variants, distributions,
//!   targeting rules, audiences and experiments.
//! * [`storage`] turns database replies into that vocabulary and decides what a
//!   refused write means.
//! * [`web`] is the dashboard's state: one value per page, one function per
//!   thing that can happen to it, and the requests that follow.
//!
//! Nothing in here performs input or output. The statements, the network and
//! the screen belong to the program around the library.

pub mod domain;
pub mod ids;
pub mod keyset;
pub mod storage;
pub mod text;
pub mod time;
pub mod web;
