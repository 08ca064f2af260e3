//! A workbench of small verified components.
//!
//! The centre piece is a fixed-size worker pool ([`pool`]) with its laws
//! ([`pool_laws`]): jobs are delivered once and in order, no more run at a
//! time than there are workers, and shutdown leaves no worker behind. Around
//! it stand a line-oriented text search ([`grep`], [`grep2`], on [`text`]
//! and [`matches`]), the web server's arguments and replies ([`parser`],
//! [`http`], [`numbers`]), and a handful of state machines and utilities on
//! slices and strings.

pub mod blog;
pub mod blog2;
pub mod blog3;
pub mod fibonacci;
pub mod generic;
pub mod grep;
pub mod grep2;
pub mod guessing_game;
pub mod gui;
pub mod http;
pub mod lifetimes;
pub mod matches;
pub mod numbers;
pub mod parser;
pub mod pool;
pub mod pool_laws;
pub mod slices;
pub mod text;
