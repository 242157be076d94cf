//! The decision core of a tiling window manager: every rule that says where a
//! window goes, which write is trusted, who gets the focus and how long the
//! event pump may sleep, as verified functions from plain values to plain
//! values.

pub mod ax_reads;
pub mod ax_writer;
pub mod channel;
pub mod commands;
pub mod config;
pub mod damping;
pub mod ecs;
pub mod geometry;
pub mod manager;
mod maps;
pub mod seqs;
pub mod time;
