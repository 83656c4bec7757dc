//! The decisions of an assistant that lives in a Matrix room and answers with
//! the help of a language model.
//!
//! The modules hold what the assistant computes: how it reads the markers in a
//! message, which task a message belongs to, whom an answer mentions, what it
//! knows about the other participants, and what it does next while it connects,
//! joins a room or talks to the model. They work on plain values.

pub mod adk;
pub mod config;
pub mod introductions;
pub mod markers;
pub mod matrix;
pub mod matrix_agent;
pub mod outside;
pub mod task;
pub mod text;
