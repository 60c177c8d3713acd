//! The runtime of an agent: settings, runs, tasks, what is registered, what runs for
//! a message, which model is asked, and prompts that ask for structured answers.
//!
//! The runtime holds handles of what is registered with it; whoever drives it calls
//! what they stand for, and hands back what came of it.
use vstd::prelude::*;

pub mod actions;
pub mod answer_laws;
pub mod bootstrap;
pub mod character;
pub mod clock;
pub mod compose;
pub mod dispatch;
pub mod document_laws;
pub mod evaluators;
pub mod json;
pub mod letters;
pub mod log_level;
pub mod models;
pub mod prompt_check;
pub mod prompt_exec;
pub mod prompt_laws;
pub mod prompt_text;
pub mod request_laws;
pub mod rewrite;
pub mod run;
pub mod runtime;
pub mod runtime_laws;
pub mod settings;
pub mod string_map;
pub mod supply;
pub mod tasks;
pub mod text;
pub mod trajectory;
pub mod view_laws;
pub mod xml;
pub mod xml_laws;
