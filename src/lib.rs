//! A task tracker's core: a bilingual natural-language date-range filter
//! parser, the calendar arithmetic it relies on, and the rules for a task list.

pub mod calendar;
pub mod lexical;
pub mod filter_parser;
pub mod filter_laws;
pub mod tasks;
