//! A workbook of small verified routines. At its centre stands a line
//! filter, which returns the lines of a text that contain a query; around it
//! stand routines on strings, numbers and small records, a number game and a
//! staff register. Each routine states what it returns over the characters,
//! numbers and sequences that its arguments stand for.

pub mod carol;
pub mod coins;
pub mod commands;
pub mod encoding;
pub mod guess;
pub mod guessing_game;
pub mod inventory;
pub mod largest;
pub mod line_filter;
pub mod numbers;
pub mod parse;
pub mod points;
pub mod restaurant;
pub mod sequences;
pub mod shapes;
pub mod staff;
pub mod statistics;
pub mod strings;
pub mod summary;
pub mod text;
pub mod text_units;
pub mod users;
