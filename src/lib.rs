//! Flashcards from a small markdown dialect: a line-oriented parser that
//! turns a document into cards, and the HTML rendering of their content.

pub mod card;
pub mod category;
pub mod error;
pub mod lemmas;
pub mod parser;
pub mod text;
pub mod utils;
