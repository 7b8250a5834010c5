//! Ephemeral compute fleets bought on a spot market, together with a few
//! small text tools: a lexer, an infix-to-postfix translator, a line search
//! and the document model of a terminal editor.

pub mod document;
pub mod editor;
pub mod fleet;
pub mod lexer;
pub mod search;
pub mod text;
pub mod translator;
