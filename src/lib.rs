//! The front end of a small source-to-source compiler: a recursive-descent
//! parser, over a flat sequence of lexed tokens, for a JavaScript-flavoured
//! language with classes, interfaces, arrow functions and raw host-language
//! blocks; and the string values of that language.
//!
//! Every node records the token positions it was built from. The grammar is
//! also written as a recognizer (`grammar`): for each rule, whether it matches
//! at a position and where the match ends, with the forms of each tagged
//! union tried in their declared order. Each parsing function succeeds
//! exactly when its rule matches, ends where the match ends, and returns a
//! node that follows the rule over those tokens; a parsed program covers its
//! input exactly.

pub mod token;
pub mod punctuated;
pub mod ty;
pub mod generics;
pub mod expr;
pub mod stmt;
pub mod item;
pub mod class;
pub mod interface;
pub mod object;
pub mod program;
pub mod grammar;
pub mod string;

pub use expr::Expr;
pub use item::Item;
pub use program::{parse, Program};
