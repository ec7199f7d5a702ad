//! Text as sequences of characters.

pub mod case;
pub mod chars;
pub mod number;
pub mod order;
pub mod pad;
pub mod path;
pub mod search;
pub mod standard;
pub mod strip;
pub mod words;
