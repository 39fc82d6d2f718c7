//! Text primitives shared by the rest of the crate. Texts are modelled as
//! sequences of characters; offsets that leave the crate count UTF-8 bytes.

pub mod chars;
pub mod number;
pub mod replace;
pub mod search;
pub mod unicode;
pub mod words;
