//! Small verified building blocks: a maximum scan over integers, a word
//! counter, and two plain record types.
pub mod max_finder;
pub mod records;
pub mod words;
