//! A word-validation core: a normalizer, a word list, and the decision
//! chain that consults the word list and then a fixed sequence of outside
//! dictionary providers.
pub mod chain;
pub mod normalize;
pub mod word_list;
