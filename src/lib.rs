//! A country and capital quiz: a fixed, seeded reordering of the entries and
//! the question, judging and hint rules of each round.
pub mod quiz;
pub mod session;
pub mod shuffle;
