//! The declaration of an entrance: forms as they are written, and what they
//! lower to once what a data language cannot say has been enforced.

pub mod catalog;
pub mod form;
