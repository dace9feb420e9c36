//! Binary serialization core for legacy game-data files: a byte-oriented
//! writer with a three-codepage text encoding engine, and an indirect stable
//! sort with in-place permutation application for record collections.

pub mod codepage;
pub mod records;
pub mod sort;
pub mod writer;
