//! Checks that every module imported by code under test is mocked in its
//! test file.

pub mod text;
pub mod module;
pub mod mock;
pub mod exclusion;
pub mod imports;
pub mod verdict;
pub mod test_pair;
pub mod cli;
