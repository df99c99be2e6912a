//! The options of a run and the check they select.
use vstd::prelude::*;

verus! {

/// The options of a run.
pub struct Args {
    /// Check that every import has a mock.
    pub mocks: bool,
    /// Check this test file only.
    pub filename: Option<String>,
    /// Check the test files under this directory.
    pub directory: String,
}

/// The check that a run performs.
pub enum Command {
    /// Check one test file.
    CheckFile(String),
    /// Check every test file under a directory.
    CheckDirectory(String),
    /// No check was asked for.
    Nothing,
}

impl Args {
    /// The check that these options ask for: a single file when one is
    /// named, else the directory; nothing unless mocks are to be checked.
    pub fn command(&self) -> (r: Command)
        ensures
            !self.mocks ==> r is Nothing,
            self.mocks ==> (self.filename matches Some(f) ==> (r matches Command::CheckFile(p)
                && p@ == f@)),
            self.mocks && self.filename is None ==> (r matches Command::CheckDirectory(p) && p@
                == self.directory@),
    {
        if !self.mocks {
            return Command::Nothing;
        }
        match &self.filename {
            Some(f) => Command::CheckFile(f.clone()),
            None => Command::CheckDirectory(self.directory.clone()),
        }
    }
}

} // verus!
