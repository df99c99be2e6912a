//! The mock declaration expected for one module.
use crate::module::{is_mocked, is_mocked_exec, mock_declaration, mock_declaration_exec};
use vstd::prelude::*;

verus! {

/// A mock declaration for a module path.
pub struct Mock {
    module: String,
}

impl View for Mock {
    type V = Seq<char>;

    /// The module path that the declaration mocks.
    closed spec fn view(&self) -> Seq<char> {
        self.module@
    }
}

impl Mock {
    pub fn new(module: &str) -> (r: Mock)
        ensures
            r@ == module@,
    {
        Mock { module: module.to_owned() }
    }

    /// Whether `test_file` already holds this declaration.
    pub fn with_in(&self, test_file: &str) -> (r: bool)
        ensures
            r == is_mocked(test_file@, self@),
    {
        is_mocked_exec(test_file, self.module.as_str())
    }

    /// The declaration as it is written in a test file.
    pub fn declaration(&self) -> (r: String)
        ensures
            r@ == mock_declaration(self@),
    {
        mock_declaration_exec(self.module.as_str())
    }
}

} // verus!
