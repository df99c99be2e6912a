//! An imported module, named by the path literal of its import statement.
use crate::text::{chars_of, contains, contains_exec};
use vstd::prelude::*;
use vstd::string::StringExecFns;

verus! {

/// What a test file must hold for `m` to count as mocked: the opening of
/// a `jest.mock` call on the module path. Arguments after the path, such
/// as a factory, are allowed.
pub open spec fn mock_prefix(m: Seq<char>) -> Seq<char> {
    "jest.mock(\""@ + m + "\""@
}

/// The complete mock declaration for `m`, ready to paste into a test file.
pub open spec fn mock_declaration(m: Seq<char>) -> Seq<char> {
    "jest.mock(\""@ + m + "\")"@
}

/// The paths of a sequence of modules.
pub open spec fn module_names(ms: Seq<Module>) -> Seq<Seq<char>> {
    ms.map_values(|m: Module| m@)
}

/// Whether a test file text mocks `m`.
pub open spec fn is_mocked(test_file: Seq<char>, m: Seq<char>) -> bool {
    contains(test_file, mock_prefix(m))
}

/// The mock prefix for `m`, built at run time.
pub(crate) fn mock_prefix_exec(m: &str) -> (r: String)
    ensures
        r@ == mock_prefix(m@),
{
    let mut r = "jest.mock(\"".to_owned();
    r.append(m);
    r.append("\"");
    r
}

/// The mock declaration for `m`, built at run time.
pub(crate) fn mock_declaration_exec(m: &str) -> (r: String)
    ensures
        r@ == mock_declaration(m@),
{
    let mut r = "jest.mock(\"".to_owned();
    r.append(m);
    r.append("\")");
    r
}

/// Whether `test_file` mocks the module `m`.
pub(crate) fn is_mocked_exec(test_file: &str, m: &str) -> (r: bool)
    ensures
        r == is_mocked(test_file@, m@),
{
    let prefix = mock_prefix_exec(m);
    let text = chars_of(test_file);
    let pattern = chars_of(prefix.as_str());
    contains_exec(&text, &pattern)
}

/// A module identifier exactly as it appears in an import statement.
#[derive(Debug)]
pub struct Module(String);

impl View for Module {
    type V = Seq<char>;

    closed spec fn view(&self) -> Seq<char> {
        self.0@
    }
}

impl Module {
    pub fn new(module: &str) -> (r: Module)
        ensures
            r@ == module@,
    {
        Module(module.to_owned())
    }

    /// The module path.
    pub fn name(&self) -> (r: &str)
        ensures
            r@ == self@,
    {
        self.0.as_str()
    }

    /// Whether `test_file` holds a mock declaration for this module.
    pub fn mock_with_in(&self, test_file: &str) -> (r: bool)
        ensures
            r == is_mocked(test_file@, self@),
    {
        is_mocked_exec(test_file, self.0.as_str())
    }

    /// The declaration that mocks this module.
    pub fn mock(&self) -> (r: String)
        ensures
            r@ == mock_declaration(self@),
    {
        mock_declaration_exec(self.0.as_str())
    }

    /// A copy of this module identifier.
    pub fn duplicate(&self) -> (r: Module)
        ensures
            r@ == self@,
    {
        Module::new(self.0.as_str())
    }
}

} // verus!
