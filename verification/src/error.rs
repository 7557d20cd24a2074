use vstd::prelude::*;

verus! {

/// Error type of the formatting routines.
///
/// The routines report an index whose character mapping would fall outside
/// the representable range as a checked failure of this type. The verified
/// implementations show that, on the inputs their preconditions admit, this
/// error is never produced; callers still handle it as a typed outcome.
#[derive(Debug)]
pub enum ExcelErr {
    /// A formatting step could not represent an index as a character.
    Xml(String),
}

impl ExcelErr {
    /// The message carried by the error.
    pub fn message(&self) -> (m: &String)
        ensures
            *self matches ExcelErr::Xml(s) && m@ == s@,
    {
        match self {
            ExcelErr::Xml(m) => m,
        }
    }
}

} // verus!
