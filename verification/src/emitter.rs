//! The emitter: two text buffers that only grow, and where their contents are
//! to go.

use vstd::prelude::*;
use std::path::PathBuf;

verus! {

/// `std::path::PathBuf`, carried through as the output's destination and
/// never looked into.
#[verifier::external_type_specification]
#[verifier::external_body]
pub struct ExPathBuf(PathBuf);

/// The text produced so far: `header` holds the preamble and the variable
/// declarations, `code` the C text of the statements.
#[derive(PartialEq, Eq, Debug)]
pub struct Emitter {
    pub full_path: PathBuf,
    pub header: String,
    pub code: String,
}

/// `PathBuf::clone` returns a path equal to the one it is given.
pub assume_specification[ <PathBuf as Clone>::clone ](path: &PathBuf) -> (r: PathBuf)
    ensures
        r == *path,
;

impl Clone for Emitter {
    fn clone(&self) -> (r: Self)
        ensures
            r.full_path == self.full_path,
            r.header@ == self.header@,
            r.code@ == self.code@,
    {
        Emitter {
            full_path: self.full_path.clone(),
            header: self.header.clone(),
            code: self.code.clone(),
        }
    }
}

impl Emitter {
    /// An emitter with both buffers empty.
    pub fn new(full_path: PathBuf) -> (r: Self)
        ensures
            r.full_path == full_path,
            r.header@ == Seq::<char>::empty(),
            r.code@ == Seq::<char>::empty(),
    {
        Emitter { full_path, header: String::new(), code: String::new() }
    }

    /// Appends `code` to the code buffer.
    pub fn emit(&mut self, code: &str)
        ensures
            final(self).code@ == old(self).code@ + code@,
            final(self).header == old(self).header,
            final(self).full_path == old(self).full_path,
    {
        self.code.append(code);
    }

    /// Appends `code` and a line break to the code buffer.
    pub fn emit_line(&mut self, code: &str)
        ensures
            final(self).code@ == old(self).code@ + code@ + "\n"@,
            final(self).header == old(self).header,
            final(self).full_path == old(self).full_path,
    {
        self.code.append(code);
        self.code.append("\n");
    }

    /// Appends `code` to the header buffer.
    pub fn header(&mut self, code: &str)
        ensures
            final(self).header@ == old(self).header@ + code@,
            final(self).code == old(self).code,
            final(self).full_path == old(self).full_path,
    {
        self.header.append(code);
    }

    /// Appends `code` and a line break to the header buffer.
    pub fn header_line(&mut self, code: &str)
        ensures
            final(self).header@ == old(self).header@ + code@ + "\n"@,
            final(self).code == old(self).code,
            final(self).full_path == old(self).full_path,
    {
        self.header.append(code);
        self.header.append("\n");
    }

    /// The whole output: the header, then the code.
    pub fn output(&self) -> (r: String)
        ensures
            r@ == self.header@ + self.code@,
    {
        let mut out = self.header.clone();
        out.append(self.code.as_str());
        out
    }
}

} // verus!
