//! Plain data model of the canonical schema as handed to the generator.
//!
//! Identifiers carry their text together with an opaque source location, so
//! that diagnostics can point back at the offending token.  Types, access
//! qualifiers and pass-through attributes are opaque token text: the
//! generator copies them verbatim and never looks inside.

use vstd::prelude::*;

verus! {

/// An identifier with its source location.
#[derive(Debug)]
pub struct Ident {
    pub text: String,
    /// Opaque handle to the source location of this identifier.
    pub loc: u64,
}

impl Clone for Ident {
    fn clone(&self) -> (r: Ident)
        ensures
            r == *self,
    {
        Ident { text: self.text.clone(), loc: self.loc }
    }
}

/// One argument of a directive list: a path, of which the generator reads
/// the head identifier and the number of segments (only single-segment
/// paths are legal pseudonym references).
pub struct PathArg {
    pub ident: Ident,
    /// Number of path segments the argument was written with.
    pub segments: u64,
}

impl PathArg {
    /// A legal pseudonym reference is a bare single-segment identifier.
    pub open spec fn single_segment(self) -> bool {
        self.segments == 1
    }
}

/// One raw attribute found on a field, before directive interpretation.
pub enum RawAttr {
    /// A list-shaped annotation `category(arg, ...)`.
    List { category: Ident, args: Vec<PathArg> },
    /// Any other annotation shape, which the interpreter rejects.
    Other { loc: u64 },
}

/// One field of the canonical schema: name, opaque type and access
/// qualifier text, and the raw annotations still to be interpreted.
pub struct RawField {
    pub name: Ident,
    pub ty: String,
    pub vis: String,
    pub attrs: Vec<RawAttr>,
}

/// The canonical record definition: record-level access qualifier,
/// pass-through attributes copied verbatim onto every view, and the
/// ordered field list.
pub struct RawSchema {
    pub name: Ident,
    pub vis: String,
    pub attrs: Vec<String>,
    pub fields: Vec<RawField>,
}

/// Caller-declared association between a pseudonym (the short name used
/// inside directives) and the identifier of the generated view.
pub struct ViewMapping {
    pub pseudonym: String,
    pub view_name: String,
}

} // verus!
