//! Call-site descriptors.

use vstd::prelude::*;

verus! {

/// Describes one instrumented call site: the span's display name, where it
/// is in the source, and the names of the arguments that are recorded with
/// each span begun there. One is made per call site and never changed.
#[derive(Debug)]
pub struct SourceInfo {
    pub name: &'static str,
    pub file: &'static str,
    pub line: u32,
    pub arg_names: &'static [&'static str],
}

/// The mathematical content of a [`SourceInfo`].
pub struct SourceInfoView {
    pub name: Seq<char>,
    pub file: Seq<char>,
    pub line: u32,
    pub arg_names: Seq<Seq<char>>,
}

impl View for SourceInfo {
    type V = SourceInfoView;

    open spec fn view(&self) -> SourceInfoView {
        SourceInfoView {
            name: self.name@,
            file: self.file@,
            line: self.line,
            arg_names: self.arg_names@.map_values(|name: &'static str| name@),
        }
    }
}

impl SourceInfoView {
    /// The key under which the source location is interned.
    pub open spec fn location(self) -> (Seq<char>, u32) {
        (self.file, self.line)
    }
}

} // verus!
