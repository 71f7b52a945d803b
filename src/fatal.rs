use vstd::prelude::*;

verus! {

/// Identifies the source file that a diagnostic refers to.
#[derive(Clone, Copy, Debug, PartialEq, Eq, Structural)]
pub struct SourceId {
    pub index: u32,
}

/// The kind of a fatal diagnostic, with a description of the inner error.
#[derive(Debug)]
pub enum FatalDiagnosticKind {
    ParseError(String),
    CompileError(String),
    QueryError(String),
    LinkError(String),
    BuildError(String),
    /// An internal error.
    Internal(String),
}

/// Fatal diagnostic emitted during compilation. Fatal diagnostics indicate an
/// unrecoverable issue.
#[derive(Debug)]
pub struct FatalDiagnostic {
    /// The source id of the error.
    pub(crate) source_id: SourceId,
    /// The kind of the load error.
    pub(crate) kind: Box<FatalDiagnosticKind>,
}

impl FatalDiagnostic {
    /// The source that the diagnostic refers to.
    pub closed spec fn spec_source_id(&self) -> SourceId {
        self.source_id
    }

    /// What went wrong.
    pub closed spec fn spec_kind(&self) -> FatalDiagnosticKind {
        *self.kind
    }

    /// Builds a diagnostic of the given kind for the given source.
    pub fn new(source_id: SourceId, kind: FatalDiagnosticKind) -> (r: FatalDiagnostic)
        ensures
            r.spec_source_id() == source_id,
            r.spec_kind() == kind,
    {
        FatalDiagnostic { source_id, kind: Box::new(kind) }
    }

    /// The source id where the error originates from.
    pub fn source_id(&self) -> (r: SourceId)
        ensures
            r == self.spec_source_id(),
    {
        self.source_id
    }

    /// The kind of the load error.
    pub fn kind(&self) -> (r: &FatalDiagnosticKind)
        ensures
            *r == self.spec_kind(),
    {
        &self.kind
    }

    /// Convert into the kind of the load error.
    pub fn into_kind(self) -> (r: FatalDiagnosticKind)
        ensures
            r == self.spec_kind(),
    {
        *self.kind
    }
}

} // verus!
