//! The failures that the library reports, each with the chain of operations
//! that were in progress when it happened.

use crate::text::{joined, views};
use vstd::prelude::*;
use vstd::string::StringExecFns;

verus! {

/// What went wrong.
#[derive(Clone, Debug, PartialEq, Eq)]
pub enum ErrorCause {
    /// The manifest is present but a field has the wrong shape, or a required
    /// section is absent.
    ConfigError(String),
    /// A canister, network or identifier that was referred to does not exist.
    NotFoundError(String),
    /// The canisters depend on each other in a cycle; the text holds the cycle.
    DependencyError(String),
    /// A file could not be read, written or created.
    IoError(String),
    /// An external command ended with a failure: its description, its exit
    /// code where there is one, and what it wrote to standard output and to
    /// standard error.
    CommandError(String, Option<i32>, String, String),
    /// A computed output path lies outside the workspace root.
    PathSafetyError(String),
}

/// The mathematical value of an `ErrorCause`.
pub enum ErrorCauseView {
    ConfigError(Seq<char>),
    NotFoundError(Seq<char>),
    DependencyError(Seq<char>),
    IoError(Seq<char>),
    CommandError(Seq<char>, Option<i32>, Seq<char>, Seq<char>),
    PathSafetyError(Seq<char>),
}

impl View for ErrorCause {
    type V = ErrorCauseView;

    open spec fn view(&self) -> ErrorCauseView {
        match self {
            ErrorCause::ConfigError(m) => ErrorCauseView::ConfigError(m@),
            ErrorCause::NotFoundError(m) => ErrorCauseView::NotFoundError(m@),
            ErrorCause::DependencyError(m) => ErrorCauseView::DependencyError(m@),
            ErrorCause::IoError(m) => ErrorCauseView::IoError(m@),
            ErrorCause::CommandError(c, s, o, e) => ErrorCauseView::CommandError(c@, *s, o@, e@),
            ErrorCause::PathSafetyError(m) => ErrorCauseView::PathSafetyError(m@),
        }
    }
}

impl ErrorCauseView {
    /// The text that describes the cause: its message, or for a failed command
    /// its description.
    pub open spec fn message(self) -> Seq<char> {
        match self {
            ErrorCauseView::ConfigError(m) => m,
            ErrorCauseView::NotFoundError(m) => m,
            ErrorCauseView::DependencyError(m) => m,
            ErrorCauseView::IoError(m) => m,
            ErrorCauseView::CommandError(c, _, _, _) => c,
            ErrorCauseView::PathSafetyError(m) => m,
        }
    }
}

/// A failure: its cause, and one line for each operation that was in progress,
/// the innermost first.
#[derive(Clone, Debug, PartialEq, Eq)]
pub struct DfxError {
    pub cause: ErrorCause,
    pub context: Vec<String>,
}

/// The mathematical value of a `DfxError`.
pub struct DfxErrorView {
    pub cause: ErrorCauseView,
    pub context: Seq<Seq<char>>,
}

impl DfxErrorView {
    /// A failure with this cause and no context yet.
    pub open spec fn new(cause: ErrorCauseView) -> DfxErrorView {
        DfxErrorView { cause, context: Seq::empty() }
    }

    /// The same failure, seen from one operation further out.
    pub open spec fn with_context(self, line: Seq<char>) -> DfxErrorView {
        DfxErrorView { cause: self.cause, context: self.context.push(line) }
    }

    /// The lines of the report: the outermost operation first, the cause last.
    pub open spec fn chain(self) -> Seq<Seq<char>> {
        self.context.reverse().push(self.cause.message())
    }
}

/// The outcome `r`, with `line` added to its failure.
pub open spec fn in_context<T>(r: Result<T, DfxErrorView>, line: Seq<char>) -> Result<
    T,
    DfxErrorView,
> {
    match r {
        Ok(value) => Ok(value),
        Err(e) => Err(e.with_context(line)),
    }
}

impl View for DfxError {
    type V = DfxErrorView;

    open spec fn view(&self) -> DfxErrorView {
        DfxErrorView { cause: self.cause@, context: views(self.context@) }
    }
}

impl DfxError {
    /// A failure with this cause and no context yet.
    pub fn new(cause: ErrorCause) -> (r: DfxError)
        ensures
            r@ == DfxErrorView::new(cause@),
    {
        let r = DfxError { cause, context: Vec::new() };
        proof {
            assert(views(r.context@) =~= Seq::<Seq<char>>::empty());
        }
        r
    }

    /// Adds the description of the operation that was in progress.
    pub fn with_context(self, line: String) -> (r: DfxError)
        ensures
            r@ == self@.with_context(line@),
    {
        let mut context = self.context;
        let ghost before = context@;
        context.push(line);
        proof {
            assert(views(context@) =~= views(before).push(line@));
        }
        DfxError { cause: self.cause, context }
    }

    /// The text that describes the cause.
    pub fn message(&self) -> (r: String)
        ensures
            r@ == self@.cause.message(),
    {
        match &self.cause {
            ErrorCause::ConfigError(m) => m.clone(),
            ErrorCause::NotFoundError(m) => m.clone(),
            ErrorCause::DependencyError(m) => m.clone(),
            ErrorCause::IoError(m) => m.clone(),
            ErrorCause::CommandError(c, _, _, _) => c.clone(),
            ErrorCause::PathSafetyError(m) => m.clone(),
        }
    }

    /// The whole report on one line: each operation from the outermost in,
    /// then the cause, with `": "` between them.
    pub fn to_text(&self) -> (r: String)
        ensures
            r@ == joined(self@.chain(), ": "@),
    {
        let mut lines: Vec<String> = Vec::new();
        let mut i: usize = self.context.len();
        while i > 0
            invariant
                0 <= i <= self.context.len(),
                lines.len() == self.context.len() - i,
                forall|j: int|
                    0 <= j < lines.len() ==> lines[j]@ == self.context[self.context.len() - 1 - j]@,
            decreases i,
        {
            i -= 1;
            lines.push(self.context[i].clone());
        }
        lines.push(self.message());
        proof {
            assert(views(lines@) =~= self@.chain());
        }
        crate::text::join(&lines, ": ")
    }
}

} // verus!
