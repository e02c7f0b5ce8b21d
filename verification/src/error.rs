//! Structured type errors.
//!
//! A recoverable mismatch is returned to the caller as an [`Error`]: a
//! structured value that records where the check failed, what was expected
//! and what was found, the reason the expectation existed, and — for dynamic
//! failures inside compound values — the path from the root of the value to
//! the failure site. Rendering an error to text is presentation and happens
//! outside this library.

use vstd::prelude::*;

use crate::runtime::{Value, ValueView};
use crate::source::Span;
use crate::type_req::{DiffView, TypeDiff};
use crate::types::{Type, TypeView};

verus! {

/// One step on the path from the root of a compound value to the place
/// where a dynamic check failed.
#[derive(Debug, PartialEq, Eq)]
pub enum PathElement {
    /// The element at this index of a list (or, as a best-effort label, of a
    /// set in its iteration order).
    Index(usize),
    /// The entry under this key of a dict.
    Key(Value),
}

/// The mathematical model of a [`PathElement`].
pub enum PathElementView {
    Index(int),
    Key(ValueView),
}

/// The model of a path element.
pub open spec fn path_element_view(e: PathElement) -> PathElementView {
    match e {
        PathElement::Index(i) => PathElementView::Index(i as int),
        PathElement::Key(k) => PathElementView::Key(k@),
    }
}

impl View for PathElement {
    type V = PathElementView;

    open spec fn view(&self) -> PathElementView {
        path_element_view(*self)
    }
}

/// A note attached to an error, anchored at a span of the source.
#[derive(Debug, PartialEq, Eq)]
pub enum Note {
    /// The expected type is specified here.
    ExpectedTypeHere,
    /// This type is expected due to the operator here.
    OperatorExpects(Type),
}

/// The mathematical model of a [`Note`].
pub enum NoteView {
    ExpectedTypeHere,
    OperatorExpects(TypeView),
}

/// The model of a note.
pub open spec fn note_view(n: Note) -> NoteView {
    match n {
        Note::ExpectedTypeHere => NoteView::ExpectedTypeHere,
        Note::OperatorExpects(t) => NoteView::OperatorExpects(t@),
    }
}

impl View for Note {
    type V = NoteView;

    open spec fn view(&self) -> NoteView {
        note_view(*self)
    }
}

/// Free-standing help text attached to an error.
#[derive(Clone, Copy, Debug, PartialEq, Eq)]
pub enum Help {
    /// There is no implicit conversion, conditions must be boolean.
    ConditionMustBeBool,
    /// List indices must be integers.
    ListIndexMustBeInt,
}

/// The body of an error: what was being compared, and how it failed.
#[derive(Debug, PartialEq, Eq)]
pub enum ErrorBody {
    /// A static mismatch at the top level of the compared types.
    TypeMismatch { expected: Type, actual: Type },
    /// A static mismatch nested somewhere inside a compound type; the diff
    /// records exactly where.
    NestedMismatch(TypeDiff),
    /// A runtime value does not fit the expected type.
    ValueMismatch { expected: Type, found: Value },
}

/// The mathematical model of an [`ErrorBody`].
pub enum BodyView {
    TypeMismatch { expected: TypeView, actual: TypeView },
    NestedMismatch(DiffView),
    ValueMismatch { expected: TypeView, found: ValueView },
}

/// The model of an error body.
pub open spec fn body_view(b: ErrorBody) -> BodyView {
    match b {
        ErrorBody::TypeMismatch { expected, actual } => BodyView::TypeMismatch {
            expected: expected@,
            actual: actual@,
        },
        ErrorBody::NestedMismatch(d) => BodyView::NestedMismatch(d@),
        ErrorBody::ValueMismatch { expected, found } => BodyView::ValueMismatch {
            expected: expected@,
            found: found@,
        },
    }
}

impl View for ErrorBody {
    type V = BodyView;

    open spec fn view(&self) -> BodyView {
        body_view(*self)
    }
}

/// A reported type error.
#[derive(Debug, PartialEq, Eq)]
pub struct Error {
    /// Where the check that failed was anchored.
    pub at: Span,
    /// What failed.
    pub body: ErrorBody,
    /// An optional note, anchored at its own span.
    pub note: Option<(Span, Note)>,
    /// Optional help text.
    pub help: Option<Help>,
    /// The path from the root of the checked value to the failure site,
    /// outermost element first.
    pub path: Vec<PathElement>,
}

/// The mathematical model of an [`Error`].
pub struct ErrorView {
    pub at: Span,
    pub body: BodyView,
    pub note: Option<(Span, NoteView)>,
    pub help: Option<Help>,
    pub path: Seq<PathElementView>,
}

impl View for Error {
    type V = ErrorView;

    open spec fn view(&self) -> ErrorView {
        ErrorView {
            at: self.at,
            body: self.body@,
            note: match self.note {
                Option::None => Option::None,
                Option::Some((at, n)) => Option::Some((at, n@)),
            },
            help: self.help,
            path: Seq::new(
                self.path@.len(),
                |i: int|
                    if 0 <= i < self.path@.len() {
                        self.path@[i]@
                    } else {
                        PathElementView::Index(0)
                    },
            ),
        }
    }
}

impl Error {
    /// A fresh error: a body anchored at a span, with nothing attached yet.
    pub fn new(at: Span, body: ErrorBody) -> (r: Error)
        ensures
            r@.at == at,
            r@.body == body@,
            r@.note is None,
            r@.help is None,
            r@.path == Seq::<PathElementView>::empty(),
    {
        let r = Error { at, body, note: None, help: None, path: Vec::new() };
        proof {
            assert(r@.path =~= Seq::<PathElementView>::empty());
        }
        r
    }

    /// Attach a note anchored at a span.
    pub fn with_note(self, at: Span, note: Note) -> (r: Error)
        ensures
            r@.at == self@.at,
            r@.body == self@.body,
            r@.note == Option::Some((at, note@)),
            r@.help == self@.help,
            r@.path == self@.path,
    {
        let r = Error {
            at: self.at,
            body: self.body,
            note: Some((at, note)),
            help: self.help,
            path: self.path,
        };
        proof {
            assert(r@.path =~= self@.path);
        }
        r
    }

    /// Attach help text.
    pub fn with_help(self, help: Help) -> (r: Error)
        ensures
            r@.at == self@.at,
            r@.body == self@.body,
            r@.note == self@.note,
            r@.help == Option::Some(help),
            r@.path == self@.path,
    {
        let r = Error {
            at: self.at,
            body: self.body,
            note: self.note,
            help: Some(help),
            path: self.path,
        };
        proof {
            assert(r@.path =~= self@.path);
        }
        r
    }

    /// Prepend one element to the failure path. As an error propagates out
    /// of a compound value, each level prepends its own element, so the
    /// final path reads from the outermost element to the innermost one.
    pub fn with_path_element(self, element: PathElement) -> (r: Error)
        ensures
            r@.at == self@.at,
            r@.body == self@.body,
            r@.note == self@.note,
            r@.help == self@.help,
            r@.path == seq![element@] + self@.path,
    {
        let mut path = self.path;
        path.insert(0, element);
        let r = Error {
            at: self.at,
            body: self.body,
            note: self.note,
            help: self.help,
            path,
        };
        proof {
            assert(r@.path =~= seq![element@] + self@.path);
        }
        r
    }
}

} // verus!
