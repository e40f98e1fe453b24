use vstd::prelude::*;

use crate::number::Number;
use crate::value::ValueKind;

verus! {

/// One step from a value into a part of it.
#[derive(Clone, Debug)]
pub enum PathSegment {
    Key(String),
    Index(usize),
}

/// A path step as the contracts see it.
pub enum Step {
    Key(Seq<char>),
    Index(usize),
}

impl View for PathSegment {
    type V = Step;

    open spec fn view(&self) -> Step {
        match self {
            PathSegment::Key(k) => Step::Key(k@),
            PathSegment::Index(i) => Step::Index(*i),
        }
    }
}

pub open spec fn path_view(p: Seq<PathSegment>) -> Seq<Step> {
    p.map_values(|s: PathSegment| s@)
}

impl PathSegment {
    pub fn copy(&self) -> (r: PathSegment)
        ensures
            r@ == self@,
    {
        match self {
            PathSegment::Key(k) => PathSegment::Key(k.clone()),
            PathSegment::Index(i) => PathSegment::Index(*i),
        }
    }
}

/// A copy of a path, step by step.
pub fn copy_path(p: &Vec<PathSegment>) -> (r: Vec<PathSegment>)
    ensures
        path_view(r@) == path_view(p@),
{
    let mut r: Vec<PathSegment> = Vec::new();
    let mut i: usize = 0;
    while i < p.len()
        invariant
            i <= p@.len(),
            r@.len() == i,
            forall|j: int| 0 <= j < i ==> (#[trigger] r@[j])@ == p@[j]@,
        decreases p@.len() - i,
    {
        r.push(p[i].copy());
        i = i + 1;
    }
    assert(path_view(r@) =~= path_view(p@)) by {
        assert forall|j: int| 0 <= j < r@.len() implies path_view(r@)[j] == path_view(p@)[j] by {
            assert(r@[j]@ == p@[j]@);
        }
    }
    r
}

/// What a violation is about.
#[derive(Clone, Copy, Debug, PartialEq, Eq, Structural)]
pub enum ErrorCode {
    InvalidType,
    MinLength,
    MaxLength,
    Min,
    Max,
    Required,
    MinItems,
    MaxItems,
    AdditionalProperty,
}

/// The bound that a violation broke.
#[derive(Clone, Copy, Debug, PartialEq, Eq, Structural)]
pub enum Limit {
    Count(usize),
    Number(Number),
}

/// What was found: the offending string or number, an array's length, or
/// the kind of a value that was not expected there.
#[derive(Clone, Debug)]
pub enum Received {
    Text(String),
    Number(Number),
    Count(usize),
    Kind(ValueKind),
}

pub enum ReceivedView {
    Text(Seq<char>),
    Number(Number),
    Count(usize),
    Kind(ValueKind),
}

impl View for Received {
    type V = ReceivedView;

    open spec fn view(&self) -> ReceivedView {
        match self {
            Received::Text(s) => ReceivedView::Text(s@),
            Received::Number(n) => ReceivedView::Number(*n),
            Received::Count(c) => ReceivedView::Count(*c),
            Received::Kind(k) => ReceivedView::Kind(*k),
        }
    }
}

/// One violation, located by its path from the root of the input.
#[derive(Clone, Debug)]
pub struct ValidationError {
    pub path: Vec<PathSegment>,
    pub code: ErrorCode,
    pub message: String,
    pub expected: Option<Limit>,
    pub received: Option<Received>,
}

pub struct ErrorView {
    pub path: Seq<Step>,
    pub code: ErrorCode,
    pub message: Seq<char>,
    pub expected: Option<Limit>,
    pub received: Option<ReceivedView>,
}

impl View for ValidationError {
    type V = ErrorView;

    open spec fn view(&self) -> ErrorView {
        ErrorView {
            path: path_view(self.path@),
            code: self.code,
            message: self.message@,
            expected: self.expected,
            received: match self.received {
                Some(r) => Some(r@),
                None => None,
            },
        }
    }
}

pub open spec fn errors_view(e: Seq<ValidationError>) -> Seq<ErrorView> {
    e.map_values(|x: ValidationError| x@)
}

} // verus!
