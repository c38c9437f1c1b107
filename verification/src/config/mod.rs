//! The configuration engine: documents, their schema, and the propagation
//! of changes.

pub mod action;
pub mod cascade;
pub mod configure;
pub mod generate;
pub mod message;
pub mod pointer;
pub mod rules;
pub mod session;
pub mod spec;
pub mod validate;
pub mod value;

use vstd::prelude::*;
use crate::config::spec::{PointerView, ValueSpecPointer};
use crate::config::value::Number;
use crate::error::{Error, ErrorKind};
use crate::text::texts;

verus! {

/// Generating a configuration took more work than was allowed.
#[derive(Clone, Copy, Debug, PartialEq, Eq, Structural)]
pub struct TimeoutError;

/// One end of a range of numbers.
#[derive(Clone, Copy, Debug, PartialEq, Eq, Structural)]
pub struct Bound {
    pub value: i64,
    pub inclusive: bool,
}

/// A range of numbers; an end that is `None` is open.
#[derive(Clone, Copy, Debug, PartialEq, Eq, Structural)]
pub struct NumRange {
    pub min: Option<Bound>,
    pub max: Option<Bound>,
}

/// Does the range hold the number whose floor is `floor` and which is
/// whole exactly if `integral`?
pub open spec fn in_range(range: NumRange, floor: int, integral: bool) -> bool {
    &&& match range.min {
        Some(b) => if b.inclusive {
            floor >= b.value
        } else {
            floor > b.value || (floor == b.value && !integral)
        },
        None => true,
    }
    &&& match range.max {
        Some(b) => if b.inclusive {
            floor < b.value || (floor == b.value && integral)
        } else {
            floor < b.value
        },
        None => true,
    }
}

impl NumRange {
    /// Does the range hold the number whose floor is `floor` and which is
    /// whole exactly if `integral`?
    pub fn contains(&self, floor: i64, integral: bool) -> (b: bool)
        ensures
            b == in_range(*self, floor as int, integral),
    {
        let above = match self.min {
            Some(b) => {
                if b.inclusive {
                    floor >= b.value
                } else {
                    floor > b.value || (floor == b.value && !integral)
                }
            },
            None => true,
        };
        let below = match self.max {
            Some(b) => {
                if b.inclusive {
                    floor < b.value || (floor == b.value && integral)
                } else {
                    floor < b.value
                }
            },
            None => true,
        };
        above && below
    }
}

impl NumRange {
    /// Does the range hold the whole number `n`?
    pub fn contains_len(&self, n: usize) -> (b: bool)
        ensures
            b == in_range(*self, n as int, true),
    {
        let above = match self.min {
            Some(b) => {
                if b.inclusive {
                    n as i128 >= b.value as i128
                } else {
                    n as i128 > b.value as i128
                }
            },
            None => true,
        };
        let below = match self.max {
            Some(b) => {
                if b.inclusive {
                    n as i128 <= b.value as i128
                } else {
                    (n as i128) < b.value as i128
                }
            },
            None => true,
        };
        above && below
    }
}

/// A number as a plain value.
pub struct NumberView {
    pub text: Seq<char>,
    pub floor: i64,
    pub integral: bool,
}

/// The plain value of a number.
pub open spec fn number_view(n: Number) -> NumberView {
    NumberView { text: n.text@, floor: n.floor, integral: n.integral }
}

/// Why a document does not match a schema, or why a schema is not sound.
#[derive(Debug)]
pub enum MatchError {
    Pattern(String, String),
    Enum(String, Vec<String>),
    NotNullable,
    LengthMismatch(NumRange, usize),
    InvalidType(&'static str, &'static str),
    OutOfRange(NumRange, Number),
    NonIntegral(Number),
    Union(String, Vec<String>),
    MissingTag(String),
    PropertyMatchesUnionTag(String, String),
    PropertyNameMatchesMapTag(String),
    InvalidPointer(ValueSpecPointer),
    InvalidKey(String),
    ListUniquenessViolation,
}

/// A match error as a plain value.
pub enum MatchErrorView {
    Pattern(Seq<char>, Seq<char>),
    Enum(Seq<char>, Seq<Seq<char>>),
    NotNullable,
    LengthMismatch(NumRange, usize),
    InvalidType(&'static str, &'static str),
    OutOfRange(NumRange, NumberView),
    NonIntegral(NumberView),
    Union(Seq<char>, Seq<Seq<char>>),
    MissingTag(Seq<char>),
    PropertyMatchesUnionTag(Seq<char>, Seq<char>),
    PropertyNameMatchesMapTag(Seq<char>),
    InvalidPointer(PointerView),
    InvalidKey(Seq<char>),
    ListUniquenessViolation,
}

impl View for MatchError {
    type V = MatchErrorView;

    open spec fn view(&self) -> MatchErrorView {
        match *self {
            MatchError::Pattern(s, p) => MatchErrorView::Pattern(s@, p@),
            MatchError::Enum(s, values) => MatchErrorView::Enum(s@, texts(values@)),
            MatchError::NotNullable => MatchErrorView::NotNullable,
            MatchError::LengthMismatch(r, n) => MatchErrorView::LengthMismatch(r, n),
            MatchError::InvalidType(a, b) => MatchErrorView::InvalidType(a, b),
            MatchError::OutOfRange(r, n) => MatchErrorView::OutOfRange(r, number_view(n)),
            MatchError::NonIntegral(n) => MatchErrorView::NonIntegral(number_view(n)),
            MatchError::Union(s, names) => MatchErrorView::Union(s@, texts(names@)),
            MatchError::MissingTag(t) => MatchErrorView::MissingTag(t@),
            MatchError::PropertyMatchesUnionTag(p, v) => MatchErrorView::PropertyMatchesUnionTag(
                p@,
                v@,
            ),
            MatchError::PropertyNameMatchesMapTag(p) => MatchErrorView::PropertyNameMatchesMapTag(
                p@,
            ),
            MatchError::InvalidPointer(p) => MatchErrorView::InvalidPointer(p@),
            MatchError::InvalidKey(k) => MatchErrorView::InvalidKey(k@),
            MatchError::ListUniquenessViolation => MatchErrorView::ListUniquenessViolation,
        }
    }
}

/// A match error, and where in the document it was met. The path is kept
/// leaf first: the innermost segment stands at the front.
#[derive(Debug)]
pub struct NoMatchWithPath {
    pub path: Vec<String>,
    pub error: MatchError,
}

/// A located match error as a plain value.
pub struct NoMatchView {
    pub path: Seq<Seq<char>>,
    pub error: MatchErrorView,
}

impl View for NoMatchWithPath {
    type V = NoMatchView;

    open spec fn view(&self) -> NoMatchView {
        NoMatchView { path: texts(self.path@), error: self.error@ }
    }
}

/// `e` one level further out, under the segment `seg`.
pub open spec fn under(e: NoMatchView, seg: Seq<char>) -> NoMatchView {
    NoMatchView { path: e.path.push(seg), error: e.error }
}

/// `error`, met right here.
pub open spec fn here(error: MatchErrorView) -> NoMatchView {
    NoMatchView { path: Seq::empty(), error }
}

impl NoMatchWithPath {
    /// `error`, met at the root.
    pub fn new(error: MatchError) -> (e: NoMatchWithPath)
        ensures
            e@ == here(error@),
    {
        let e = NoMatchWithPath { path: Vec::new(), error };
        assert(e@.path =~= Seq::empty());
        e
    }

    /// The same error, one level further out: `seg` is the segment that led
    /// to where it was met.
    pub fn prepend(self, seg: String) -> (e: NoMatchWithPath)
        ensures
            e@ == under(self@, seg@),
    {
        let mut path = self.path;
        path.push(seg);
        let e = NoMatchWithPath { path, error: self.error };
        assert(e@.path =~= self@.path.push(seg@));
        e
    }
}

/// Why no configuration came about.
#[derive(Debug)]
pub enum ConfigurationError {
    TimeoutError(TimeoutError),
    NoMatch(NoMatchWithPath),
    SystemError(Error),
}

/// The kind under which a configuration error is reported: its own kind
/// for a system error, `ConfigSpecViolation` for a configuration that does
/// not match its schema, and `ConfigGen` for a timeout.
pub open spec fn configuration_error_kind(e: ConfigurationError) -> ErrorKind {
    match e {
        ConfigurationError::SystemError(e) => e.kind,
        ConfigurationError::NoMatch(_) => ErrorKind::ConfigSpecViolation,
        ConfigurationError::TimeoutError(_) => ErrorKind::ConfigGen,
    }
}

impl ConfigurationError {
    /// The kind under which the error is reported.
    pub fn kind(&self) -> (k: ErrorKind)
        ensures
            k == configuration_error_kind(*self),
    {
        match self {
            ConfigurationError::SystemError(e) => e.kind,
            ConfigurationError::NoMatch(_) => ErrorKind::ConfigSpecViolation,
            ConfigurationError::TimeoutError(_) => ErrorKind::ConfigGen,
        }
    }
}

} // verus!
