//! The messages of match errors.

use vstd::prelude::*;
use vstd::string::*;
use crate::config::{MatchError, MatchErrorView, NoMatchView, NoMatchWithPath, NumRange};
use crate::config::spec::{PointerView, ValueSpecPointer};
use crate::config::value::signed_decimal;
use crate::text::{string_of, texts};
use crate::version::{decimal, push_decimal};

verus! {

/// A text as it is quoted in a message: between double quotes, with what
/// cannot stand there as it is escaped.
pub uninterp spec fn quoted(text: Seq<char>) -> Seq<char>;

/// The `{:?}` form of a text, which depends on the text alone.
#[verifier::external_body]
fn quote(text: &str) -> (r: String)
    ensures
        r@ == quoted(text@),
{
    format!("{:?}", text)
}

/// The texts, quoted, with `, ` between them.
pub open spec fn quoted_list(items: Seq<Seq<char>>) -> Seq<char>
    decreases items.len(),
{
    if items.len() == 0 {
        Seq::empty()
    } else if items.len() == 1 {
        quoted(items[0])
    } else {
        quoted_list(items.drop_last()) + ", "@ + quoted(items.last())
    }
}

/// The texts as a set in a message: quoted, between braces.
pub open spec fn quoted_set(items: Seq<Seq<char>>) -> Seq<char> {
    seq!['{'] + quoted_list(items) + seq!['}']
}

fn quote_set(items: &Vec<String>) -> (r: String)
    ensures
        r@ == quoted_set(texts(items@)),
{
    let mut r = String::new();
    proof {
        reveal_strlit("{");
        reveal_strlit("}");
    }
    r.append("{");
    let ghost all = texts(items@);
    let mut i: usize = 0;
    assert(r@ =~= seq!['{'] + quoted_list(all.take(0)));
    while i < items.len()
        invariant
            i <= items@.len(),
            all == texts(items@),
            r@ == seq!['{'] + quoted_list(all.take(i as int)),
        decreases items@.len() - i,
    {
        proof {
            let next = all.take(i as int + 1);
            assert(next.drop_last() =~= all.take(i as int));
            assert(next.last() == all[i as int]);
        }
        if i > 0 {
            r.append(", ");
        }
        r.append(quote(items[i].as_str()).as_str());
        assert(r@ =~= seq!['{'] + quoted_list(all.take(i as int + 1)));
        i = i + 1;
    }
    assert(all.take(i as int) =~= all);
    r.append("}");
    assert(r@ =~= quoted_set(all));
    r
}

/// The text of a range: `[` or `]` at an end that belongs to the range,
/// `(` or `)` at one that does not, and `*` for an open end.
pub open spec fn range_text(r: NumRange) -> Seq<char> {
    (match r.min {
        Some(b) => (if b.inclusive {
            seq!['[']
        } else {
            seq!['(']
        }) + signed_decimal(b.value as int),
        None => seq!['(', '*'],
    }) + seq![','] + (match r.max {
        Some(b) => signed_decimal(b.value as int) + (if b.inclusive {
            seq![']']
        } else {
            seq![')']
        }),
        None => seq!['*', ')'],
    })
}

fn push_signed(n: i64, out: &mut Vec<char>)
    ensures
        final(out)@ == old(out)@ + signed_decimal(n as int),
{
    if n < 0 {
        out.push('-');
        let magnitude: u64 = if n == i64::MIN {
            0x8000_0000_0000_0000u64
        } else {
            (-n) as u64
        };
        push_decimal(magnitude, out);
    } else {
        push_decimal(n as u64, out);
    }
    assert(out@ =~= old(out)@ + signed_decimal(n as int));
}

impl NumRange {
    /// The text of the range.
    pub fn to_string(&self) -> (s: String)
        ensures
            s@ == range_text(*self),
    {
        let mut out: Vec<char> = Vec::new();
        match self.min {
            Some(b) => {
                if b.inclusive {
                    out.push('[');
                } else {
                    out.push('(');
                }
                push_signed(b.value, &mut out);
            },
            None => {
                out.push('(');
                out.push('*');
            },
        }
        out.push(',');
        match self.max {
            Some(b) => {
                push_signed(b.value, &mut out);
                if b.inclusive {
                    out.push(']');
                } else {
                    out.push(')');
                }
            },
            None => {
                out.push('*');
                out.push(')');
            },
        }
        assert(out@ =~= range_text(*self));
        string_of(&out)
    }
}

/// The text of a pointer in a message: the package it looks into, or
/// `system`.
pub open spec fn pointer_text(p: PointerView) -> Seq<char> {
    match p {
        PointerView::Package(package_id, _) => package_id,
        PointerView::System(_) => "system"@,
    }
}

/// The message of a match error.
pub open spec fn match_error_text(e: MatchErrorView) -> Seq<char> {
    match e {
        MatchErrorView::Pattern(s, p) => "String "@ + quoted(s) + " Does Not Match Pattern "@ + p,
        MatchErrorView::Enum(s, values) => "String "@ + quoted(s) + " Is Not In Enum "@
            + quoted_set(values),
        MatchErrorView::NotNullable => "Field Is Not Nullable"@,
        MatchErrorView::LengthMismatch(r, n) => "Length Mismatch: expected "@ + range_text(r)
            + ", actual: "@ + decimal(n as nat),
        MatchErrorView::InvalidType(a, b) => "Invalid Type: expected "@ + a@ + ", actual: "@ + b@,
        MatchErrorView::OutOfRange(r, n) => "Number Out Of Range: expected "@ + range_text(r)
            + ", actual: "@ + n.text,
        MatchErrorView::NonIntegral(n) => "Number Is Not Integral: "@ + n.text,
        MatchErrorView::Union(s, names) => "Variant "@ + quoted(s) + " Is Not In Union "@
            + quoted_set(names),
        MatchErrorView::MissingTag(t) => "Variant Is Missing Tag "@ + quoted(t),
        MatchErrorView::PropertyMatchesUnionTag(p, v) => "Property "@ + quoted(p) + " Of Variant "@
            + quoted(v) + " Conflicts With Union Tag"@,
        MatchErrorView::PropertyNameMatchesMapTag(p) => "Name of Property "@ + quoted(p)
            + " Conflicts With Map Tag Name"@,
        MatchErrorView::InvalidPointer(p) => "Pointer Is Invalid: "@ + pointer_text(p),
        MatchErrorView::InvalidKey(k) => "Object Key Is Invalid: "@ + k,
        MatchErrorView::ListUniquenessViolation => "Value In List Is Not Unique"@,
    }
}

impl MatchError {
    /// The message of the error.
    pub fn to_string(&self) -> (s: String)
        ensures
            s@ == match_error_text(self@),
    {
        match self {
            MatchError::Pattern(text, pattern) => {
                let mut s = "String ".to_owned();
                s.append(quote(text.as_str()).as_str());
                s.append(" Does Not Match Pattern ");
                s.append(pattern.as_str());
                s
            },
            MatchError::Enum(text, values) => {
                let mut s = "String ".to_owned();
                s.append(quote(text.as_str()).as_str());
                s.append(" Is Not In Enum ");
                s.append(quote_set(values).as_str());
                s
            },
            MatchError::NotNullable => "Field Is Not Nullable".to_owned(),
            MatchError::LengthMismatch(range, n) => {
                let mut s = "Length Mismatch: expected ".to_owned();
                s.append(range.to_string().as_str());
                s.append(", actual: ");
                let mut digits: Vec<char> = Vec::new();
                push_decimal(*n as u64, &mut digits);
                assert(digits@ =~= decimal(*n as nat));
                s.append(string_of(&digits).as_str());
                s
            },
            MatchError::InvalidType(expected, actual) => {
                let mut s = "Invalid Type: expected ".to_owned();
                s.append(expected);
                s.append(", actual: ");
                s.append(actual);
                s
            },
            MatchError::OutOfRange(range, n) => {
                let mut s = "Number Out Of Range: expected ".to_owned();
                s.append(range.to_string().as_str());
                s.append(", actual: ");
                s.append(n.text.as_str());
                s
            },
            MatchError::NonIntegral(n) => {
                let mut s = "Number Is Not Integral: ".to_owned();
                s.append(n.text.as_str());
                s
            },
            MatchError::Union(text, names) => {
                let mut s = "Variant ".to_owned();
                s.append(quote(text.as_str()).as_str());
                s.append(" Is Not In Union ");
                s.append(quote_set(names).as_str());
                s
            },
            MatchError::MissingTag(tag) => {
                let mut s = "Variant Is Missing Tag ".to_owned();
                s.append(quote(tag.as_str()).as_str());
                s
            },
            MatchError::PropertyMatchesUnionTag(property, variant) => {
                let mut s = "Property ".to_owned();
                s.append(quote(property.as_str()).as_str());
                s.append(" Of Variant ");
                s.append(quote(variant.as_str()).as_str());
                s.append(" Conflicts With Union Tag");
                s
            },
            MatchError::PropertyNameMatchesMapTag(property) => {
                let mut s = "Name of Property ".to_owned();
                s.append(quote(property.as_str()).as_str());
                s.append(" Conflicts With Map Tag Name");
                s
            },
            MatchError::InvalidPointer(pointer) => {
                let mut s = "Pointer Is Invalid: ".to_owned();
                match pointer {
                    ValueSpecPointer::Package { package_id, .. } => {
                        s.append(package_id.as_str());
                    },
                    ValueSpecPointer::System(_) => {
                        s.append("system");
                    },
                }
                s
            },
            MatchError::InvalidKey(key) => {
                let mut s = "Object Key Is Invalid: ".to_owned();
                s.append(key.as_str());
                s
            },
            MatchError::ListUniquenessViolation => "Value In List Is Not Unique".to_owned(),
        }
    }
}

/// The path from the root to where an error was met, with `.` between the
/// segments: the stored path, read from its end.
pub open spec fn path_text(path: Seq<Seq<char>>) -> Seq<char>
    decreases path.len(),
{
    if path.len() == 0 {
        Seq::empty()
    } else if path.len() == 1 {
        path[0]
    } else {
        path.last() + seq!['.'] + path_text(path.drop_last())
    }
}

/// The message of a located match error: the path, a colon, and the
/// message of the error.
pub open spec fn no_match_text(e: NoMatchView) -> Seq<char> {
    path_text(e.path) + ": "@ + match_error_text(e.error)
}

impl NoMatchWithPath {
    /// The path from the root to where the error was met, with `.` between
    /// the segments.
    pub fn path_string(&self) -> (s: String)
        ensures
            s@ == path_text(texts(self.path@)),
    {
        let ghost path = texts(self.path@);
        let mut s = String::new();
        let mut i: usize = 0;
        assert(path.take(0) =~= Seq::empty());
        while i < self.path.len()
            invariant
                i <= self.path@.len(),
                path == texts(self.path@),
                s@ == path_text(path.take(i as int)),
            decreases self.path@.len() - i,
        {
            proof {
                let next = path.take(i as int + 1);
                assert(next.drop_last() =~= path.take(i as int));
                assert(next.last() == path[i as int]);
                reveal_strlit(".");
            }
            let mut longer = self.path[i].clone();
            if i > 0 {
                longer.append(".");
                longer.append(s.as_str());
            }
            assert(longer@ =~= path_text(path.take(i as int + 1)));
            s = longer;
            i = i + 1;
        }
        assert(path.take(i as int) =~= path);
        s
    }

    /// The message of the error.
    pub fn to_string(&self) -> (s: String)
        ensures
            s@ == no_match_text(self@),
    {
        let mut s = self.path_string();
        s.append(": ");
        s.append(self.error.to_string().as_str());
        s
    }
}

} // verus!
