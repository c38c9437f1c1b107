//! Host paths, held as text with `/` between the segments.

use vstd::prelude::*;
use vstd::string::*;

verus! {

/// `seg` adjoined to `base`: an absolute `seg` replaces `base`; otherwise
/// the two are put together with exactly one `/` between them unless `base`
/// is empty or already ends in one.
pub open spec fn joined(base: Seq<char>, seg: Seq<char>) -> Seq<char> {
    if seg.len() > 0 && seg[0] == '/' {
        seg
    } else if base.len() == 0 || base.last() == '/' {
        base + seg
    } else {
        base + seq!['/'] + seg
    }
}

/// Is the path absolute?
pub open spec fn is_absolute(path: Seq<char>) -> bool {
    path.len() > 0 && path[0] == '/'
}

/// Adjoins `seg` to `base`.
pub fn join(base: &str, seg: &str) -> (r: String)
    ensures
        r@ == joined(base@, seg@),
{
    let n = base.unicode_len();
    let m = seg.unicode_len();
    if m > 0 && seg.get_char(0) == '/' {
        return seg.to_owned();
    }
    let mut r = base.to_owned();
    if n > 0 && base.get_char(n - 1) != '/' {
        proof {
            reveal_strlit("/");
        }
        r.append("/");
        assert(r@ =~= base@ + seq!['/']);
    }
    r.append(seg);
    r
}

} // verus!
