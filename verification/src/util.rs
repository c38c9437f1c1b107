//! Small tools: paths of persisted files, and options decided at compile
//! time.

use vstd::prelude::*;
use vstd::string::*;
use crate::path::{join, joined};

verus! {

/// The directory that holds what is persisted.
pub const PERSISTENCE_DIR: &'static str = "/root/appmgr";

/// The directory in which a file is written before it replaces the
/// persisted one.
pub const TMP_DIR: &'static str = "/root/tmp/appmgr";

/// The number of `/` that `path` begins with.
pub open spec fn leading_slashes(path: Seq<char>) -> int
    decreases path.len(),
{
    if path.len() > 0 && path[0] == '/' {
        1 + leading_slashes(path.drop_first())
    } else {
        0
    }
}

/// `path` without the `/` it begins with.
pub open spec fn relative(path: Seq<char>) -> Seq<char> {
    path.skip(leading_slashes(path))
}

/// The leading slashes are slashes, end before a character that is none,
/// and are all there are: what is left is a relative path.
pub proof fn leading_slashes_counts(path: Seq<char>)
    ensures
        0 <= leading_slashes(path) <= path.len(),
        forall|i: int| 0 <= i < leading_slashes(path) ==> path[i] == '/',
        leading_slashes(path) < path.len() ==> path[leading_slashes(path)] != '/',
        !crate::path::is_absolute(relative(path)),
    decreases path.len(),
{
    if path.len() > 0 && path[0] == '/' {
        let rest = path.drop_first();
        leading_slashes_counts(rest);
        assert forall|i: int| 0 <= i < leading_slashes(path) implies path[i] == '/' by {
            if i > 0 {
                assert(path[i] == rest[i - 1]);
            }
        }
        if leading_slashes(path) < path.len() {
            assert(path[leading_slashes(path)] == rest[leading_slashes(rest)]);
        }
    }
}

/// The path of a persisted file, relative to the directory of all of them.
#[derive(Debug)]
pub struct PersistencePath {
    path: String,
}

impl View for PersistencePath {
    type V = Seq<char>;

    closed spec fn view(&self) -> Seq<char> {
        self.path@
    }
}

/// `path` without its leading slashes.
fn strip_root(path: &str) -> (r: String)
    ensures
        r@ == relative(path@),
{
    let n = path.unicode_len();
    let mut i: usize = 0;
    proof {
        leading_slashes_counts(path@);
    }
    while i < n && path.get_char(i) == '/'
        invariant
            n == path@.len(),
            i <= n,
            i <= leading_slashes(path@),
            0 <= leading_slashes(path@) <= path@.len(),
            forall|j: int| 0 <= j < leading_slashes(path@) ==> path@[j] == '/',
            leading_slashes(path@) < path@.len() ==> path@[leading_slashes(path@)] != '/',
        decreases n - i,
    {
        i = i + 1;
    }
    assert(i == leading_slashes(path@));
    let r = path.substring_char(i, n).to_owned();
    assert(r@ =~= relative(path@));
    r
}

impl PersistencePath {
    #[verifier::type_invariant]
    closed spec fn is_relative(self) -> bool {
        !crate::path::is_absolute(self.path@)
    }

    /// The persisted path that `p` names: `p` itself, taken from the root
    /// where it starts there.
    pub fn from_ref(p: &str) -> (r: PersistencePath)
        ensures
            r@ == relative(p@),
    {
        proof {
            leading_slashes_counts(p@);
        }
        PersistencePath { path: strip_root(p) }
    }

    /// The persisted path that `path` names: `path` itself, taken from the
    /// root where it starts there.
    pub fn new(path: String) -> (r: PersistencePath)
        ensures
            r@ == relative(path@),
    {
        proof {
            leading_slashes_counts(path@);
        }
        PersistencePath { path: strip_root(path.as_str()) }
    }

    /// The persisted path of `path` under this one.
    pub fn join(&self, path: &str) -> (r: PersistencePath)
        ensures
            r@ == relative(joined(self@, path@)),
    {
        PersistencePath::new(join(self.path.as_str(), path))
    }

    /// Where the file is written before it is committed.
    pub fn tmp(&self) -> (p: String)
        ensures
            p@ == joined(TMP_DIR@, self@),
    {
        join(TMP_DIR, self.path.as_str())
    }

    /// Where the persisted file lies.
    pub fn path(&self) -> (p: String)
        ensures
            p@ == joined(PERSISTENCE_DIR@, self@),
    {
        join(PERSISTENCE_DIR, self.path.as_str())
    }

    /// Where the lock of the persisted file lies: beside it, with `.lock`
    /// added to its name.
    pub fn lock_path(&self) -> (p: String)
        ensures
            p@ == joined(PERSISTENCE_DIR@, self@) + ".lock"@,
    {
        let mut p = self.path();
        p.append(".lock");
        p
    }
}

impl Clone for PersistencePath {
    fn clone(&self) -> (r: PersistencePath)
        ensures
            r == *self,
    {
        proof {
            use_type_invariant(self);
        }
        PersistencePath { path: self.path.clone() }
    }
}

/// A persisted path never starts at the root, so it always lies under the
/// directory it is joined to.
pub proof fn persisted_path_stays_inside(p: Seq<char>, dir: Seq<char>)
    requires
        dir.len() > 0,
        dir.last() != '/',
    ensures
        joined(dir, relative(p)) == dir + seq!['/'] + relative(p),
{
    leading_slashes_counts(p);
}

/// How a command ended.
pub struct Output {
    pub success: bool,
    pub stdout: Vec<u8>,
    pub stderr: Vec<u8>,
}

/// What a finished command is read as: its standard output where it
/// succeeded, and otherwise an error of the kind given, whose message is the
/// standard error — or `Unknown Error` where that is no text.
pub fn invoke(output: Output, error_kind: crate::error::ErrorKind) -> (r: Result<
    Vec<u8>,
    crate::error::Error,
>)
    ensures
        r is Ok <==> output.success,
        r matches Ok(stdout) ==> stdout == output.stdout,
        r matches Err(e) ==> e.kind == error_kind && e.message@ == (if vstd::utf8::valid_utf8(
            output.stderr@,
        ) {
            vstd::utf8::decode_utf8(output.stderr@)
        } else {
            "Unknown Error"@
        }),
{
    let Output { success, stdout, stderr } = output;
    if success {
        Ok(stdout)
    } else {
        let message = match crate::text::string_from_utf8(stderr) {
            Some(text) => text,
            None => "Unknown Error".to_owned(),
        };
        Err(crate::error::Error::new(message, error_kind))
    }
}

/// Anything can be handed to a function as its argument.
pub trait Apply: Sized {
    /// What `func` makes of `self`.
    fn apply<O, F: FnOnce(Self) -> O>(self, func: F) -> (o: O)
        requires
            func.requires((self,)),
        ensures
            func.ensures((self,), o),
    {
        func(self)
    }
}

/// Anything can be handed to a function by reference.
pub trait ApplyRef {
    /// What `func` makes of a look at `self`.
    fn apply_ref<O, F: FnOnce(&Self) -> O>(&self, func: F) -> (o: O)
        requires
            func.requires((self,)),
        ensures
            func.ensures((self,), o),
    {
        func(self)
    }
}

impl<T> Apply for T {

}

impl<T> ApplyRef for T {

}

/// How an update handle is used.
pub trait UpdateHandleMode {

}

/// The handle is read from.
pub struct ForRead;

impl UpdateHandleMode for ForRead {

}

/// The handle is written to.
pub struct ForWrite;

impl UpdateHandleMode for ForWrite {

}

/// What there is no value of: nothing makes one, so whatever takes one is
/// never run.
pub struct Never {
    nothing: (),
}

impl Never {
    #[verifier::type_invariant]
    closed spec fn impossible(self) -> bool {
        false
    }

    /// Whatever is asked for: there is no value to ask it of.
    pub fn absurd<T>(self) -> (t: T) {
        proof {
            use_type_invariant(&self);
        }
        vstd::pervasive::unreached()
    }
}

/// An option whose presence is known to the compiler.
pub trait SOption<T> {

}

/// A value that is there.
pub struct SSome<T>(pub T);

impl<T> SSome<T> {
    /// The value.
    pub fn into(self) -> (t: T)
        ensures
            t == self.0,
    {
        self.0
    }

    /// `t`, known to be there.
    pub fn from(t: T) -> (s: SSome<T>)
        ensures
            s.0 == t,
    {
        SSome(t)
    }
}

impl<T> SOption<T> for SSome<T> {

}

/// A value that is not there.
pub struct SNone<T>(pub core::marker::PhantomData<T>);

impl<T> SNone<T> {
    pub fn new() -> (s: SNone<T>) {
        SNone(core::marker::PhantomData)
    }
}

impl<T> SOption<T> for SNone<T> {

}

} // verus!
