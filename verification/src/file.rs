//! Paths as plugin scripts see them.

use vstd::prelude::*;
use crate::text::{chars_of, copy_range, string_of};

verus! {

/// A path, as text. How it parts into components is for the platform to
/// say: on Unix `/` parts them, elsewhere other signs do too.
#[derive(Clone, Debug)]
pub struct JsPath {
    pub inner: String,
}

/// Whether the platform takes a path to start at a root (`Path::is_absolute`).
/// What makes a path absolute differs between platforms.
#[verifier::external_body]
fn path_is_absolute(path: &str) -> (r: bool) {
    std::path::Path::new(path).is_absolute()
}

/// The last component of a path as the platform reads it
/// (`Path::file_name`), where the path has one: it has none where it ends in
/// `..` or names nothing.
#[verifier::external_body]
fn path_file_name(path: &str) -> (r: Option<String>) {
    std::path::Path::new(path).file_name().map(|v| v.to_string_lossy().to_string())
}

/// The position of the last `c` in `s`, or `-1` where there is none.
pub open spec fn last_index(s: Seq<char>, c: char) -> int
    decreases s.len(),
{
    if s.len() == 0 {
        -1
    } else if s.last() == c {
        s.len() - 1
    } else {
        last_index(s.drop_last(), c)
    }
}

/// The extension of a file name: what follows its last dot, unless the name
/// has no dot or only begins with one.
pub open spec fn extension_in(name: Seq<char>) -> Option<Seq<char>> {
    let i = last_index(name, '.');
    if i <= 0 {
        None
    } else {
        Some(name.skip(i + 1))
    }
}

/// A file name without its extension: what stands before its last dot, or
/// the whole name where it has no dot or only begins with one.
pub open spec fn stem_in(name: Seq<char>) -> Seq<char> {
    let i = last_index(name, '.');
    if i <= 0 {
        name
    } else {
        name.take(i)
    }
}

proof fn lemma_last_index(s: Seq<char>, c: char)
    ensures
        -1 <= last_index(s, c) < s.len(),
        last_index(s, c) >= 0 ==> s[last_index(s, c)] == c,
        forall|k: int| last_index(s, c) < k < s.len() ==> #[trigger] s[k] != c,
    decreases s.len(),
{
    if s.len() > 0 && s.last() != c {
        lemma_last_index(s.drop_last(), c);
        assert forall|k: int| last_index(s, c) < k < s.len() implies #[trigger] s[k] != c by {
            if k < s.len() - 1 {
                assert(s.drop_last()[k] == s[k]);
            }
        }
    }
}

/// The last `c` is where a search from the end finds it.
proof fn lemma_last_index_is(s: Seq<char>, c: char, i: int)
    requires
        -1 <= i < s.len(),
        i >= 0 ==> s[i] == c,
        forall|k: int| i < k < s.len() ==> #[trigger] s[k] != c,
    ensures
        last_index(s, c) == i,
{
    lemma_last_index(s, c);
    let j = last_index(s, c);
    if j > i {
        assert(s[j] != c);
    } else if j < i {
        assert(s[i] != c);
    }
}

/// Finds the last `c`.
pub fn find_last(v: &[char], c: char) -> (r: Option<usize>)
    ensures
        match r {
            Some(i) => last_index(v@, c) == i && i < v@.len(),
            None => last_index(v@, c) == -1,
        },
{
    let mut i: usize = v.len();
    while i > 0
        invariant
            i <= v.len(),
            forall|k: int| i <= k < v@.len() ==> #[trigger] v@[k] != c,
        decreases i,
    {
        if v[i - 1] == c {
            proof {
                lemma_last_index_is(v@, c, i - 1);
            }
            return Some(i - 1);
        }
        i -= 1;
    }
    proof {
        lemma_last_index_is(v@, c, -1);
    }
    None
}

/// The extension of a file name.
pub fn extension_of_name(name: &str) -> (r: Option<String>)
    ensures
        match r {
            Some(e) => extension_in(name@) == Some(e@),
            None => extension_in(name@).is_none(),
        },
{
    let n = chars_of(name);
    match find_last(n.as_slice(), '.') {
        None => None,
        Some(i) => {
            if i == 0 {
                None
            } else {
                let len: usize = n.len();
                let e = copy_range(n.as_slice(), i + 1, len);
                assert(e@ =~= n@.skip(i + 1));
                Some(string_of(e.as_slice()))
            }
        },
    }
}

/// A file name without its extension.
pub fn stem_of_name(name: &str) -> (r: String)
    ensures
        r@ == stem_in(name@),
{
    let n = chars_of(name);
    match find_last(n.as_slice(), '.') {
        None => string_of(n.as_slice()),
        Some(i) => {
            if i == 0 {
                string_of(n.as_slice())
            } else {
                let s = copy_range(n.as_slice(), 0, i);
                assert(s@ =~= n@.take(i as int));
                string_of(s.as_slice())
            }
        },
    }
}

/// The extension that belongs to a file name, if the path has one.
pub open spec fn extension_for(name: Option<Seq<char>>) -> Option<Seq<char>> {
    match name {
        Some(n) => extension_in(n),
        None => None,
    }
}

/// The stem that belongs to a file name, if the path has one.
pub open spec fn stem_for(name: Option<Seq<char>>) -> Option<Seq<char>> {
    match name {
        Some(n) => Some(stem_in(n)),
        None => None,
    }
}

/// The extension of what the platform gave as the file name of a path.
pub fn extension_of_file(name: Option<String>) -> (r: Option<String>)
    ensures
        crate::uri::opt_text(r) == extension_for(crate::uri::opt_text(name)),
{
    match name {
        Some(n) => extension_of_name(n.as_str()),
        None => None,
    }
}

/// The stem of what the platform gave as the file name of a path.
pub fn stem_of_file(name: Option<String>) -> (r: Option<String>)
    ensures
        crate::uri::opt_text(r) == stem_for(crate::uri::opt_text(name)),
{
    match name {
        Some(n) => Some(stem_of_name(n.as_str())),
        None => None,
    }
}

impl JsPath {
    /// The path that a text writes.
    pub fn new(path: String) -> (r: Self)
        ensures
            r.inner == path,
    {
        JsPath { inner: path }
    }

    /// Whether the path starts at a root, as the platform reads it.
    pub fn is_absolute(&self) -> (r: bool) {
        path_is_absolute(self.inner.as_str())
    }

    /// Whether the path starts anywhere but at a root.
    pub fn is_relative(&self) -> (r: bool) {
        !path_is_absolute(self.inner.as_str())
    }

    /// The last component of the path, as the platform reads it.
    pub fn file_name(&self) -> (r: Option<String>) {
        path_file_name(self.inner.as_str())
    }

    /// The extension of the file name.
    pub fn extension(&self) -> (r: Option<String>) {
        extension_of_file(path_file_name(self.inner.as_str()))
    }

    /// The file name without its extension.
    pub fn file_stem(&self) -> (r: Option<String>) {
        stem_of_file(path_file_name(self.inner.as_str()))
    }

    /// The path as text.
    pub fn to_string(&self) -> (r: String)
        ensures
            r@ == self.inner@,
    {
        self.inner.clone()
    }
}

} // verus!
