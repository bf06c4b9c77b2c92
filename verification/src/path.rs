//! Path safety: which client-supplied names may be written, and where.
//!
//! A name is judged as text, with no look at the file system. The rules are
//! staged so that none stands alone: a name that holds `..` is refused; a
//! name that begins with a root or drive marker is refused; the name is then
//! joined onto the root, and the result is refused unless it begins with the
//! root. The markers of every common platform count, whichever platform the
//! server runs on.

use vstd::prelude::*;
use crate::error::Rejection;

verus! {

/// The character that `join` puts between the root and the name.
pub const SEPARATOR: char = '/';

/// `c` separates the segments of a path.
pub open spec fn is_separator(c: char) -> bool {
    c == '/' || c == '\\'
}

/// `c` can name a drive.
pub open spec fn is_drive_letter(c: char) -> bool {
    ('a' <= c && c <= 'z') || ('A' <= c && c <= 'Z')
}

/// Two dots stand at positions `i` and `i + 1` of `path`.
pub open spec fn dots_at(path: Seq<char>, i: int) -> bool {
    0 <= i && i + 1 < path.len() && path[i] == '.' && path[i + 1] == '.'
}

/// `..` occurs somewhere in `path`, as text.
pub open spec fn has_parent_segment(path: Seq<char>) -> bool {
    exists|i: int| #[trigger] dots_at(path, i)
}

/// `path` begins with a separator.
pub open spec fn has_root_marker(path: Seq<char>) -> bool {
    path.len() >= 1 && is_separator(path[0])
}

/// `path` begins with a drive letter and a colon.
pub open spec fn has_drive_marker(path: Seq<char>) -> bool {
    path.len() >= 2 && is_drive_letter(path[0]) && path[1] == ':'
}

/// `path` begins with neither a root marker nor a drive marker.
pub open spec fn is_relative(path: Seq<char>) -> bool {
    !has_root_marker(path) && !has_drive_marker(path)
}

/// `name` put behind `root`, with a separator between the two unless the
/// root is empty or already ends in one.
pub open spec fn join(root: Seq<char>, name: Seq<char>) -> Seq<char> {
    if root.len() == 0 || is_separator(root.last()) {
        root + name
    } else {
        root + seq![SEPARATOR] + name
    }
}

/// The name passes every stage of the validation against `root`.
pub open spec fn acceptable(root: Seq<char>, name: Seq<char>) -> bool {
    &&& name.len() > 0
    &&& !has_parent_segment(name)
    &&& is_relative(name)
    &&& root.is_prefix_of(join(root, name))
}

/// What `validate` answers: the joined path for an acceptable name,
/// `PathInvalid` for any other.
pub open spec fn validate_spec(root: Seq<char>, name: Seq<char>) -> Result<Seq<char>, Rejection> {
    if acceptable(root, name) {
        Ok(join(root, name))
    } else {
        Err(Rejection::PathInvalid)
    }
}

/// `path` is `root` followed by a non-empty remainder that holds no `..`.
pub open spec fn stays_under(root: Seq<char>, path: Seq<char>) -> bool {
    &&& root.is_prefix_of(path)
    &&& path.len() > root.len()
    &&& !has_parent_segment(path.skip(root.len() as int))
}

/// The validated path that an upload is written to. Only `validate` makes
/// one, so every target lies under the root it was validated against.
#[derive(Debug, PartialEq, Eq)]
pub struct UploadTarget {
    path: String,
}

impl View for UploadTarget {
    type V = Seq<char>;

    closed spec fn view(&self) -> Seq<char> {
        self.path@
    }
}

impl Clone for UploadTarget {
    fn clone(&self) -> (r: Self)
        ensures
            r@ == self@,
    {
        UploadTarget { path: self.path.clone() }
    }
}

impl UploadTarget {
    /// The path as text.
    pub fn as_str(&self) -> (s: &str)
        ensures
            s@ == self@,
    {
        self.path.as_str()
    }
}

/// The characters of `s`, in order.
pub fn chars_of(s: &str) -> (chars: Vec<char>)
    ensures
        chars@ == s@,
{
    let mut chars: Vec<char> = Vec::new();
    for c in it: s.chars()
        invariant
            it.seq() == s@,
            chars@ == it.seq().take(it.index() as int),
    {
        chars.push(c);
    }
    chars
}

/// Tells whether `..` occurs in `path`.
pub fn contains_parent_segment(path: &[char]) -> (found: bool)
    ensures
        found == has_parent_segment(path@),
{
    let n: usize = path.len();
    if n < 2 {
        assert forall|i: int| !#[trigger] dots_at(path@, i) by {}
        return false;
    }
    let mut i: usize = 0;
    while i + 1 < n
        invariant
            n == path@.len(),
            n >= 2,
            i + 1 <= n,
            forall|j: int| 0 <= j < i ==> !#[trigger] dots_at(path@, j),
        decreases n - i,
    {
        if path[i] == '.' && path[i + 1] == '.' {
            assert(dots_at(path@, i as int));
            return true;
        }
        i = i + 1;
    }
    assert forall|j: int| !#[trigger] dots_at(path@, j) by {}
    false
}

/// Tells whether `path` begins with neither a root nor a drive marker.
pub fn relative(path: &[char]) -> (r: bool)
    ensures
        r == is_relative(path@),
{
    let n: usize = path.len();
    if n >= 1 && (path[0] == '/' || path[0] == '\\') {
        return false;
    }
    if n >= 2 && path[1] == ':' {
        let c: char = path[0];
        if (c >= 'a' && c <= 'z') || (c >= 'A' && c <= 'Z') {
            return false;
        }
    }
    true
}

/// Tells whether `path` begins with `prefix`, character by character.
pub fn begins_with(path: &[char], prefix: &[char]) -> (r: bool)
    ensures
        r == prefix@.is_prefix_of(path@),
{
    let n: usize = prefix.len();
    if path.len() < n {
        return false;
    }
    let mut i: usize = 0;
    while i < n
        invariant
            n == prefix@.len(),
            n <= path@.len(),
            i <= n,
            forall|j: int| 0 <= j < i ==> path@[j] == prefix@[j],
        decreases n - i,
    {
        if path[i] != prefix[i] {
            assert(path@.subrange(0, n as int)[i as int] != prefix@[i as int]);
            return false;
        }
        i = i + 1;
    }
    assert(path@.subrange(0, n as int) =~= prefix@);
    true
}

/// Puts `name` behind `root`, as `join` says.
pub fn join_paths(root: &str, name: &str) -> (joined: String)
    ensures
        joined@ == join(root@, name@),
{
    let base = chars_of(root);
    let mut joined: String = root.to_owned();
    let n: usize = base.len();
    if n > 0 && !(base[n - 1] == '/' || base[n - 1] == '\\') {
        proof {
            reveal_strlit("/");
        }
        joined.append("/");
        assert(joined@ =~= root@ + seq![SEPARATOR]);
    }
    joined.append(name);
    joined
}

/// Decides whether a client may upload to `client_path` under `root`, and
/// names the file to write if so.
///
/// The name is refused if it is empty, holds `..`, begins with a root or
/// drive marker, or, once joined onto the root, does not begin with the
/// root. Any refusal is `PathInvalid`. The file system is not consulted.
pub fn validate(root: &str, client_path: &str) -> (r: Result<UploadTarget, Rejection>)
    ensures
        match r {
            Ok(target) => validate_spec(root@, client_path@) == Ok::<Seq<char>, Rejection>(
                target@,
            ),
            Err(rejection) => validate_spec(root@, client_path@) == Err::<Seq<char>, Rejection>(
                rejection,
            ),
        },
        r matches Ok(target) ==> stays_under(root@, target@),
{
    proof {
        if validate_spec(root@, client_path@) is Ok {
            lemma_target_stays_under_root(root@, client_path@);
        }
    }
    let name = chars_of(client_path);
    if name.len() == 0 {
        return Err(Rejection::PathInvalid);
    }
    if contains_parent_segment(name.as_slice()) {
        return Err(Rejection::PathInvalid);
    }
    if !relative(name.as_slice()) {
        return Err(Rejection::PathInvalid);
    }
    let joined = join_paths(root, client_path);
    let candidate = chars_of(joined.as_str());
    let base = chars_of(root);
    if !begins_with(candidate.as_slice(), base.as_slice()) {
        return Err(Rejection::PathInvalid);
    }
    Ok(UploadTarget { path: joined })
}

/// Joining never leaves the root: the joined path begins with the root,
/// whatever the name.
pub proof fn lemma_join_begins_with_root(root: Seq<char>, name: Seq<char>)
    ensures
        root.is_prefix_of(join(root, name)),
{
    assert(join(root, name).subrange(0, root.len() as int) =~= root);
}

/// Every non-empty relative name without `..` is accepted, and its target is
/// the name joined onto the root.
pub proof fn lemma_plain_relative_name_is_accepted(root: Seq<char>, name: Seq<char>)
    requires
        name.len() > 0,
        !has_parent_segment(name),
        is_relative(name),
    ensures
        validate_spec(root, name) == Ok::<Seq<char>, Rejection>(join(root, name)),
{
    lemma_join_begins_with_root(root, name);
}

/// A name that holds `..`, that is not relative, or whose joined path does
/// not begin with the root is refused as `PathInvalid`; so is the empty
/// name.
pub proof fn lemma_unsafe_name_is_refused(root: Seq<char>, name: Seq<char>)
    requires
        name.len() == 0 || has_parent_segment(name) || !is_relative(name) || !root.is_prefix_of(
            join(root, name),
        ),
    ensures
        validate_spec(root, name) == Err::<Seq<char>, Rejection>(Rejection::PathInvalid),
{
}

/// An accepted target lies under the root: it is the root followed by a
/// non-empty remainder in which `..` does not occur.
pub proof fn lemma_target_stays_under_root(root: Seq<char>, name: Seq<char>)
    requires
        validate_spec(root, name) is Ok,
    ensures
        stays_under(root, validate_spec(root, name)->Ok_0),
{
    let path = join(root, name);
    let rest = path.skip(root.len() as int);
    if root.len() == 0 || is_separator(root.last()) {
        assert(rest =~= name);
    } else {
        assert(rest =~= seq![SEPARATOR] + name);
        assert forall|i: int| !#[trigger] dots_at(rest, i) by {
            if dots_at(rest, i) {
                assert(rest[0] == SEPARATOR);
                assert(i >= 1);
                assert(dots_at(name, i - 1));
            }
        }
    }
}

} // verus!
