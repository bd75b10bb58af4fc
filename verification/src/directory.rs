//! The working directory that goes with a document.
use crate::container::chars_of;
use vstd::prelude::*;

verus! {

/// The characters before the last slash, or none if there is no slash.
pub open spec fn before_last_slash(path: Seq<char>) -> Seq<char>
    decreases path.len(),
{
    if path.len() == 0 {
        path
    } else if path.last() == '/' {
        path.drop_last()
    } else {
        before_last_slash(path.drop_last())
    }
}

/// The path of the directory in which the file with this absolute path lies.
pub open spec fn directory_part(path: Seq<char>) -> Seq<char> {
    if before_last_slash(path).len() == 0 {
        seq!['/']
    } else {
        before_last_slash(path)
    }
}

/// Whether the path is made of a slash before each component alone, and no component is a mere dot.
/// Backslashes and colons, which divide paths on some systems, do not occur in it.
pub open spec fn is_plain(path: Seq<char>) -> bool {
    &&& path.len() > 1
    &&& path[0] == '/'
    &&& path.last() != '/'
    &&& forall|i: int| 0 <= i < path.len() ==> #[trigger] path[i] != '\\' && path[i] != ':'
    &&& forall|i: int|
        0 < i < path.len() && path[i - 1] == '/' ==> #[trigger] path[i] != '/' && (path[i] == '.'
            ==> i + 1 < path.len() && path[i + 1] != '/')
}

/// A plain path starts with the path of its directory, and one more component follows.
pub proof fn law_directory_part(path: Seq<char>)
    requires
        is_plain(path),
    ensures
        directory_part(path).len() < path.len(),
        directory_part(path) == path.take(directory_part(path).len() as int),
        forall|i: int| before_last_slash(path).len() < i < path.len() ==> path[i] != '/',
{
    lemma_before_last_slash(path);
    assert(seq!['/'] =~= path.take(1));
}

proof fn lemma_before_last_slash(path: Seq<char>)
    ensures
        before_last_slash(path).len() <= path.len(),
        before_last_slash(path) == path.take(before_last_slash(path).len() as int),
        path.len() > 0 ==> before_last_slash(path).len() < path.len(),
        forall|i: int| before_last_slash(path).len() < i < path.len() ==> path[i] != '/',
    decreases path.len(),
{
    if path.len() > 0 {
        lemma_before_last_slash(path.drop_last());
        let start = before_last_slash(path);
        assert(start =~= path.take(start.len() as int));
        assert forall|i: int| start.len() < i < path.len() implies path[i] != '/' by {
            if i < path.len() - 1 {
                assert(path.drop_last()[i] == path[i]);
            }
        }
    }
}

/// Whether `parent` can be what is left of the path without its last component. Of a plain path
/// that is the directory part. Of any other it is a proper part of the path, from its start, if
/// there is one, and an empty path and the root have none.
pub open spec fn is_parent(path: Seq<char>, parent: Option<Seq<char>>) -> bool {
    &&& is_plain(path) ==> parent == Some(directory_part(path))
    &&& path.len() == 0 || path == seq!['/'] ==> parent is None
    &&& match parent {
        Some(start) => start.len() < path.len() && start == path.take(start.len() as int),
        None => true,
    }
}

/// Calls `std::path::Path::parent`. Trusted: it takes off the last component, if there is one. What
/// counts as a component depends on the system for other paths than plain ones, so it is left
/// unsaid how much is taken off those.
#[verifier::external_body]
fn parent(path: &str) -> (directory: Option<String>)
    ensures
        is_parent(path@, chars_of(directory)),
{
    std::path::Path::new(path).parent()?.to_str().map(String::from)
}

/// The directory that is to become the working directory for a file, from the outcome of looking
/// for its absolute path. There is none if there is no such file, or if it lies in no directory.
pub fn directory_of(resolved: Option<String>) -> (directory: Option<String>)
    ensures
        match resolved {
            Some(path) => is_parent(path@, chars_of(directory)),
            None => directory is None,
        },
{
    match resolved {
        Some(path) => parent(path.as_str()),
        None => None,
    }
}

} // verus!
