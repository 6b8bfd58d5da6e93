//! Paths, as the bytes that a Unix system takes for them.
use vstd::prelude::*;

verus! {

/// The byte that separates the components of a path.
pub const SEPARATOR: u8 = 0x2f;

/// Whether a path starts at the root.
pub open spec fn is_absolute(path: Seq<u8>) -> bool {
    path.len() > 0 && path[0] == SEPARATOR
}

/// A path taken from a directory: an absolute path stands for itself, any other is appended,
/// with a separator between where the directory has none at its end.
pub open spec fn joined(dir: Seq<u8>, path: Seq<u8>) -> Seq<u8> {
    if is_absolute(path) {
        path
    } else if dir.len() == 0 || dir.last() == SEPARATOR {
        dir + path
    } else {
        dir.push(SEPARATOR) + path
    }
}

/// Whether a path is not absolute.
pub fn is_relative(path: &[u8]) -> (res: bool)
    ensures
        res == !is_absolute(path@),
{
    !(path.len() > 0 && path[0] == SEPARATOR)
}

/// A path taken from a directory.
pub fn join(dir: &[u8], path: &[u8]) -> (res: Vec<u8>)
    ensures
        res@ == joined(dir@, path@),
{
    if !is_relative(path) {
        return vstd::slice::slice_to_vec(path);
    }
    let mut res = vstd::slice::slice_to_vec(dir);
    if dir.len() > 0 && dir[dir.len() - 1] != SEPARATOR {
        res.push(SEPARATOR);
    }
    let mut tail = vstd::slice::slice_to_vec(path);
    res.append(&mut tail);
    res
}

/// A path taken from an absolute directory is absolute.
pub proof fn law_join_stays_absolute(dir: Seq<u8>, path: Seq<u8>)
    requires
        is_absolute(dir),
    ensures
        is_absolute(joined(dir, path)),
{
}

/// A relative path taken from a directory lies below it: the result begins with the directory,
/// ends with the path, and nothing but at most one separator is in between.
pub proof fn law_join_nests(dir: Seq<u8>, path: Seq<u8>)
    requires
        !is_absolute(path),
    ensures
        dir.is_prefix_of(joined(dir, path)),
        path.is_suffix_of(joined(dir, path)),
        joined(dir, path).len() <= dir.len() + 1 + path.len(),
{
    let res = joined(dir, path);
    assert(res.subrange(0, dir.len() as int) =~= dir);
    assert(res.subrange(res.len() - path.len(), res.len() as int) =~= path);
}

/// Whether `res` leads where `path` leads from `dir`, byte by byte: it is `path` where that starts
/// at the root, and otherwise the bytes of `dir`, one separator where `dir` has none at its end,
/// and the bytes of `path`.
pub open spec fn is_taken_from(dir: Seq<u8>, path: Seq<u8>, res: Seq<u8>) -> bool {
    let gap: int = if dir.len() > 0 && dir[dir.len() - 1] != 0x2f {
        1
    } else {
        0
    };
    if path.len() > 0 && path[0] == 0x2f {
        res == path
    } else {
        &&& res.len() == dir.len() + gap + path.len()
        &&& forall|i: int| 0 <= i < dir.len() ==> #[trigger] res[i] == dir[i]
        &&& gap == 1 ==> res[dir.len() as int] == 0x2f
        &&& forall|i: int|
            dir.len() + gap <= i < res.len() ==> #[trigger] res[i] == path[i - dir.len() - gap]
    }
}

/// Joining keeps every byte of the directory and of the path, puts exactly one separator between
/// them, and lets a path that starts at the root stand for itself.
pub proof fn law_join_keeps_both_parts(dir: &[u8], path: &[u8], res: Vec<u8>)
    requires
        call_ensures(join, (dir, path), res),
    ensures
        is_taken_from(dir@, path@, res@),
{
}

/// A path is relative where it does not begin with a separator; the empty one is.
pub proof fn law_relative_paths_do_not_start_at_the_root(path: &[u8], res: bool)
    requires
        call_ensures(is_relative, (path,), res),
    ensures
        res <==> path@.len() == 0 || path@[0] != 0x2f,
{
}

} // verus!
