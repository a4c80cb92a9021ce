//! Lexical normalization of paths, without looking at the file system.
use vstd::prelude::*;

verus! {

/// One component of a path, as `std::path::Path::components` splits it.
#[derive(Debug, PartialEq, Eq)]
pub enum PathPart {
    /// A Windows prefix such as `C:`.
    Prefix(String),
    /// The root directory.
    Root,
    /// `.`
    Current,
    /// `..`
    Parent,
    /// A named component.
    Name(String),
}

/// The names left after walking `parts` (that follow the path's root):
/// `.` is skipped, `..` drops the name before it, and a name is kept.
/// Nothing is left when a `..` has no name before it to drop, or when a
/// prefix or root comes after the start.
pub open spec fn walked_names(parts: Seq<PathPart>) -> Option<Seq<PathPart>>
    decreases parts.len(),
{
    if parts.len() == 0 {
        Some(Seq::empty())
    } else {
        match walked_names(parts.drop_last()) {
            None => None,
            Some(names) => match parts.last() {
                PathPart::Current => Some(names),
                PathPart::Parent => if names.len() == 0 {
                    None
                } else {
                    Some(names.drop_last())
                },
                PathPart::Name(n) => Some(names.push(PathPart::Name(n))),
                _ => None,
            },
        }
    }
}

/// How many leading parts form the path's root: a prefix with the root
/// directory after it, a root directory, or a leading `.`.
pub open spec fn root_len(parts: Seq<PathPart>) -> int {
    if parts.len() == 0 {
        0
    } else {
        match parts[0] {
            PathPart::Prefix(_) => if parts.len() > 1 && parts[1] is Root {
                2
            } else {
                1
            },
            PathPart::Root => 1,
            PathPart::Current => 1,
            _ => 0,
        }
    }
}

/// The path `parts` normalized lexically: its root, then the names left
/// after walking the rest (see [`walked_names`]); nothing when a `..` would
/// climb above the root or the start.
pub open spec fn normalized(parts: Seq<PathPart>) -> Option<Seq<PathPart>> {
    let r = root_len(parts);
    match walked_names(parts.skip(r)) {
        Some(names) => Some(parts.take(r) + names),
        None => None,
    }
}

proof fn lemma_stuck_walk_stays_stuck(parts: Seq<PathPart>, k: int)
    requires
        0 <= k <= parts.len(),
        walked_names(parts.take(k)) is None,
    ensures
        walked_names(parts) is None,
    decreases parts.len() - k,
{
    if k < parts.len() {
        assert(parts.take(k + 1).drop_last() =~= parts.take(k));
        lemma_stuck_walk_stays_stuck(parts, k + 1);
    } else {
        assert(parts.take(k) =~= parts);
    }
}

/// Normalizes the path `parts` lexically: see [`normalized`].
pub fn normalize_lexically(parts: Vec<PathPart>) -> (res: Option<Vec<PathPart>>)
    ensures
        match normalized(parts@) {
            Some(p) => res matches Some(v) && v@ == p,
            None => res is None,
        },
{
    let ghost all = parts@;
    let n = parts.len();
    let mut r: usize = 0;
    if n > 0 {
        match &parts[0] {
            PathPart::Prefix(_) => {
                r = if n > 1 && matches!(parts[1], PathPart::Root) {
                    2
                } else {
                    1
                };
            },
            PathPart::Root => {
                r = 1;
            },
            PathPart::Current => {
                r = 1;
            },
            _ => {},
        }
    }
    assert(r == root_len(all));
    let ghost rest = all.skip(r as int);
    let mut pending = parts;
    let mut out: Vec<PathPart> = Vec::new();
    let mut i: usize = 0;
    while i < r
        invariant
            r <= n == all.len(),
            0 <= i <= r,
            pending@ == all.skip(i as int),
            out@ == all.take(i as int),
        decreases r - i,
    {
        let part = pending.remove(0);
        out.push(part);
        assert(out@ =~= all.take(i + 1));
        assert(pending@ =~= all.skip(i + 1));
        i = i + 1;
    }
    let mut names: Vec<PathPart> = Vec::new();
    while i < n
        invariant
            r <= i <= n == all.len(),
            r == root_len(all),
            all == parts@,
            rest == all.skip(r as int),
            pending@ == all.skip(i as int),
            out@ == all.take(r as int),
            walked_names(rest.take(i - r)) == Some(names@),
        decreases n - i,
    {
        assert(rest.take(i + 1 - r).drop_last() =~= rest.take(i - r));
        assert(rest.take(i + 1 - r).last() == all[i as int]);
        let part = pending.remove(0);
        assert(pending@ =~= all.skip(i + 1));
        match part {
            PathPart::Current => {},
            PathPart::Parent => {
                if names.len() == 0 {
                    proof {
                        assert(walked_names(rest.take(i + 1 - r)) is None);
                        lemma_stuck_walk_stays_stuck(rest, i + 1 - r);
                        assert(normalized(all) is None);
                    }
                    return None;
                }
                names.pop();
                assert(names@ =~= walked_names(rest.take(i - r)).unwrap().drop_last());
            },
            PathPart::Name(name) => {
                names.push(PathPart::Name(name));
            },
            _ => {
                proof {
                    assert(walked_names(rest.take(i + 1 - r)) is None);
                    lemma_stuck_walk_stays_stuck(rest, i + 1 - r);
                    assert(normalized(all) is None);
                }
                return None;
            },
        }
        i = i + 1;
    }
    assert(rest.take(n - r) =~= rest);
    out.append(&mut names);
    Some(out)
}

/// A name followed by `..` cancels out, and `.` changes nothing.
pub proof fn lemma_parent_cancels_name(parts: Seq<PathPart>, name: String)
    ensures
        walked_names(parts.push(PathPart::Name(name)).push(PathPart::Parent)) == walked_names(parts),
        walked_names(parts.push(PathPart::Current)) == walked_names(parts),
{
    assert(parts.push(PathPart::Name(name)).push(PathPart::Parent).drop_last() =~= parts.push(
        PathPart::Name(name),
    ));
    assert(parts.push(PathPart::Name(name)).drop_last() =~= parts);
    assert(parts.push(PathPart::Current).drop_last() =~= parts);
    let with_name = parts.push(PathPart::Name(name));
    assert(with_name.last() == PathPart::Name(name));
    assert(with_name.push(PathPart::Parent).last() == PathPart::Parent);
    match walked_names(parts) {
        Some(names) => {
            assert(walked_names(with_name) == Some(names.push(PathPart::Name(name))));
            assert(names.push(PathPart::Name(name)).drop_last() =~= names);
        },
        None => {
            assert(walked_names(with_name) is None);
        },
    }
}

} // verus!
