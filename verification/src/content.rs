//! Recognising image files by their content, to find files that have moved.
use vstd::prelude::*;
use twox_hash::XxHash3_128;

verus! {

/// The 128-bit XXH3 hash (default seed and secret) of `data`.
pub uninterp spec fn spec_xxh3_128(data: Seq<u8>) -> u128;

/// The relative path `pathdiff::diff_paths` makes from `base` to `path`.
pub uninterp spec fn spec_diff_paths(path: Seq<char>, base: Seq<char>) -> Option<Seq<char>>;

/// Hashes the contents of a file with `twox_hash::XxHash3_128` (default
/// seed and secret), writing all of `contents` and finishing; the contract
/// names the result.
#[verifier::external_body]
pub fn calculate_hash(contents: &[u8]) -> (hash: u128)
    ensures
        hash == spec_xxh3_128(contents@),
{
    let mut hasher = XxHash3_128::default();
    hasher.write(contents);
    hasher.finish_128()
}

/// Calls `pathdiff::diff_paths(path, base)`; the contract names its result.
#[verifier::external_body]
fn relative_path(path: &str, base: &str) -> (res: Option<String>)
    ensures
        match res {
            Some(p) => spec_diff_paths(path@, base@) == Some(p@),
            None => spec_diff_paths(path@, base@) is None,
        },
{
    pathdiff::diff_paths(path, base).map(|p| p.to_string_lossy().into_owned())
}

/// The path of `path` relative to the project root `root` (as
/// `pathdiff::diff_paths` makes it), under which a file is recorded.
pub fn relative_to_root(path: &str, root: &str) -> (res: Option<String>)
    ensures
        path_view(res) == spec_diff_paths(path@, root@),
{
    relative_path(path, root)
}

/// What identifies a file whatever its path: its content hash and size.
#[derive(Clone, Copy, Debug, PartialEq, Eq)]
pub struct FileInfo {
    pub hash: u128,
    pub size: u64,
}

/// The view of an optional path.
pub open spec fn path_view(p: Option<String>) -> Option<Seq<char>> {
    match p {
        Some(s) => Some(s@),
        None => None,
    }
}

/// A search for files that are no longer where the document says: for each
/// missing file, the path (relative to the search root) of the first file
/// met with the same size and content hash.
pub struct MissingFiles {
    missing: Vec<FileInfo>,
    found: Vec<Option<String>>,
}

/// The found paths after offering the file at `path` (under `root`) with
/// `size` and `hash`: every missing file not yet found that has the same
/// size and hash is found there, when `path` can be made relative to
/// `root`.
pub open spec fn after_offer(
    missing: Seq<FileInfo>,
    found: Seq<Option<Seq<char>>>,
    path: Seq<char>,
    root: Seq<char>,
    size: u64,
    hash: u128,
) -> Seq<Option<Seq<char>>> {
    Seq::new(
        found.len(),
        |i: int|
            if found[i] is None && missing[i].size == size && missing[i].hash == hash
                && spec_diff_paths(path, root) is Some {
                spec_diff_paths(path, root)
            } else {
                found[i]
            },
    )
}

impl MissingFiles {
    /// The files searched for.
    pub closed spec fn spec_missing(&self) -> Seq<FileInfo> {
        self.missing@
    }

    /// For each file searched for, where it was found so far.
    pub closed spec fn spec_found(&self) -> Seq<Option<Seq<char>>> {
        self.found@.map_values(|p: Option<String>| path_view(p))
    }

    /// Each file searched for has one place where it was found, or none.
    #[verifier::type_invariant]
    spec fn one_place_each(self) -> bool {
        self.missing@.len() == self.found@.len()
    }

    /// A search for `missing`, with nothing found yet.
    pub fn new(missing: Vec<FileInfo>) -> (s: Self)
        ensures
            s.spec_missing() == missing@,
            s.spec_found() == Seq::new(missing@.len(), |i: int| None::<Seq<char>>),
    {
        let mut found: Vec<Option<String>> = Vec::new();
        let mut i: usize = 0;
        while i < missing.len()
            invariant
                0 <= i <= missing.len(),
                found@.len() == i,
                forall|j: int| 0 <= j < i ==> found@[j] is None,
            decreases missing.len() - i,
        {
            found.push(None);
            i = i + 1;
        }
        let s = MissingFiles { missing, found };
        assert(s.spec_found() =~= Seq::new(s.missing@.len(), |i: int| None::<Seq<char>>));
        s
    }

    /// Whether a file of `size` bytes could be one searched for: some file
    /// not yet found has that size. Only then is its content worth hashing.
    pub fn needs_hash(&self, size: u64) -> (res: bool)
        ensures
            res == exists|i: int|
                0 <= i < self.spec_missing().len() && self.spec_found()[i] is None
                    && #[trigger] self.spec_missing()[i].size == size,
    {
        proof {
            use_type_invariant(self);
        }
        let mut i: usize = 0;
        while i < self.missing.len()
            invariant
                self.missing@.len() == self.found@.len(),
                0 <= i <= self.missing.len(),
                forall|j: int|
                    0 <= j < i ==> !(self.spec_found()[j] is None && #[trigger] self.spec_missing()[j].size
                        == size),
            decreases self.missing.len() - i,
        {
            if self.found[i].is_none() && self.missing[i].size == size {
                assert(0 <= i < self.spec_missing().len() && self.spec_found()[i as int] is None
                    && self.spec_missing()[i as int].size == size);
                return true;
            }
            i = i + 1;
        }
        false
    }

    /// Offers the file at `path` in the search root `root`, with `size`
    /// bytes and content hash `hash`: see [`after_offer`].
    pub fn offer(&mut self, path: &str, root: &str, size: u64, hash: u128)
        ensures
            final(self).spec_missing() == old(self).spec_missing(),
            final(self).spec_found() == after_offer(
                old(self).spec_missing(),
                old(self).spec_found(),
                path@,
                root@,
                size,
                hash,
            ),
    {
        proof {
            use_type_invariant(&*self);
        }
        let ghost start = self.spec_found();
        let relative = relative_path(path, root);
        let mut taken = MissingFiles { missing: Vec::new(), found: Vec::new() };
        std::mem::swap(self, &mut taken);
        let MissingFiles { missing, mut found } = taken;
        let mut i: usize = 0;
        while i < missing.len()
            invariant
                missing@ == old(self).missing@,
                found@.len() == missing@.len(),
                0 <= i <= missing.len(),
                start == old(self).spec_found(),
                start.len() == missing@.len(),
                path_view(relative) == spec_diff_paths(path@, root@),
                forall|j: int|
                    0 <= j < found@.len() ==> path_view(#[trigger] found@[j]) == if j < i {
                        after_offer(missing@, start, path@, root@, size, hash)[j]
                    } else {
                        start[j]
                    },
            decreases missing.len() - i,
        {
            let ghost before = found@;
            let ghost target = after_offer(missing@, start, path@, root@, size, hash);
            assert(path_view(before[i as int]) == start[i as int]);
            if found[i].is_none() && missing[i].size == size && missing[i].hash == hash {
                match &relative {
                    Some(p) => {
                        found.set(i, Some(p.clone()));
                        assert(path_view(found@[i as int]) == target[i as int]);
                        assert forall|j: int| 0 <= j < found@.len() && j != i implies #[trigger] found@[j] == before[j] by {}
                    },
                    None => {
                        assert(path_view(before[i as int]) == target[i as int]);
                    },
                }
            } else {
                assert(path_view(before[i as int]) == target[i as int]);
            }
            i = i + 1;
        }
        *self = MissingFiles { missing, found };
        assert(self.spec_found() =~= after_offer(self.missing@, start, path@, root@, size, hash));
    }

    /// For each file searched for, in order, the path where it was found.
    pub fn found(&self) -> (res: &[Option<String>])
        ensures
            res@.map_values(|p: Option<String>| path_view(p)) == self.spec_found(),
    {
        self.found.as_slice()
    }
}

/// Once a file has been found, later offers leave it where it was found:
/// each missing file goes to the first match met.
pub proof fn lemma_first_match_kept(
    missing: Seq<FileInfo>,
    found: Seq<Option<Seq<char>>>,
    path: Seq<char>,
    root: Seq<char>,
    size: u64,
    hash: u128,
    i: int,
)
    requires
        0 <= i < found.len(),
        found[i] is Some,
    ensures
        after_offer(missing, found, path, root, size, hash)[i] == found[i],
{
}

/// A file of a different size or content is never taken for a missing one.
pub proof fn lemma_mismatch_ignored(
    missing: Seq<FileInfo>,
    found: Seq<Option<Seq<char>>>,
    path: Seq<char>,
    root: Seq<char>,
    size: u64,
    hash: u128,
    i: int,
)
    requires
        0 <= i < found.len(),
        missing[i].size != size || missing[i].hash != hash,
    ensures
        after_offer(missing, found, path, root, size, hash)[i] == found[i],
{
}

/// An offer treats each missing file on its own: every file not yet found
/// whose size and hash are those offered is found at the offered path (made
/// relative to the root), however many there are; every other entry stays
/// as it was.
pub proof fn lemma_offer_finds_every_match(
    missing: Seq<FileInfo>,
    found: Seq<Option<Seq<char>>>,
    path: Seq<char>,
    root: Seq<char>,
    size: u64,
    hash: u128,
    i: int,
)
    requires
        missing.len() == found.len(),
        0 <= i < found.len(),
    ensures
        after_offer(missing, found, path, root, size, hash).len() == found.len(),
        found[i] is None && missing[i].size == size && missing[i].hash == hash && spec_diff_paths(path, root) is Some
            ==> after_offer(missing, found, path, root, size, hash)[i] == spec_diff_paths(path, root),
        !(found[i] is None && missing[i].size == size && missing[i].hash == hash)
            ==> after_offer(missing, found, path, root, size, hash)[i] == found[i],
        spec_diff_paths(path, root) is None ==> after_offer(missing, found, path, root, size, hash)[i] == found[i],
{
}

} // verus!
