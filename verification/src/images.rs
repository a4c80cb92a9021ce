//! Which files the canvas shows, and how an image is loaded at a level of
//! detail.
use vstd::prelude::*;
use crate::text::{push_decimal, same_text, decimal};

verus! {

/// The extension `std::path::Path::extension` finds in `path`.
pub uninterp spec fn spec_extension(path: Seq<char>) -> Option<Seq<char>>;

/// The path `std::path::Path::join` makes of `base` and `name`.
pub uninterp spec fn spec_join(base: Seq<char>, name: Seq<char>) -> Seq<char>;

/// Calls `Path::extension` on `path`; the contract names its result.
#[verifier::external_body]
pub(crate) fn path_extension(path: &str) -> (res: Option<String>)
    ensures
        match res {
            Some(ext) => spec_extension(path@) == Some(ext@),
            None => spec_extension(path@) is None,
        },
{
    std::path::Path::new(path).extension().map(|ext| ext.to_string_lossy().into_owned())
}

/// Calls `Path::join` on `base` and `name`; the contract names its result.
#[verifier::external_body]
fn path_join(base: &str, name: &str) -> (res: String)
    ensures
        res@ == spec_join(base@, name@),
{
    std::path::Path::new(base).join(name).to_string_lossy().into_owned()
}

/// Extensions of the video files the canvas shows.
pub open spec fn is_video_extension(ext: Seq<char>) -> bool {
    ext == "webm"@ || ext == "mp4"@ || ext == "mkv"@
}

/// Extensions of the still and animated images the canvas shows.
pub open spec fn is_image_extension(ext: Seq<char>) -> bool {
    ext == "png"@ || ext == "jpg"@ || ext == "jpeg"@ || ext == "webp"@ || ext == "gif"@
}

/// Whether `ext` is the extension of a video file.
pub fn is_video_ext(ext: &str) -> (res: bool)
    ensures
        res == is_video_extension(ext@),
{
    same_text(ext, "webm") || same_text(ext, "mp4") || same_text(ext, "mkv")
}

/// Whether `ext` is the extension of an image file.
pub fn is_image_ext(ext: &str) -> (res: bool)
    ensures
        res == is_image_extension(ext@),
{
    same_text(ext, "png") || same_text(ext, "jpg") || same_text(ext, "jpeg") || same_text(
        ext,
        "webp",
    ) || same_text(ext, "gif")
}

/// Whether a file with extension `ext` can be placed on the canvas.
pub fn supported_extension(ext: &str) -> (res: bool)
    ensures
        res == (is_image_extension(ext@) || is_video_extension(ext@)),
{
    is_image_ext(ext) || is_video_ext(ext)
}

/// Whether `path` names a video file.
pub fn is_video(path: &str) -> (res: bool)
    ensures
        res == (spec_extension(path@) matches Some(ext) && is_video_extension(ext)),
{
    match path_extension(path) {
        Some(ext) => is_video_ext(ext.as_str()),
        None => false,
    }
}

/// Whether `path` names an image file that the file picker offers.
pub fn is_image(path: &str) -> (res: bool)
    ensures
        res == (spec_extension(path@) matches Some(ext) && is_image_extension(ext)),
{
    match path_extension(path) {
        Some(ext) => is_image_ext(ext.as_str()),
        None => false,
    }
}

/// Level of detail at which an image is shown.
#[derive(Clone, Copy, Debug, PartialEq, Eq)]
pub enum Lod {
    Low,
    Medium,
    Full,
}

impl Lod {
    /// The longest side of a low-detail thumbnail, in pixels.
    pub fn side_small() -> (side: u32)
        ensures
            side == 256,
    {
        256
    }

    /// The longest side of a medium-detail thumbnail, in pixels.
    pub fn side_medium() -> (side: u32)
        ensures
            side == 768,
    {
        768
    }
}

/// The file name of the thumbnail of the image with content hash `hash`, at
/// a reduced level of detail (full detail has no thumbnail).
pub open spec fn thumbnail_name(hash: u128, size: Lod) -> Seq<char> {
    match size {
        Lod::Low => decimal(hash as nat) + ".s.jpg"@,
        Lod::Medium => decimal(hash as nat) + ".m.jpg"@,
        Lod::Full => Seq::empty(),
    }
}

/// Where the image `source` with content hash `hash` is read from at level
/// of detail `size`: its thumbnail in `thumbs_dir`, or the source itself at
/// full detail.
pub fn thumbnail_path(thumbs_dir: &str, source: &str, hash: u128, size: Lod) -> (path: String)
    ensures
        path@ == match size {
            Lod::Full => source@,
            _ => spec_join(thumbs_dir@, thumbnail_name(hash, size)),
        },
{
    match size {
        Lod::Full => source.to_owned(),
        _ => {
            let mut name = String::new();
            push_decimal(&mut name, hash);
            match size {
                Lod::Low => name.append(".s.jpg"),
                _ => name.append(".m.jpg"),
            }
            assert(name@ =~= thumbnail_name(hash, size));
            path_join(thumbs_dir, name.as_str())
        },
    }
}

/// Thumbnails never collide: two images with different content hashes, or
/// the two reduced levels of detail of one image, have thumbnails of
/// different names.
pub proof fn lemma_thumbnail_names_distinct(h1: u128, s1: Lod, h2: u128, s2: Lod)
    requires
        s1 != Lod::Full,
        s2 != Lod::Full,
        h1 != h2 || s1 != s2,
    ensures
        thumbnail_name(h1, s1) != thumbnail_name(h2, s2),
{
    reveal_strlit(".s.jpg");
    reveal_strlit(".m.jpg");
    let n1 = thumbnail_name(h1, s1);
    let n2 = thumbnail_name(h2, s2);
    let d1 = decimal(h1 as nat);
    let d2 = decimal(h2 as nat);
    if n1 == n2 {
        let suffix1: Seq<char> = if s1 == Lod::Low { ".s.jpg"@ } else { ".m.jpg"@ };
        let suffix2: Seq<char> = if s2 == Lod::Low { ".s.jpg"@ } else { ".m.jpg"@ };
        assert(n1 == d1 + suffix1);
        assert(n2 == d2 + suffix2);
        assert(d1.len() == d2.len());
        assert(d1 =~= n1.subrange(0, d1.len() as int));
        assert(d2 =~= n2.subrange(0, d2.len() as int));
        crate::text::lemma_decimal_injective(h1 as nat, h2 as nat);
        assert(suffix1 =~= n1.subrange(d1.len() as int, n1.len() as int));
        assert(suffix2 =~= n2.subrange(d2.len() as int, n2.len() as int));
        assert(suffix1[1] == suffix2[1]);
    }
}

/// Every video file can be placed on the canvas.
pub proof fn lemma_videos_supported(ext: Seq<char>)
    requires
        is_video_extension(ext),
    ensures
        is_image_extension(ext) || is_video_extension(ext),
{
}

proof fn lemma_first_frame_exists(delays: Seq<u128>, pos: nat, k: int)
    requires
        0 <= k < delays.len(),
        pos < total_millis(delays.take(k + 1)),
    ensures
        exists|c: int|
            0 <= c < delays.len() && pos < total_millis(#[trigger] delays.take(c + 1)) && forall|j: int|
                0 <= j < c ==> pos >= total_millis(#[trigger] delays.take(j + 1)),
    decreases k,
{
    if exists|j: int| 0 <= j < k && pos < total_millis(#[trigger] delays.take(j + 1)) {
        let j = choose|j: int| 0 <= j < k && pos < total_millis(#[trigger] delays.take(j + 1));
        lemma_first_frame_exists(delays, pos, j);
    } else {
        assert forall|j: int| 0 <= j < k implies pos >= total_millis(#[trigger] delays.take(j + 1)) by {}
    }
}

/// The frame an animation shows is one of its frames, and a next frame,
/// when one is scheduled, is due strictly later.
pub proof fn lemma_frame_in_range(elapsed_ms: u128, delays: Seq<u128>)
    requires
        delays.len() > 0,
    ensures
        0 <= spec_frame_index(elapsed_ms, delays).0 < delays.len(),
        spec_frame_index(elapsed_ms, delays).1 matches Some(ms) ==> ms > 0,
{
    let pos = loop_position(elapsed_ms, delays);
    if exists|k: int| 0 <= k < delays.len() && pos < total_millis(#[trigger] delays.take(k + 1)) {
        let k = choose|k: int| 0 <= k < delays.len() && pos < total_millis(#[trigger] delays.take(k + 1));
        lemma_first_frame_exists(delays, pos, k);
    }
}

/// How an image is to be loaded.
#[derive(Clone, Copy, Debug, PartialEq, Eq)]
pub enum LoadPlan {
    /// Make a thumbnail of the source with this longest side, save it, and
    /// show it.
    Thumbnail { side: u32 },
    /// The source itself is missing.
    SourceMissing,
    /// Decode the file as an animated GIF.
    Gif,
    /// Show the first frame of the video file.
    VideoFrame,
    /// Decode the file as a still image.
    Still,
}

/// The plan for loading an image at level of detail `size` from `path`
/// (the path `thumbnail_path` gives), given whether that file exists.
pub open spec fn spec_load_plan(path: Seq<char>, path_exists: bool, size: Lod) -> LoadPlan {
    if !path_exists {
        match size {
            Lod::Low => LoadPlan::Thumbnail { side: 256 },
            Lod::Medium => LoadPlan::Thumbnail { side: 768 },
            Lod::Full => LoadPlan::SourceMissing,
        }
    } else {
        match spec_extension(path) {
            Some(ext) => if ext == "gif"@ {
                LoadPlan::Gif
            } else if is_video_extension(ext) {
                LoadPlan::VideoFrame
            } else {
                LoadPlan::Still
            },
            None => LoadPlan::Still,
        }
    }
}

/// Decides how to load an image: see [`spec_load_plan`].
pub fn load_plan(path: &str, path_exists: bool, size: Lod) -> (plan: LoadPlan)
    ensures
        plan == spec_load_plan(path@, path_exists, size),
{
    if !path_exists {
        match size {
            Lod::Low => LoadPlan::Thumbnail { side: Lod::side_small() },
            Lod::Medium => LoadPlan::Thumbnail { side: Lod::side_medium() },
            Lod::Full => LoadPlan::SourceMissing,
        }
    } else {
        match path_extension(path) {
            Some(ext) => {
                if same_text(ext.as_str(), "gif") {
                    LoadPlan::Gif
                } else if is_video_ext(ext.as_str()) {
                    LoadPlan::VideoFrame
                } else {
                    LoadPlan::Still
                }
            },
            None => LoadPlan::Still,
        }
    }
}

/// The longest `std::time::Duration`, in nanoseconds.
pub const MAX_DURATION_NANOS: u128 = 18_446_744_073_709_551_615_999_999_999u128;

/// The sum of `delays`.
pub open spec fn total(delays: Seq<u128>) -> nat
    decreases delays.len(),
{
    if delays.len() == 0 {
        0
    } else {
        total(delays.drop_last()) + delays.last() as nat
    }
}

/// The whole milliseconds in a delay given in nanoseconds, as
/// `Duration::as_millis` counts them.
pub open spec fn whole_millis(nanos: nat) -> nat {
    nanos / 1_000_000
}

/// The sum of the whole milliseconds of each of `delays`.
pub open spec fn total_millis(delays: Seq<u128>) -> nat
    decreases delays.len(),
{
    if delays.len() == 0 {
        0
    } else {
        total_millis(delays.drop_last()) + whole_millis(delays.last() as nat)
    }
}

/// Where in the loop of an animation `elapsed_ms` falls: the elapsed time
/// modulo the whole milliseconds of the total of `delays` (taken as at least
/// one).
pub open spec fn loop_position(elapsed_ms: u128, delays: Seq<u128>) -> nat {
    let frames = whole_millis(total(delays));
    (elapsed_ms as nat) % (if frames > 0 { frames } else { 1 })
}

/// The frame of an animation with frame delays `delays` (in nanoseconds)
/// that shows `elapsed_ms` milliseconds after the start, with the
/// milliseconds until the next frame is due: the first frame whose end,
/// counted in the whole milliseconds of each delay, lies after the loop
/// position. When no frame ends after it, the first frame shows and no
/// next frame is scheduled.
pub open spec fn spec_frame_index(elapsed_ms: u128, delays: Seq<u128>) -> (int, Option<nat>) {
    let pos = loop_position(elapsed_ms, delays);
    if exists|k: int| 0 <= k < delays.len() && pos < total_millis(#[trigger] delays.take(k + 1)) {
        let k = choose|k: int|
            0 <= k < delays.len() && pos < total_millis(#[trigger] delays.take(k + 1)) && forall|j: int|
                0 <= j < k ==> pos >= total_millis(#[trigger] delays.take(j + 1));
        (k, Some((total_millis(delays.take(k + 1)) - pos) as nat))
    } else {
        (0, None)
    }
}

proof fn lemma_total_prefix(delays: Seq<u128>, k: int)
    requires
        0 <= k <= delays.len(),
    ensures
        total_millis(delays.take(k)) <= total(delays.take(k)),
        total(delays.take(k)) <= total(delays),
    decreases delays.len(),
{
    if delays.len() > 0 {
        if k == delays.len() {
            assert(delays.take(k) =~= delays);
            assert(delays.take(k).drop_last() =~= delays.drop_last().take(k - 1));
            lemma_total_prefix(delays.drop_last(), k - 1);
        } else {
            assert(delays.take(k) =~= delays.drop_last().take(k));
            lemma_total_prefix(delays.drop_last(), k);
        }
    } else {
        assert(delays.take(k) =~= delays);
    }
}

proof fn lemma_prefix_step(delays: Seq<u128>, k: int)
    requires
        0 <= k < delays.len(),
    ensures
        total(delays.take(k + 1)) == total(delays.take(k)) + delays[k],
        total_millis(delays.take(k + 1)) == total_millis(delays.take(k)) + whole_millis(
            delays[k] as nat,
        ),
{
    assert(delays.take(k + 1).drop_last() =~= delays.take(k));
}

/// The frame of an animation to show now, and the milliseconds until the
/// next one is due: see [`spec_frame_index`].
pub fn gif_frame_index(elapsed_ms: u128, delays: &[u128]) -> (res: (usize, Option<u128>))
    requires
        total(delays@) <= MAX_DURATION_NANOS,
    ensures
        ({
            let (index, next) = spec_frame_index(elapsed_ms, delays@);
            &&& res.0 == index
            &&& match res.1 {
                Some(ms) => next == Some(ms as nat),
                None => next is None,
            }
        }),
{
    let mut sum: u128 = 0;
    let mut i: usize = 0;
    while i < delays.len()
        invariant
            0 <= i <= delays.len(),
            total(delays@) <= MAX_DURATION_NANOS,
            sum == total(delays@.take(i as int)),
        decreases delays.len() - i,
    {
        proof {
            lemma_prefix_step(delays@, i as int);
            lemma_total_prefix(delays@, i + 1);
        }
        sum = sum + delays[i];
        i = i + 1;
    }
    assert(delays@.take(delays.len() as int) =~= delays@);
    let frames = sum / 1_000_000;
    let pos = elapsed_ms % (if frames > 0 { frames } else { 1 });
    assert(pos == loop_position(elapsed_ms, delays@));
    let mut cumulative: u128 = 0;
    let mut k: usize = 0;
    while k < delays.len()
        invariant
            0 <= k <= delays.len(),
            total(delays@) <= MAX_DURATION_NANOS,
            pos == loop_position(elapsed_ms, delays@),
            cumulative == total_millis(delays@.take(k as int)),
            forall|j: int| 0 <= j < k ==> pos >= total_millis(#[trigger] delays@.take(j + 1)),
        decreases delays.len() - k,
    {
        proof {
            lemma_prefix_step(delays@, k as int);
            lemma_total_prefix(delays@, k + 1);
        }
        cumulative = cumulative + delays[k] / 1_000_000;
        if pos < cumulative {
            proof {
                let ghost kk = k as int;
                assert(0 <= kk < delays@.len() && pos < total_millis(delays@.take(kk + 1)));
                let c = choose|c: int|
                    0 <= c < delays@.len() && pos < total_millis(#[trigger] delays@.take(c + 1))
                        && forall|j: int| 0 <= j < c ==> pos >= total_millis(#[trigger] delays@.take(j + 1));
                if c < kk {
                    assert(pos >= total_millis(delays@.take(c + 1)));
                } else if c > kk {
                    assert(pos >= total_millis(delays@.take(kk + 1)));
                }
            }
            return (k, Some(cumulative - pos));
        }
        k = k + 1;
    }
    assert forall|c: int| 0 <= c < delays@.len() implies !(pos < total_millis(#[trigger] delays@.take(c + 1))) by {}
    (0, None)
}

/// Where the loading of an image stands.
pub enum LoadingState<T> {
    /// Loading has been started and has not finished.
    Pending,
    /// Loaded, as `T`.
    Loaded(T),
}

/// The state recorded for `path` in `entries`, from the last entry with
/// that path.
pub open spec fn entry_of<T>(entries: Seq<(String, LoadingState<T>)>, path: Seq<char>) -> Option<
    LoadingState<T>,
>
    decreases entries.len(),
{
    if entries.len() == 0 {
        None
    } else if entries.last().0@ == path {
        Some(entries.last().1)
    } else {
        entry_of(entries.drop_last(), path)
    }
}

/// The images requested so far, by path, with where their loading stands.
pub struct TextureCache<T> {
    entries: Vec<(String, LoadingState<T>)>,
}

proof fn lemma_entry_of_push<T>(entries: Seq<(String, LoadingState<T>)>, entry: (String, LoadingState<T>), path: Seq<char>)
    ensures
        entry_of(entries.push(entry), path) == if entry.0@ == path {
            Some(entry.1)
        } else {
            entry_of(entries, path)
        },
{
    assert(entries.push(entry).drop_last() =~= entries);
}

proof fn lemma_entry_of_absent<T>(entries: Seq<(String, LoadingState<T>)>, path: Seq<char>)
    requires
        forall|i: int| 0 <= i < entries.len() ==> (#[trigger] entries[i]).0@ != path,
    ensures
        entry_of(entries, path) is None,
    decreases entries.len(),
{
    if entries.len() > 0 {
        lemma_entry_of_absent(entries.drop_last(), path);
    }
}

proof fn lemma_entry_of_update<T>(
    entries: Seq<(String, LoadingState<T>)>,
    i: int,
    state: LoadingState<T>,
    path: Seq<char>,
)
    requires
        0 <= i < entries.len(),
        forall|j: int| i < j < entries.len() ==> (#[trigger] entries[j]).0@ != entries[i].0@,
    ensures
        entry_of(entries.update(i, (entries[i].0, state)), path) == if path == entries[i].0@ {
            Some(state)
        } else {
            entry_of(entries, path)
        },
    decreases entries.len(),
{
    let updated = entries.update(i, (entries[i].0, state));
    if i < entries.len() - 1 {
        assert(updated.drop_last() =~= entries.drop_last().update(i, (entries[i].0, state)));
        lemma_entry_of_update(entries.drop_last(), i, state, path);
    } else {
        assert(updated.drop_last() =~= entries.drop_last());
    }
}

/// No path has two entries.
pub open spec fn distinct_paths<T>(entries: Seq<(String, LoadingState<T>)>) -> bool {
    forall|i: int, j: int|
        0 <= i < j < entries.len() ==> (#[trigger] entries[i]).0@ != (#[trigger] entries[j]).0@
}

proof fn lemma_entry_of_distinct<T>(entries: Seq<(String, LoadingState<T>)>, i: int)
    requires
        distinct_paths(entries),
        0 <= i < entries.len(),
    ensures
        entry_of(entries, entries[i].0@) == Some(entries[i].1),
    decreases entries.len(),
{
    if i < entries.len() - 1 {
        assert(entries.drop_last()[i] == entries[i]);
        lemma_entry_of_distinct(entries.drop_last(), i);
    }
}

proof fn lemma_entry_of_found<T>(entries: Seq<(String, LoadingState<T>)>, p: Seq<char>)
    requires
        entry_of(entries, p) is Some,
    ensures
        exists|i: int| 0 <= i < entries.len() && (#[trigger] entries[i]).0@ == p && entries[i].1 == entry_of(entries, p).unwrap(),
    decreases entries.len(),
{
    if entries.last().0@ != p {
        lemma_entry_of_found(entries.drop_last(), p);
        let i = choose|i: int| 0 <= i < entries.drop_last().len() && (#[trigger] entries.drop_last()[i]).0@ == p && entries.drop_last()[i].1 == entry_of(entries.drop_last(), p).unwrap();
        assert(entries[i] == entries.drop_last()[i]);
    } else {
        assert(entries[entries.len() - 1] == entries.last());
    }
}

impl<T> View for TextureCache<T> {
    type V = Map<Seq<char>, LoadingState<T>>;

    /// Where the loading of each requested image stands, by path.
    closed spec fn view(&self) -> Map<Seq<char>, LoadingState<T>> {
        Map::new(
            |p: Seq<char>| entry_of(self.entries@, p) is Some,
            |p: Seq<char>| entry_of(self.entries@, p).unwrap(),
        )
    }
}

/// The cache after requesting `path`: a path not requested before becomes
/// pending; a path already pending or loaded is left as it is.
pub open spec fn after_request<T>(cache: Map<Seq<char>, LoadingState<T>>, path: Seq<char>) -> Map<
    Seq<char>,
    LoadingState<T>,
> {
    if cache.contains_key(path) {
        cache
    } else {
        cache.insert(path, LoadingState::Pending)
    }
}

/// What a lookup of `path` finds: the image, once it has loaded.
pub open spec fn loaded<T>(cache: Map<Seq<char>, LoadingState<T>>, path: Seq<char>) -> Option<T> {
    if cache.contains_key(path) && cache[path] is Loaded {
        Some(cache[path]->Loaded_0)
    } else {
        None
    }
}

impl<T> TextureCache<T> {
    /// Where the loading of the image at `path` stands, if it was requested.
    closed spec fn state(&self, path: Seq<char>) -> Option<LoadingState<T>> {
        entry_of(self.entries@, path)
    }

    /// No path is recorded twice.
    #[verifier::type_invariant]
    spec fn paths_distinct(self) -> bool {
        distinct_paths(self.entries@)
    }

    /// Nothing requested.
    pub fn new() -> (cache: Self)
        ensures
            cache@ == Map::<Seq<char>, LoadingState<T>>::empty(),
    {
        let cache = TextureCache { entries: Vec::new() };
        assert(cache@ =~= Map::<Seq<char>, LoadingState<T>>::empty());
        cache
    }

    /// Requests the image at `path`. Gives `true`, and records the image as
    /// pending, when it had not been requested; the caller then starts
    /// loading it. Gives `false`, and changes nothing, when it is already
    /// loading or loaded.
    pub fn request_load(&mut self, path: String) -> (start: bool)
        ensures
            start == !old(self)@.contains_key(path@),
            final(self)@ == after_request(old(self)@, path@),
    {
        proof {
            use_type_invariant(&*self);
        }
        let ghost start_map = self@;
        let mut i: usize = self.entries.len();
        while i > 0
            invariant
                0 <= i <= self.entries.len(),
                self.entries@ == old(self).entries@,
                distinct_paths(self.entries@),
                forall|j: int| i <= j < self.entries.len() ==> (#[trigger] self.entries@[j]).0@ != path@,
            decreases i,
        {
            i = i - 1;
            if same_text(self.entries[i].0.as_str(), path.as_str()) {
                proof {
                    lemma_entry_of_update(self.entries@, i as int, self.entries@[i as int].1, path@);
                    assert(self.entries@.update(i as int, (self.entries@[i as int].0, self.entries@[i as int].1)) =~= self.entries@);
                    assert(self@.contains_key(path@));
                }
                return false;
            }
        }
        proof {
            lemma_entry_of_absent(self.entries@, path@);
        }
        let ghost before = self.entries@;
        let ghost key = path@;
        let mut held: Vec<(String, LoadingState<T>)> = Vec::new();
        std::mem::swap(&mut held, &mut self.entries);
        held.push((path, LoadingState::Pending));
        assert forall|p: Seq<char>| #[trigger] entry_of(held@, p) == if p == key {
            Some(LoadingState::<T>::Pending)
        } else {
            entry_of(before, p)
        } by {
            lemma_entry_of_push(before, (held@.last().0, LoadingState::Pending), p);
            assert(held@ == before.push(held@.last()));
        }
        self.entries = held;
        assert(self@ =~= start_map.insert(key, LoadingState::Pending));
        true
    }

    /// Records the image at `path` as loaded, as `image`.
    pub fn insert_loaded(&mut self, path: String, image: T)
        ensures
            final(self)@ == old(self)@.insert(path@, LoadingState::Loaded(image)),
    {
        proof {
            use_type_invariant(&*self);
        }
        let ghost start_map = self@;
        let ghost key = path@;
        let mut i: usize = self.entries.len();
        while i > 0
            invariant
                key == path@,
                0 <= i <= self.entries.len(),
                self.entries@ == old(self).entries@,
                distinct_paths(self.entries@),
                forall|j: int| i <= j < self.entries.len() ==> (#[trigger] self.entries@[j]).0@ != path@,
            decreases i,
        {
            i = i - 1;
            if same_text(self.entries[i].0.as_str(), path.as_str()) {
                let ghost before = self.entries@;
                let k = self.entries[i].0.clone();
                let ghost loaded = LoadingState::Loaded(image);
                let mut held: Vec<(String, LoadingState<T>)> = Vec::new();
                std::mem::swap(&mut held, &mut self.entries);
                held.set(i, (k, LoadingState::Loaded(image)));
                assert(before[i as int].0@ == key);
                assert(held@ =~= before.update(i as int, (before[i as int].0, loaded)));
                assert forall|p: Seq<char>| #[trigger] entry_of(held@, p) == if p == key {
                    Some(loaded)
                } else {
                    entry_of(before, p)
                } by {
                    lemma_entry_of_update(before, i as int, loaded, p);
                }
                self.entries = held;
                assert(self@ =~= old(self)@.insert(key, loaded));
                return;
            }
        }
        proof {
            lemma_entry_of_absent(self.entries@, path@);
        }
        let ghost before = self.entries@;
        let mut held: Vec<(String, LoadingState<T>)> = Vec::new();
        std::mem::swap(&mut held, &mut self.entries);
        held.push((path, LoadingState::Loaded(image)));
        assert forall|p: Seq<char>| #[trigger] entry_of(held@, p) == if p == key {
            Some(LoadingState::Loaded(image))
        } else {
            entry_of(before, p)
        } by {
            lemma_entry_of_push(before, (held@.last().0, LoadingState::Loaded(image)), p);
            assert(held@ == before.push(held@.last()));
        }
        self.entries = held;
        assert(self@ =~= start_map.insert(key, LoadingState::Loaded(image)));
    }

    /// Whether some requested image is still loading.
    pub fn any_pending(&self) -> (res: bool)
        ensures
            res == exists|p: Seq<char>| self@.contains_key(p) && #[trigger] self@[p] is Pending,
    {
        proof {
            use_type_invariant(self);
        }
        let mut i: usize = 0;
        while i < self.entries.len()
            invariant
                0 <= i <= self.entries.len(),
                distinct_paths(self.entries@),
                forall|j: int| 0 <= j < i ==> !((#[trigger] self.entries@[j]).1 is Pending),
            decreases self.entries.len() - i,
        {
            if let LoadingState::Pending = &self.entries[i].1 {
                proof {
                    lemma_entry_of_distinct(self.entries@, i as int);
                    let p = self.entries@[i as int].0@;
                    assert(self@.contains_key(p) && self@[p] is Pending);
                }
                return true;
            }
            i = i + 1;
        }
        assert forall|p: Seq<char>| self@.contains_key(p) implies !(#[trigger] self@[p] is Pending) by {
            lemma_entry_of_found(self.entries@, p);
        }
        false
    }

    /// The loaded image at `path`, if it has finished loading.
    pub fn get(&self, path: &str) -> (res: Option<&T>)
        ensures
            match loaded(self@, path@) {
                Some(image) => res == Some(&image),
                None => res is None,
            },
    {
        let mut i: usize = self.entries.len();
        while i > 0
            invariant
                0 <= i <= self.entries.len(),
                forall|j: int| i <= j < self.entries.len() ==> (#[trigger] self.entries@[j]).0@ != path@,
            decreases i,
        {
            i = i - 1;
            if same_text(self.entries[i].0.as_str(), path) {
                proof {
                    lemma_entry_of_update(self.entries@, i as int, self.entries@[i as int].1, path@);
                    assert(self.entries@.update(i as int, (self.entries@[i as int].0, self.entries@[i as int].1)) =~= self.entries@);
                }
                return match &self.entries[i].1 {
                    LoadingState::Loaded(image) => Some(image),
                    LoadingState::Pending => None,
                };
            }
        }
        proof {
            lemma_entry_of_absent(self.entries@, path@);
        }
        None
    }
}

/// A read gives back what was loaded: after the image at a path is
/// recorded as loaded, a lookup there finds it, and lookups elsewhere find
/// what they found before.
pub proof fn lemma_get_after_load<T>(cache: Map<Seq<char>, LoadingState<T>>, path: Seq<char>, image: T, other: Seq<char>)
    requires
        other != path,
    ensures
        loaded(cache.insert(path, LoadingState::Loaded(image)), path) == Some(image),
        loaded(cache.insert(path, LoadingState::Loaded(image)), other) == loaded(cache, other),
{
}

/// An image is loaded at most once: requesting a path again, whether it is
/// pending or loaded, changes nothing, and a loaded image stays loaded.
pub proof fn lemma_request_is_idempotent<T>(cache: Map<Seq<char>, LoadingState<T>>, path: Seq<char>, image: T)
    ensures
        after_request(after_request(cache, path), path) == after_request(cache, path),
        after_request(cache.insert(path, LoadingState::Loaded(image)), path) == cache.insert(
            path,
            LoadingState::Loaded(image),
        ),
        after_request(cache, path).contains_key(path),
{
}

/// For a file that exists, how it is loaded depends on its extension
/// alone: a GIF is loaded as an animation, a `webm`, `mp4` or `mkv` file
/// as the first frame of a video, and anything else (no extension
/// included) as a still image.
pub proof fn lemma_existing_file_plan(path: Seq<char>, size: Lod)
    ensures
        (spec_load_plan(path, true, size) == LoadPlan::Gif) <==> spec_extension(path) == Some("gif"@),
        (spec_load_plan(path, true, size) == LoadPlan::VideoFrame) <==> (spec_extension(path) == Some("webm"@)
            || spec_extension(path) == Some("mp4"@) || spec_extension(path) == Some("mkv"@)),
        (spec_load_plan(path, true, size) == LoadPlan::Still) <==> !(spec_extension(path) == Some("gif"@)
            || spec_extension(path) == Some("webm"@) || spec_extension(path) == Some("mp4"@)
            || spec_extension(path) == Some("mkv"@)),
{
    reveal_strlit("gif");
    reveal_strlit("webm");
    reveal_strlit("mp4");
    reveal_strlit("mkv");
    assert("gif"@ != "webm"@) by {
        assert("gif"@.len() != "webm"@.len());
    }
    assert("gif"@ != "mp4"@) by {
        assert("gif"@[0] != "mp4"@[0]);
    }
    assert("gif"@ != "mkv"@) by {
        assert("gif"@[0] != "mkv"@[0]);
    }
}

/// For a file that does not exist yet, the plan depends on the level of
/// detail alone: a thumbnail of 256 or 768 pixels is made from the source,
/// and at full detail the source is missing.
pub proof fn lemma_missing_file_plan(path: Seq<char>, other: Seq<char>, size: Lod)
    ensures
        spec_load_plan(path, false, size) == spec_load_plan(other, false, size),
        spec_load_plan(path, false, Lod::Low) == (LoadPlan::Thumbnail { side: 256 }),
        spec_load_plan(path, false, Lod::Medium) == (LoadPlan::Thumbnail { side: 768 }),
        spec_load_plan(path, false, Lod::Full) == LoadPlan::SourceMissing,
{
}

} // verus!
