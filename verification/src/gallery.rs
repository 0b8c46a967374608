//! The gallery of exported crops: the pictures found in the output directory, the
//! thumbnails that have arrived for them, and the bounded cache of their textures.
//!
//! Thumbnails are made elsewhere and arrive in any number and at any time. One that
//! belongs to a picture of the gallery is shown with that picture and cached; one
//! whose path the gallery does not hold (it was made for a directory loaded earlier)
//! is dropped.

use vstd::prelude::*;
use vstd::string::*;
use std::time::Instant;
use crate::cache::{lemma_insert_is_bounded, value_of, CacheView, ThumbnailCache};
use crate::collector::{entry_views, FileEntry, FileEntryView};
use crate::names::{is_gallery_image, is_gallery_name, str_equal};

verus! {

/// `std::time::Instant`, as an opaque type.
#[verifier::external_type_specification]
#[verifier::external_body]
pub struct ExInstant(Instant);

/// Calls `Instant::now`. Nothing is claimed of the result.
#[verifier::external_body]
fn current_instant() -> Instant {
    Instant::now()
}

/// The number of thumbnails that a gallery caches at most.
pub const DEFAULT_CACHE_CAPACITY: usize = 100;

/// The side of the square, in pixels, that is reserved for a picture whose thumbnail
/// has not arrived.
pub const PLACEHOLDER_SIDE: usize = 128;

/// A picture of the gallery.
#[derive(Debug)]
pub struct PhotoEntry {
    pub path: String,
    /// The texture of the thumbnail, once it has arrived.
    pub thumb_tex: Option<u64>,
    /// Width and height of the thumbnail, in pixels.
    pub thumb_size: (usize, usize),
    /// When the picture was last shown.
    pub last_accessed: Instant,
}

#[verifier::ext_equal]
pub struct PhotoView {
    pub path: Seq<char>,
    pub thumb_tex: Option<u64>,
    pub thumb_size: (nat, nat),
}

impl View for PhotoEntry {
    type V = PhotoView;

    open spec fn view(&self) -> PhotoView {
        PhotoView {
            path: self.path@,
            thumb_tex: self.thumb_tex,
            thumb_size: (self.thumb_size.0 as nat, self.thumb_size.1 as nat),
        }
    }
}

impl PhotoView {
    /// A picture whose thumbnail has not arrived.
    pub open spec fn pending(path: Seq<char>) -> PhotoView {
        PhotoView {
            path,
            thumb_tex: None,
            thumb_size: (PLACEHOLDER_SIDE as nat, PLACEHOLDER_SIDE as nat),
        }
    }
}

impl Clone for PhotoEntry {
    fn clone(&self) -> (copy: PhotoEntry)
        ensures
            copy@ == self@,
    {
        PhotoEntry {
            path: self.path.clone(),
            thumb_tex: self.thumb_tex,
            thumb_size: self.thumb_size,
            last_accessed: self.last_accessed,
        }
    }
}

impl PhotoEntry {
    /// A picture whose thumbnail has not arrived.
    pub fn new(path: String) -> (photo: PhotoEntry)
        ensures
            photo@ == PhotoView::pending(path@),
    {
        PhotoEntry {
            path,
            thumb_tex: None,
            thumb_size: (PLACEHOLDER_SIDE, PLACEHOLDER_SIDE),
            last_accessed: current_instant(),
        }
    }
}

/// A thumbnail that is ready for display: the texture it was loaded into, and its
/// size in pixels.
#[derive(Debug, PartialEq, Eq)]
pub struct Thumbnail {
    /// The path of the picture that the thumbnail was made of.
    pub path: String,
    pub texture: u64,
    pub width: usize,
    pub height: usize,
}

#[verifier::ext_equal]
pub struct ThumbnailView {
    pub path: Seq<char>,
    pub texture: u64,
    pub width: nat,
    pub height: nat,
}

impl View for Thumbnail {
    type V = ThumbnailView;

    open spec fn view(&self) -> ThumbnailView {
        ThumbnailView {
            path: self.path@,
            texture: self.texture,
            width: self.width as nat,
            height: self.height as nat,
        }
    }
}

pub open spec fn photo_views(photos: Seq<PhotoEntry>) -> Seq<PhotoView> {
    photos.map_values(|p: PhotoEntry| p@)
}

pub open spec fn thumbnail_views(thumbnails: Seq<Thumbnail>) -> Seq<ThumbnailView> {
    thumbnails.map_values(|t: Thumbnail| t@)
}

pub open spec fn string_views(strings: Seq<String>) -> Seq<Seq<char>> {
    strings.map_values(|s: String| s@)
}

/// The entries that the gallery shows, in their given order.
pub open spec fn displayable(entries: Seq<FileEntryView>) -> Seq<FileEntryView> {
    entries.filter(|e: FileEntryView| is_gallery_name(e.file_name))
}

/// Where the gallery shows the picture at `path`: the last position that holds the
/// path, if any.
pub open spec fn photo_index(photos: Seq<PhotoView>, path: Seq<char>) -> Option<int>
    decreases photos.len(),
{
    if photos.len() == 0 {
        None
    } else if photos.last().path == path {
        Some(photos.len() - 1)
    } else {
        photo_index(photos.drop_last(), path)
    }
}

/// Whether every picture has its thumbnail.
pub open spec fn all_loaded(photos: Seq<PhotoView>) -> bool {
    forall|i: int| 0 <= i < photos.len() ==> (#[trigger] photos[i]).thumb_tex is Some
}

/// The state of a gallery.
#[verifier::ext_equal]
pub struct GalleryView {
    pub photos: Seq<PhotoView>,
    pub cache: CacheView,
    pub is_loading: bool,
}

impl GalleryView {
    /// The gallery after the directory with these entries is loaded: it shows the
    /// displayable entries, none with a thumbnail yet, and its cache is empty.
    pub open spec fn load(self, entries: Seq<FileEntryView>) -> GalleryView {
        GalleryView {
            photos: displayable(entries).map_values(|e: FileEntryView| PhotoView::pending(e.path)),
            cache: self.cache.clear(),
            is_loading: true,
        }
    }

    /// Whether the gallery holds a picture at `path`.
    pub open spec fn knows(self, path: Seq<char>) -> bool {
        photo_index(self.photos, path) is Some
    }

    /// The gallery after a thumbnail has arrived: the picture at its path shows it,
    /// and the cache holds its texture as the most recent entry. A thumbnail for a
    /// path that the gallery does not hold changes nothing.
    pub open spec fn accept(self, thumbnail: ThumbnailView) -> GalleryView {
        match photo_index(self.photos, thumbnail.path) {
            Some(at) => GalleryView {
                photos: self.photos.update(
                    at,
                    PhotoView {
                        thumb_tex: Some(thumbnail.texture),
                        thumb_size: (thumbnail.width, thumbnail.height),
                        ..self.photos[at]
                    },
                ),
                cache: self.cache.insert(thumbnail.path, thumbnail.texture),
                ..self
            },
            None => self,
        }
    }

    /// The gallery after these thumbnails have arrived, in this order.
    pub open spec fn accept_all(self, thumbnails: Seq<ThumbnailView>) -> GalleryView
        decreases thumbnails.len(),
    {
        if thumbnails.len() == 0 {
            self
        } else {
            self.accept_all(thumbnails.drop_last()).accept(thumbnails.last())
        }
    }

    /// Whether one of these thumbnails belongs to a picture of the gallery.
    pub open spec fn takes_any(self, thumbnails: Seq<ThumbnailView>) -> bool {
        exists|i: int| 0 <= i < thumbnails.len() && self.knows(#[trigger] thumbnails[i].path)
    }

    /// The gallery once it has noticed whether loading is over.
    pub open spec fn settle(self) -> GalleryView {
        if self.is_loading && all_loaded(self.photos) {
            GalleryView { is_loading: false, ..self }
        } else {
            self
        }
    }
}

/// `photo_index` finds the last picture at the path: it holds the path, and no later
/// picture does.
pub proof fn lemma_photo_index(photos: Seq<PhotoView>, path: Seq<char>)
    ensures
        match photo_index(photos, path) {
            Some(at) => {
                &&& 0 <= at < photos.len()
                &&& photos[at].path == path
                &&& forall|j: int| at < j < photos.len() ==> photos[j].path != path
            },
            None => forall|j: int| 0 <= j < photos.len() ==> photos[j].path != path,
        },
    decreases photos.len(),
{
    if photos.len() > 0 && photos.last().path != path {
        let shorter = photos.drop_last();
        lemma_photo_index(shorter, path);
        assert forall|j: int| 0 <= j < shorter.len() implies shorter[j] == photos[j] by {}
    }
}

/// A picture at the path with none after it is the one that `photo_index` finds.
pub proof fn lemma_photo_index_found(photos: Seq<PhotoView>, path: Seq<char>, at: int)
    requires
        0 <= at < photos.len(),
        photos[at].path == path,
        forall|j: int| at < j < photos.len() ==> photos[j].path != path,
    ensures
        photo_index(photos, path) == Some(at),
{
    lemma_photo_index(photos, path);
}

/// Accepting a thumbnail moves no picture: every path is found where it was.
pub proof fn lemma_accept_keeps_paths(
    gallery: GalleryView,
    thumbnail: ThumbnailView,
    path: Seq<char>,
)
    ensures
        gallery.accept(thumbnail).photos.len() == gallery.photos.len(),
        photo_index(gallery.accept(thumbnail).photos, path) == photo_index(gallery.photos, path),
        gallery.accept(thumbnail).is_loading == gallery.is_loading,
{
    lemma_photo_index(gallery.photos, thumbnail.path);
    lemma_photo_index(gallery.photos, path);
    let after = gallery.accept(thumbnail).photos;
    match photo_index(gallery.photos, path) {
        Some(at) => {
            assert forall|j: int| at < j < after.len() implies after[j].path != path by {
                assert(after[j].path == gallery.photos[j].path);
            }
            lemma_photo_index_found(after, path, at);
        },
        None => {
            lemma_photo_index(after, path);
            if photo_index(after, path) is Some {
                let at = photo_index(after, path)->0;
                assert(after[at].path == gallery.photos[at].path);
            }
        },
    }
}

/// The cache of a gallery never holds more than its capacity, whatever thumbnails
/// arrive and however many.
pub proof fn lemma_cache_stays_bounded(gallery: GalleryView, thumbnails: Seq<ThumbnailView>)
    requires
        gallery.cache.wf(),
    ensures
        gallery.accept_all(thumbnails).cache.wf(),
        gallery.accept_all(thumbnails).cache.capacity == gallery.cache.capacity,
        gallery.accept_all(thumbnails).cache.entries.len() <= gallery.cache.capacity,
    decreases thumbnails.len(),
{
    if thumbnails.len() > 0 {
        lemma_cache_stays_bounded(gallery, thumbnails.drop_last());
        let before = gallery.accept_all(thumbnails.drop_last());
        lemma_insert_is_bounded(before.cache, thumbnails.last().path, thumbnails.last().texture);
    }
}

/// The gallery.
pub struct Gallery {
    photos: Vec<PhotoEntry>,
    texture_cache: ThumbnailCache,
    is_loading: bool,
}

impl View for Gallery {
    type V = GalleryView;

    closed spec fn view(&self) -> GalleryView {
        GalleryView {
            photos: photo_views(self.photos@),
            cache: self.texture_cache@,
            is_loading: self.is_loading,
        }
    }
}

impl Gallery {
    /// An empty gallery that caches up to `DEFAULT_CACHE_CAPACITY` thumbnails.
    pub fn new() -> (gallery: Gallery)
        ensures
            gallery@.photos.len() == 0,
            gallery@.cache == (CacheView {
                entries: Seq::empty(),
                capacity: DEFAULT_CACHE_CAPACITY as nat,
            }),
            !gallery@.is_loading,
    {
        let gallery = Gallery {
            photos: Vec::new(),
            texture_cache: ThumbnailCache::with_capacity(DEFAULT_CACHE_CAPACITY),
            is_loading: false,
        };
        assert(gallery@.photos =~= Seq::empty());
        gallery
    }

    /// An empty gallery that caches up to `capacity` thumbnails; `None` where the
    /// capacity is 0 or above `MAX_CAPACITY`.
    pub fn with_capacity(capacity: usize) -> (made: Option<Gallery>)
        ensures
            match made {
                Some(gallery) => {
                    &&& 0 < capacity <= crate::cache::MAX_CAPACITY
                    &&& gallery@.photos.len() == 0
                    &&& gallery@.cache == (CacheView {
                        entries: Seq::empty(),
                        capacity: capacity as nat,
                    })
                    &&& !gallery@.is_loading
                },
                None => capacity == 0 || capacity > crate::cache::MAX_CAPACITY,
            },
    {
        match ThumbnailCache::new(capacity) {
            Some(texture_cache) => {
                let gallery = Gallery { photos: Vec::new(), texture_cache, is_loading: false };
                assert(gallery@.photos =~= Seq::empty());
                Some(gallery)
            },
            None => None,
        }
    }

    /// Shows the displayable files of a directory in place of what the gallery
    /// showed before, empties the cache, and returns the paths of the pictures whose
    /// thumbnails are to be made, in the gallery's order.
    pub fn load_images_from_directory(&mut self, entries: &Vec<FileEntry>) -> (wanted: Vec<String>)
        ensures
            final(self)@ == old(self)@.load(entry_views(entries@)),
            final(self).access_times().len() == final(self)@.photos.len(),
            string_views(wanted@) == final(self)@.photos.map_values(|p: PhotoView| p.path),
            final(self)@.cache.wf(),
    {
        let ghost pred = |e: FileEntryView| is_gallery_name(e.file_name);
        let ghost fresh = |e: FileEntryView| PhotoView::pending(e.path);
        self.photos = Vec::new();
        self.texture_cache.clear();
        self.is_loading = true;
        let mut wanted: Vec<String> = Vec::new();
        let mut i: usize = 0;
        proof {
            reveal(Seq::filter);
            assert(entry_views(entries@).take(0) =~= Seq::empty());
            assert(photo_views(self.photos@) =~= Seq::empty());
            assert(string_views(wanted@) =~= Seq::empty());
        }
        while i < entries.len()
            invariant
                i <= entries.len(),
                pred == (|e: FileEntryView| is_gallery_name(e.file_name)),
                fresh == (|e: FileEntryView| PhotoView::pending(e.path)),
                photo_views(self.photos@) == entry_views(entries@).take(i as int).filter(
                    pred,
                ).map_values(fresh),
                string_views(wanted@) == photo_views(self.photos@).map_values(
                    |p: PhotoView| p.path,
                ),
                self.texture_cache@ == old(self)@.cache.clear(),
                self.texture_cache@.wf(),
                self.is_loading,
            decreases entries.len() - i,
        {
            let ghost shown = photo_views(self.photos@);
            let ghost paths = string_views(wanted@);
            let ghost seen = entry_views(entries@).take(i as int);
            proof {
                assert(entry_views(entries@).take(i + 1) =~= seen.push(entries@[i as int]@));
                seen.lemma_filter_push(entries@[i as int]@, pred);
            }
            if is_gallery_image(entries[i].file_name.as_str()) {
                self.photos.push(PhotoEntry::new(entries[i].path.clone()));
                wanted.push(entries[i].path.clone());
                proof {
                    let entry = entries@[i as int]@;
                    assert(photo_views(self.photos@) =~= shown.push(fresh(entry)));
                    assert(seen.filter(pred).push(entry).map_values(fresh) =~= seen.filter(
                        pred,
                    ).map_values(fresh).push(fresh(entry)));
                    assert(string_views(wanted@) =~= paths.push(entry.path));
                    assert(photo_views(self.photos@).map_values(|p: PhotoView| p.path)
                        =~= shown.map_values(|p: PhotoView| p.path).push(entry.path));
                }
            }
            i = i + 1;
        }
        proof {
            assert(entry_views(entries@).take(i as int) =~= entry_views(entries@));
        }
        wanted
    }

    /// Where the gallery shows the picture at `path`, if it holds one.
    pub fn index_of(&self, path: &str) -> (found: Option<usize>)
        ensures
            match found {
                Some(at) => photo_index(self@.photos, path@) == Some(at as int),
                None => photo_index(self@.photos, path@) is None,
            },
    {
        let mut i: usize = self.photos.len();
        while i > 0
            invariant
                i <= self.photos@.len(),
                forall|j: int|
                    i <= j < self.photos@.len() ==> (#[trigger] photo_views(self.photos@)[j]).path
                        != path@,
            decreases i,
        {
            i = i - 1;
            if str_equal(self.photos[i].path.as_str(), path) {
                proof {
                    lemma_photo_index_found(photo_views(self.photos@), path@, i as int);
                }
                return Some(i);
            }
        }
        proof {
            lemma_photo_index(photo_views(self.photos@), path@);
        }
        None
    }

    /// Takes one thumbnail; tells whether the gallery holds its picture.
    pub fn accept(&mut self, thumbnail: &Thumbnail) -> (taken: bool)
        ensures
            final(self)@ == old(self)@.accept(thumbnail@),
            final(self).access_times() == old(self).access_times(),
            taken == old(self)@.knows(thumbnail@.path),
            old(self)@.cache.wf(),
            final(self)@.cache.wf(),
    {
        match self.index_of(thumbnail.path.as_str()) {
            Some(at) => {
                proof {
                    lemma_photo_index(self@.photos, thumbnail@.path);
                }
                let ghost before = photo_views(self.photos@);
                let ghost times = access_times_of(self.photos@);
                self.photos[at].thumb_tex = Some(thumbnail.texture);
                self.photos[at].thumb_size = (thumbnail.width, thumbnail.height);
                self.texture_cache.insert(thumbnail.path.clone(), thumbnail.texture);
                proof {
                    assert(access_times_of(self.photos@) =~= times);
                    assert(photo_views(self.photos@) =~= before.update(
                        at as int,
                        PhotoView {
                            thumb_tex: Some(thumbnail.texture),
                            thumb_size: (thumbnail.width as nat, thumbnail.height as nat),
                            ..before[at as int]
                        },
                    ));
                }
                true
            },
            None => {
                self.texture_cache.recall_bounds();
                false
            },
        }
    }

    /// Whether every picture has its thumbnail.
    pub fn all_thumbnails_loaded(&self) -> (loaded: bool)
        ensures
            loaded == all_loaded(self@.photos),
    {
        let mut i: usize = 0;
        while i < self.photos.len()
            invariant
                i <= self.photos@.len(),
                forall|j: int|
                    0 <= j < i ==> (#[trigger] photo_views(self.photos@)[j]).thumb_tex is Some,
            decreases self.photos.len() - i,
        {
            if self.photos[i].thumb_tex.is_none() {
                assert(photo_views(self.photos@)[i as int].thumb_tex is None);
                return false;
            }
            i = i + 1;
        }
        true
    }

    /// Takes the thumbnails that have arrived since the last call, in their order of
    /// arrival, then notices whether loading is over. Tells whether any of them
    /// belongs to a picture of the gallery, so that the display is drawn again.
    pub fn update(&mut self, arrivals: &Vec<Thumbnail>) -> (any_received: bool)
        ensures
            final(self)@ == old(self)@.accept_all(thumbnail_views(arrivals@)).settle(),
            final(self).access_times() == old(self).access_times(),
            any_received == old(self)@.takes_any(thumbnail_views(arrivals@)),
            final(self)@.cache.wf(),
    {
        let mut any_received = false;
        let mut i: usize = 0;
        let ghost all = thumbnail_views(arrivals@);
        proof {
            assert(all.take(0) =~= Seq::empty());
        }
        while i < arrivals.len()
            invariant
                i <= arrivals.len(),
                all == thumbnail_views(arrivals@),
                self@ == old(self)@.accept_all(all.take(i as int)),
                self.access_times() == old(self).access_times(),
                any_received == old(self)@.takes_any(all.take(i as int)),
                forall|path: Seq<char>|
                    photo_index(self@.photos, path) == photo_index(old(self)@.photos, path),
            decreases arrivals.len() - i,
        {
            let ghost before = self@;
            let ghost seen = all.take(i as int);
            let taken = self.accept(&arrivals[i]);
            proof {
                let next = all.take(i + 1);
                assert(next.drop_last() =~= seen);
                assert(next.last() == arrivals@[i as int]@);
                assert forall|path: Seq<char>|
                    photo_index(self@.photos, path) == photo_index(
                        old(self)@.photos,
                        path,
                    ) by {
                    lemma_accept_keeps_paths(before, arrivals@[i as int]@, path);
                }
                if old(self)@.takes_any(seen) {
                    let k = choose|k: int|
                        0 <= k < seen.len() && old(self)@.knows(#[trigger] seen[k].path);
                    assert(next[k] == seen[k]);
                }
                if taken {
                    assert(old(self)@.knows(next[i as int].path));
                }
                if old(self)@.takes_any(next) {
                    let k = choose|k: int|
                        0 <= k < next.len() && old(self)@.knows(#[trigger] next[k].path);
                    if k < i {
                        assert(seen[k] == next[k]);
                    }
                }
            }
            any_received = any_received || taken;
            i = i + 1;
        }
        proof {
            assert(all.take(i as int) =~= all);
        }
        if self.is_loading {
            if self.all_thumbnails_loaded() {
                self.is_loading = false;
            }
        }
        self.texture_cache.recall_bounds();
        any_received
    }

    /// Records that the picture at `index` is on display now: the time of the call
    /// becomes the time at which that picture was last shown, as `touch_at` says.
    pub fn touch(&mut self, index: usize)
        ensures
            final(self)@ == old(self)@,
            exists|now: Instant|
                final(self).access_times() == #[trigger] shown_at(
                    old(self).access_times(),
                    index as int,
                    now,
                ),
    {
        let now = current_instant();
        self.touch_at(index, now);
    }

    /// Records `now` as the time at which the picture at `index` was last shown. The
    /// pictures, their thumbnails and the cache stay as they are, and so does the
    /// time of every other picture; an index beyond the last picture changes nothing.
    pub fn touch_at(&mut self, index: usize, now: Instant)
        ensures
            final(self)@ == old(self)@,
            final(self).access_times() == shown_at(old(self).access_times(), index as int, now),
    {
        if index < self.photos.len() {
            let ghost before = photo_views(self.photos@);
            let ghost times = access_times_of(self.photos@);
            self.photos[index].last_accessed = now;
            assert(photo_views(self.photos@) =~= before);
            assert(access_times_of(self.photos@) =~= times.update(index as int, now));
        }
    }

    /// When each picture was last shown, in the gallery's order.
    pub closed spec fn access_times(&self) -> Seq<Instant> {
        access_times_of(self.photos@)
    }

    pub fn is_empty(&self) -> (empty: bool)
        ensures
            empty == (self@.photos.len() == 0),
    {
        self.photos.len() == 0
    }

    pub fn photo_count(&self) -> (count: usize)
        ensures
            count == self@.photos.len(),
    {
        self.photos.len()
    }

    pub fn is_loading(&self) -> (loading: bool)
        ensures
            loading == self@.is_loading,
    {
        self.is_loading
    }

    /// The pictures, in the gallery's order.
    pub fn photos(&self) -> (photos: &Vec<PhotoEntry>)
        ensures
            photo_views(photos@) == self@.photos,
            access_times_of(photos@) == self.access_times(),
    {
        &self.photos
    }

    /// The number of cached textures; never more than the cache's capacity.
    pub fn cached_count(&self) -> (count: usize)
        ensures
            count == self@.cache.entries.len(),
            count <= self@.cache.capacity,
    {
        self.texture_cache.len()
    }

    /// The texture cached for `path`, if any.
    pub fn cached_texture(&self, path: &str) -> (texture: Option<u64>)
        ensures
            texture == value_of(self@.cache.entries, path@),
    {
        self.texture_cache.get(path)
    }
}

/// When each of these pictures was last shown.
pub open spec fn access_times_of(photos: Seq<PhotoEntry>) -> Seq<Instant> {
    photos.map_values(|p: PhotoEntry| p.last_accessed)
}

/// The times of last display after the picture at `index` is shown at `now`: that
/// picture's time is `now` and every other time is as it was. An index that names no
/// picture changes nothing.
pub open spec fn shown_at(times: Seq<Instant>, index: int, now: Instant) -> Seq<Instant> {
    if 0 <= index < times.len() {
        times.update(index, now)
    } else {
        times
    }
}

} // verus!
