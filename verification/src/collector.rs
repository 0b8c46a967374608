//! The file set collector: which entries of an input location are images to process.
//!
//! Looking at the file system is the caller's part. It reports what it found at the
//! input location as an `InputListing`; the collector picks the images out of it.

use vstd::prelude::*;
use vstd::string::*;
use crate::names::{is_image_name, is_valid_image};

verus! {

/// A file as a directory lists it: its path, and the path's last component.
#[derive(Debug, PartialEq, Eq)]
pub struct FileEntry {
    pub path: String,
    pub file_name: String,
}

#[verifier::ext_equal]
pub struct FileEntryView {
    pub path: Seq<char>,
    pub file_name: Seq<char>,
}

impl View for FileEntry {
    type V = FileEntryView;

    open spec fn view(&self) -> FileEntryView {
        FileEntryView { path: self.path@, file_name: self.file_name@ }
    }
}

impl Clone for FileEntry {
    fn clone(&self) -> (copy: FileEntry)
        ensures
            copy@ == self@,
    {
        FileEntry { path: self.path.clone(), file_name: self.file_name.clone() }
    }
}

impl FileEntry {
    pub fn new(path: &str, file_name: &str) -> (entry: FileEntry)
        ensures
            entry@ == (FileEntryView { path: path@, file_name: file_name@ }),
    {
        FileEntry { path: String::from_str(path), file_name: String::from_str(file_name) }
    }
}

/// The views of a sequence of entries, in the same order.
pub open spec fn entry_views(entries: Seq<FileEntry>) -> Seq<FileEntryView> {
    entries.map_values(|e: FileEntry| e@)
}

/// What was found at the input location.
#[derive(Debug, PartialEq, Eq)]
pub enum InputListing {
    /// The location is a single file.
    File(FileEntry),
    /// The location is a directory; these are its direct children that are files, in
    /// the order in which the directory was read.
    Directory(Vec<FileEntry>),
    /// The location is neither a file nor a directory.
    Missing,
}

#[verifier::ext_equal]
pub enum InputListingView {
    File(FileEntryView),
    Directory(Seq<FileEntryView>),
    Missing,
}

impl View for InputListing {
    type V = InputListingView;

    open spec fn view(&self) -> InputListingView {
        match self {
            InputListing::File(entry) => InputListingView::File(entry@),
            InputListing::Directory(children) => InputListingView::Directory(
                entry_views(children@),
            ),
            InputListing::Missing => InputListingView::Missing,
        }
    }
}

/// The entries whose file name carries an input extension, in their given order.
pub open spec fn images_among(entries: Seq<FileEntryView>) -> Seq<FileEntryView> {
    entries.filter(|e: FileEntryView| is_image_name(e.file_name))
}

/// The images to process at an input location: the file itself if it is an image, the
/// images among a directory's children, and nothing where the location is missing.
pub open spec fn collected(listing: InputListingView) -> Seq<FileEntryView> {
    match listing {
        InputListingView::File(entry) => if is_image_name(entry.file_name) {
            seq![entry]
        } else {
            Seq::empty()
        },
        InputListingView::Directory(children) => images_among(children),
        InputListingView::Missing => Seq::empty(),
    }
}

/// Every collected entry carries an input extension.
pub proof fn lemma_collected_are_images(listing: InputListingView, i: int)
    requires
        0 <= i < collected(listing).len(),
    ensures
        is_image_name(collected(listing)[i].file_name),
{
    match listing {
        InputListingView::Directory(children) => {
            let pred = |e: FileEntryView| is_image_name(e.file_name);
            children.lemma_filter_pred(pred, i);
        },
        _ => {},
    }
}

/// Picks the images out of a directory's children.
pub fn select_images(children: &Vec<FileEntry>) -> (files: Vec<FileEntry>)
    ensures
        entry_views(files@) == images_among(entry_views(children@)),
{
    let ghost pred = |e: FileEntryView| is_image_name(e.file_name);
    let mut files: Vec<FileEntry> = Vec::new();
    let mut i: usize = 0;
    proof {
        reveal(Seq::filter);
        assert(entry_views(children@).take(0) =~= Seq::empty());
        assert(entry_views(files@) =~= Seq::empty());
    }
    while i < children.len()
        invariant
            i <= children.len(),
            pred == (|e: FileEntryView| is_image_name(e.file_name)),
            entry_views(files@) == entry_views(children@).take(i as int).filter(pred),
        decreases children.len() - i,
    {
        let ghost before = entry_views(files@);
        let ghost seen = entry_views(children@).take(i as int);
        proof {
            assert(entry_views(children@).take(i + 1) =~= seen.push(children@[i as int]@));
            seen.lemma_filter_push(children@[i as int]@, pred);
        }
        if is_valid_image(children[i].file_name.as_str()) {
            files.push(children[i].clone());
            assert(entry_views(files@) =~= before.push(children@[i as int]@));
        }
        i = i + 1;
    }
    proof {
        assert(entry_views(children@).take(i as int) =~= entry_views(children@));
    }
    files
}

/// The images to process at an input location, in the order of the listing.
pub fn collect_image_files(listing: &InputListing) -> (files: Vec<FileEntry>)
    ensures
        entry_views(files@) == collected(listing@),
{
    match listing {
        InputListing::File(entry) => {
            let mut files: Vec<FileEntry> = Vec::new();
            if is_valid_image(entry.file_name.as_str()) {
                files.push(entry.clone());
                assert(entry_views(files@) =~= seq![entry@]);
            } else {
                assert(entry_views(files@) =~= Seq::empty());
            }
            files
        },
        InputListing::Directory(children) => select_images(children),
        InputListing::Missing => {
            let files: Vec<FileEntry> = Vec::new();
            assert(entry_views(files@) =~= Seq::empty());
            files
        },
    }
}

} // verus!
