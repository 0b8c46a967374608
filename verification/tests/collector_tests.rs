use headshot::collector::{collect_image_files, select_images, FileEntry, InputListing};

fn entry(name: &str) -> FileEntry {
    FileEntry::new(&format!("photos/{}", name), name)
}

#[test]
fn directory_yields_its_images_in_listing_order() {
    let listing = InputListing::Directory(vec![
        entry("a.png"),
        entry("b.txt"),
        entry("c.JPG"),
        entry("d.jpeg"),
    ]);
    let files = collect_image_files(&listing);
    assert_eq!(files, vec![entry("a.png"), entry("c.JPG"), entry("d.jpeg")]);
}

#[test]
fn listing_order_is_kept_not_sorted() {
    let listing = InputListing::Directory(vec![entry("z.png"), entry("m.jpg"), entry("a.jpeg")]);
    let files = collect_image_files(&listing);
    assert_eq!(files, vec![entry("z.png"), entry("m.jpg"), entry("a.jpeg")]);
}

#[test]
fn single_image_file_yields_itself() {
    let listing = InputListing::File(FileEntry::new("/tmp/me.PNG", "me.PNG"));
    let files = collect_image_files(&listing);
    assert_eq!(files, vec![FileEntry::new("/tmp/me.PNG", "me.PNG")]);
}

#[test]
fn single_file_of_another_kind_yields_nothing() {
    let listing = InputListing::File(FileEntry::new("/tmp/notes.txt", "notes.txt"));
    assert!(collect_image_files(&listing).is_empty());
    let listing = InputListing::File(FileEntry::new("/tmp/Makefile", "Makefile"));
    assert!(collect_image_files(&listing).is_empty());
}

#[test]
fn missing_location_yields_nothing() {
    assert!(collect_image_files(&InputListing::Missing).is_empty());
}

#[test]
fn directory_without_images_yields_nothing() {
    assert!(collect_image_files(&InputListing::Directory(vec![])).is_empty());
    let listing = InputListing::Directory(vec![entry("a.bmp"), entry("b.webp"), entry(".png")]);
    assert!(collect_image_files(&listing).is_empty());
}

#[test]
fn extension_is_read_from_the_file_name_not_the_path() {
    let children = vec![
        FileEntry::new("dir.png/readme", "readme"),
        FileEntry::new("dir.txt/face.jpg", "face.jpg"),
    ];
    let files = select_images(&children);
    assert_eq!(files, vec![FileEntry::new("dir.txt/face.jpg", "face.jpg")]);
}

#[test]
fn repeated_entries_are_kept_as_often_as_listed() {
    let children = vec![entry("a.png"), entry("a.png")];
    assert_eq!(select_images(&children).len(), 2);
}

#[test]
fn file_entry_clone_is_equal() {
    let e = entry("a.png");
    assert_eq!(e.clone(), e);
}
