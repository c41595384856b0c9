//! Building collections and the gallery from scanned directories.

use gallerygen::error::GalleryError;
use gallerygen::input::CandidateDir;
use gallerygen::input::DirEntry;
use gallerygen::input::RawDescriptor;
use gallerygen::model::Collection;
use gallerygen::model::Date;
use gallerygen::model::Gallery;

fn file(dir: &str, name: &str) -> DirEntry {
    DirEntry {
        path: format!("{}/{}", dir, name),
        file_name: name.to_string(),
        is_dir: false,
    }
}

fn subdir(dir: &str, name: &str) -> DirEntry {
    DirEntry {
        path: format!("{}/{}", dir, name),
        file_name: name.to_string(),
        is_dir: true,
    }
}

fn descriptor(title: &str, date: &str, feat: &[&str]) -> RawDescriptor {
    RawDescriptor {
        title: title.to_string(),
        date: date.to_string(),
        feat: feat.iter().map(|s| s.to_string()).collect(),
    }
}

#[test]
fn entry_classification_by_extension_ignores_case() {
    assert!(file("g/c", "a.webp").is_image());
    assert!(file("g/c", "b.jpeg").is_image());
    assert!(file("g/c", "c.png").is_image());
    assert!(file("g/c", "d.jpg").is_image());
    assert!(file("g/c", "e.JPG").is_image());
    assert!(file("g/c", "f.WebP").is_image());
    assert!(!file("g/c", "something.unknown").is_image());
    assert!(!file("g/c", "noextension").is_image());
    assert!(!file("g/c", ".jpg").is_image());
}

#[test]
fn the_descriptor_is_recognised_by_its_reserved_name() {
    assert!(file("g/c", "collection-info.zm").is_index());
    assert!(!file("g/c", "collection-info.txt").is_index());
    assert!(!file("g/c", "a.webp").is_index());
}

#[test]
fn no_descriptor_yields_no_collection() {
    let entries = vec![file("g/c", "Valley.webp"), file("g/c", "Summit.webp")];
    let r = Collection::from_entries(&"c".to_string(), &entries, &None).unwrap();
    assert!(r.is_none());
}

#[test]
fn descriptor_with_zero_images_yields_an_empty_collection() {
    let entries = vec![file("g/c", "collection-info.zm"), file("g/c", "notes.txt")];
    let desc = Some(descriptor("Empty", "2021-01-01", &[]));
    let coll = Collection::from_entries(&"c".to_string(), &entries, &desc)
        .unwrap()
        .unwrap();
    assert!(coll.images.is_empty());
    assert_eq!(coll.title, "Empty");
}

#[test]
fn images_are_sorted_by_name_ascending() {
    let dir = "gallery/Fuji, Japan";
    let entries = vec![
        file(dir, "Valley.webp"),
        file(dir, "Summit.webp"),
        file(dir, "collection-info.zm"),
    ];
    let desc = Some(descriptor("Fuji, Japan", "2021-01-01", &["Summit"]));
    let coll = Collection::from_entries(&"Fuji, Japan".to_string(), &entries, &desc)
        .unwrap()
        .unwrap();
    let names: Vec<&str> = coll.images.iter().map(|i| i.name.as_str()).collect();
    assert_eq!(names, vec!["Summit", "Valley"]);
    assert_eq!(coll.date, Date { year: 2021, month: 1, day: 1 });
    assert_eq!(coll.title, "Fuji, Japan");
    assert_eq!(coll.path, "Fuji, Japan");
    assert_eq!(coll.feat, vec!["Summit".to_string()]);
}

#[test]
fn unrelated_files_and_subdirectories_are_excluded() {
    let dir = "gallery/Fuji, Japan";
    let entries = vec![
        file(dir, "Valley.webp"),
        file(dir, "Summit.webp"),
        file(dir, "something.unknown"),
        subdir(dir, "Valley"),
        file(dir, "collection-info.zm"),
    ];
    let desc = Some(descriptor("Fuji, Japan", "2021-01-01", &[]));
    let coll = Collection::from_entries(&"Fuji, Japan".to_string(), &entries, &desc)
        .unwrap()
        .unwrap();
    let names: Vec<&str> = coll.images.iter().map(|i| i.name.as_str()).collect();
    assert_eq!(names, vec!["Summit", "Valley"]);
}

#[test]
fn a_malformed_date_fails_the_collection() {
    let entries = vec![file("g/c", "collection-info.zm")];
    let desc = Some(descriptor("Bad", "last tuesday", &[]));
    let r = Collection::from_entries(&"c".to_string(), &entries, &desc);
    assert!(matches!(r, Err(GalleryError::MetadataParseError { .. })));
}

fn candidate(name: &str, date: &str) -> CandidateDir {
    let dir = format!("gallery/{}", name);
    CandidateDir {
        name: name.to_string(),
        entries: vec![
            file(&dir, "One.jpg"),
            file(&dir, "collection-info.zm"),
        ],
        descriptor: Some(descriptor(name, date, &[])),
    }
}

#[test]
fn the_gallery_is_sorted_by_date_descending() {
    let dirs = vec![
        candidate("Older", "2019-05-01"),
        candidate("Newest", "2022-03-14"),
        candidate("Middle", "2021-01-01"),
    ];
    let g = Gallery::from_path(&dirs).unwrap();
    let order: Vec<&str> = g.collections.iter().map(|c| c.path.as_str()).collect();
    assert_eq!(order, vec!["Newest", "Middle", "Older"]);
}

#[test]
fn directories_without_a_descriptor_are_skipped() {
    let dirs = vec![
        candidate("Kept", "2021-01-01"),
        CandidateDir {
            name: "Scratch".to_string(),
            entries: vec![file("gallery/Scratch", "Pile.jpg")],
            descriptor: None,
        },
    ];
    let g = Gallery::from_path(&dirs).unwrap();
    assert_eq!(g.collections.len(), 1);
    assert_eq!(g.collections[0].path, "Kept");
}

#[test]
fn the_first_bad_descriptor_fails_the_gallery() {
    let dirs = vec![
        candidate("Fine", "2021-01-01"),
        candidate("Broken", "not a date"),
    ];
    let r = Gallery::from_path(&dirs);
    assert!(matches!(r, Err(GalleryError::MetadataParseError { .. })));
}

#[test]
fn rebuilding_unchanged_input_gives_the_same_gallery() {
    let dirs = vec![
        candidate("Older", "2019-05-01"),
        candidate("Newest", "2022-03-14"),
    ];
    let g1 = Gallery::from_path(&dirs).unwrap();
    let g2 = Gallery::from_path(&dirs).unwrap();
    let order1: Vec<&str> = g1.collections.iter().map(|c| c.path.as_str()).collect();
    let order2: Vec<&str> = g2.collections.iter().map(|c| c.path.as_str()).collect();
    assert_eq!(order1, order2);
    for (a, b) in g1.collections.iter().zip(g2.collections.iter()) {
        assert_eq!(a.title, b.title);
        assert_eq!(a.date, b.date);
        let na: Vec<&str> = a.images.iter().map(|i| i.name.as_str()).collect();
        let nb: Vec<&str> = b.images.iter().map(|i| i.name.as_str()).collect();
        assert_eq!(na, nb);
    }
}
