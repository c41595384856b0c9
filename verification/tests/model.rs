//! Dates, images and their URL derivations.

use gallerygen::error::GalleryError;
use gallerygen::model::Collection;
use gallerygen::model::Date;
use gallerygen::model::Image;

fn collection(path: &str) -> Collection {
    Collection {
        path: path.to_string(),
        title: "A title".to_string(),
        date: Date { year: 2021, month: 1, day: 1 },
        images: Vec::new(),
        feat: Vec::new(),
    }
}

#[test]
fn date_parses_iso_text() {
    assert_eq!(
        Date::parse("2021-01-01").unwrap(),
        Date { year: 2021, month: 1, day: 1 }
    );
    assert_eq!(
        Date::parse("1999-12-31").unwrap(),
        Date { year: 1999, month: 12, day: 31 }
    );
}

#[test]
fn date_rejects_malformed_text() {
    assert!(matches!(
        Date::parse("2021-1-1"),
        Err(GalleryError::MetadataParseError { .. })
    ));
    assert!(matches!(
        Date::parse("yesterday"),
        Err(GalleryError::MetadataParseError { .. })
    ));
    assert!(matches!(
        Date::parse("2021-13-01"),
        Err(GalleryError::MetadataParseError { .. })
    ));
    assert!(matches!(
        Date::parse("2021-00-10"),
        Err(GalleryError::MetadataParseError { .. })
    ));
    assert!(matches!(
        Date::parse("2021-04-31"),
        Err(GalleryError::MetadataParseError { .. })
    ));
}

#[test]
fn date_knows_leap_years() {
    assert_eq!(
        Date::parse("2020-02-29").unwrap(),
        Date { year: 2020, month: 2, day: 29 }
    );
    assert!(matches!(
        Date::parse("2021-02-29"),
        Err(GalleryError::MetadataParseError { .. })
    ));
    // A century year is a leap year only every fourth century.
    assert!(matches!(
        Date::parse("1900-02-29"),
        Err(GalleryError::MetadataParseError { .. })
    ));
    assert_eq!(
        Date::parse("2000-02-29").unwrap(),
        Date { year: 2000, month: 2, day: 29 }
    );
}

#[test]
fn date_formats_back_to_iso() {
    let d = Date::parse("2021-01-01").unwrap();
    assert_eq!(d.iso_string(), "2021-01-01");
    let d = Date::parse("0987-11-30").unwrap();
    assert_eq!(d.iso_string(), "0987-11-30");
}

#[test]
fn image_name_is_the_file_stem() {
    let img = Image::new("Summit.webp".to_string(), "gallery/Fuji/Summit.webp".to_string())
        .unwrap();
    assert_eq!(img.name, "Summit");
    assert_eq!(img.file_name, "Summit.webp");
    assert_eq!(img.path, "gallery/Fuji/Summit.webp");
}

#[test]
fn image_name_keeps_a_leading_dot_and_later_stems() {
    let img = Image::new(".hidden".to_string(), "g/.hidden".to_string()).unwrap();
    assert_eq!(img.name, ".hidden");
    let img = Image::new("a.tar.gz".to_string(), "g/a.tar.gz".to_string()).unwrap();
    assert_eq!(img.name, "a.tar");
}

#[test]
fn image_without_characters_has_no_stem() {
    assert!(matches!(
        Image::new(String::new(), "g/x".to_string()),
        Err(GalleryError::StemDecodeError { .. })
    ));
}

#[test]
fn image_url_file_name_is_its_web_path() {
    let img = Image::new("My Summit.webp".to_string(), "g/c/My Summit.webp".to_string())
        .unwrap();
    assert_eq!(img.url_file_name().unwrap(), "my-summit.webp");
}

#[test]
fn thumbnail_url_forces_jpg_under_the_thumbnails_root() {
    let coll = collection("Fuji, Japan");
    let img = Image::new("Summit.webp".to_string(), "g/Fuji, Japan/Summit.webp".to_string())
        .unwrap();
    let url = img.thumbnail_url(&coll).unwrap();
    assert_eq!(url, vec!["data", "thumbnails", "fuji-japan", "summit.jpg"]);
}

#[test]
fn collection_url_is_its_slug() {
    let coll = collection("Fuji, Japan");
    assert_eq!(coll.url().unwrap(), "fuji-japan");
    let bad = collection("a/b");
    assert_eq!(
        bad.url(),
        Err(GalleryError::InvalidPathShape { path: "a/b".to_string() })
    );
}
