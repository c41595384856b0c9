//! Web-path derivation: slugs, extensions and path shape.

use gallerygen::error::GalleryError;
use gallerygen::output::html::url_to_string;
use gallerygen::webpath::to_web_path;

#[test]
fn simple_segment_is_identity_up_to_case() {
    assert_eq!(to_web_path("Photos").unwrap(), "photos");
    assert_eq!(to_web_path("My-Trip-2021").unwrap(), "my-trip-2021");
    assert_eq!(to_web_path("already-a-slug").unwrap(), "already-a-slug");
}

#[test]
fn multi_component_fails_with_invalid_path_shape() {
    assert_eq!(
        to_web_path("a/b"),
        Err(GalleryError::InvalidPathShape { path: "a/b".to_string() })
    );
    assert_eq!(
        to_web_path("one/two/three"),
        Err(GalleryError::InvalidPathShape { path: "one/two/three".to_string() })
    );
    assert_eq!(
        to_web_path(""),
        Err(GalleryError::InvalidPathShape { path: String::new() })
    );
}

#[test]
fn extension_is_preserved_verbatim() {
    assert_eq!(to_web_path("Valley.webp").unwrap(), "valley.webp");
    assert_eq!(to_web_path("My Photo.JPEG").unwrap(), "my-photo.JPEG");
    assert_eq!(to_web_path("Fuji, Japan.png").unwrap(), "fuji-japan.png");
}

#[test]
fn only_the_stem_is_slugified() {
    // The last dot splits stem from extension; earlier dots belong to the
    // stem and are slugified away.
    assert_eq!(to_web_path("a.b.c").unwrap(), "a-b.c");
}

#[test]
fn slugify_transliterates_and_collapses() {
    assert_eq!(to_web_path("You & Me").unwrap(), "you-me");
    assert_eq!(to_web_path("Æúű--cool?").unwrap(), "aeuu-cool");
    // Adjacent hyphens collapse, so a doubled hyphen is not kept verbatim.
    assert_eq!(to_web_path("a--b").unwrap(), "a-b");
}

#[test]
fn url_components_join_with_slashes() {
    let parts: Vec<String> = vec![
        "data".to_string(),
        "thumbnails".to_string(),
        "fuji-japan".to_string(),
        "summit.jpg".to_string(),
    ];
    assert_eq!(url_to_string(&parts), "data/thumbnails/fuji-japan/summit.jpg");
    let one: Vec<String> = vec!["gallery.html".to_string()];
    assert_eq!(url_to_string(&one), "gallery.html");
    let none: Vec<String> = Vec::new();
    assert_eq!(url_to_string(&none), "");
}
