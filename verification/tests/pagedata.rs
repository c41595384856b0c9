//! The data projections pages are rendered from, and page paths.

use gallerygen::model::Collection;
use gallerygen::model::Date;
use gallerygen::model::Gallery;
use gallerygen::model::Image;
use gallerygen::output::Config;
use gallerygen::output::album_file_path;
use gallerygen::output::descriptor_source_path;
use gallerygen::output::html::CollectionData;
use gallerygen::output::html::GalleryData;
use gallerygen::output::html::HTMLFile;
use gallerygen::output::html::ImageData;
use gallerygen::output::html::collections_page_path;
use gallerygen::output::html::gallery_page_path;

fn config() -> Config {
    Config {
        input_path: "gallery".to_string(),
        output_path: "out".to_string(),
        resources_path: "res".to_string(),
    }
}

fn image(name: &str) -> Image {
    Image::new(name.to_string(), format!("gallery/Fuji, Japan/{}", name)).unwrap()
}

fn collection(feat: &[&str], images: Vec<Image>) -> Collection {
    Collection {
        path: "Fuji, Japan".to_string(),
        title: "Fuji, Japan".to_string(),
        date: Date { year: 2021, month: 1, day: 1 },
        images,
        feat: feat.iter().map(|s| s.to_string()).collect(),
    }
}

#[test]
fn image_data_carries_urls_name_and_anchor() {
    let coll = collection(&[], vec![image("My Summit.webp")]);
    let d = ImageData::from_image(&coll.images[0], &coll).unwrap();
    assert_eq!(d.file_name, "my-summit.webp");
    assert_eq!(d.name, "My Summit");
    assert_eq!(d.thumbnail, "data/thumbnails/fuji-japan/my-summit.jpg");
    assert_eq!(d.anchor, "my-summit");
    assert_eq!(d.collection, "Fuji, Japan");
}

#[test]
fn the_overview_holds_exactly_the_featured_images() {
    let first = collection(&["Summit"], vec![image("Summit.webp"), image("Valley.webp")]);
    let second = Collection {
        path: "Alps".to_string(),
        title: "Alps".to_string(),
        date: Date { year: 2020, month: 6, day: 15 },
        images: vec![
            Image::new("Peak.jpg".to_string(), "gallery/Alps/Peak.jpg".to_string()).unwrap(),
        ],
        feat: vec!["Peak".to_string()],
    };
    let gallery = Gallery { collections: vec![first, second] };
    let data = GalleryData::from_gallery(&gallery).unwrap();
    let names: Vec<&str> = data.featured_images.iter().map(|d| d.name.as_str()).collect();
    assert_eq!(names, vec!["Summit", "Peak"]);
}

#[test]
fn a_featured_name_without_an_image_is_ignored() {
    let coll = collection(&["Nowhere"], vec![image("Summit.webp")]);
    let gallery = Gallery { collections: vec![coll] };
    let data = GalleryData::from_gallery(&gallery).unwrap();
    assert!(data.featured_images.is_empty());
}

#[test]
fn collection_data_carries_every_image_and_the_iso_date() {
    let coll = collection(&[], vec![image("Summit.webp"), image("Valley.webp")]);
    let d = CollectionData::from_collection(&coll).unwrap();
    assert_eq!(d.path, "Fuji, Japan");
    assert_eq!(d.title, "Fuji, Japan");
    assert_eq!(d.date, "2021-01-01");
    assert_eq!(d.url, "fuji-japan");
    let names: Vec<&str> = d.images.iter().map(|i| i.name.as_str()).collect();
    assert_eq!(names, vec!["Summit", "Valley"]);
}

#[test]
fn page_and_copy_paths_are_laid_out_under_the_output_root() {
    let cfg = config();
    assert_eq!(gallery_page_path(&cfg), "out/gallery.html");
    assert_eq!(collections_page_path(&cfg), "out/collections.html");
    let coll = collection(&[], Vec::new());
    assert_eq!(coll.page_path(&cfg).unwrap(), "out/collection/fuji-japan.html");
    assert_eq!(
        album_file_path(&cfg, &coll, &"Summit.webp".to_string()).unwrap(),
        "out/data/albums/fuji-japan/Summit.webp"
    );
    assert_eq!(
        descriptor_source_path(&cfg, &coll),
        "gallery/Fuji, Japan/collection-info.zm"
    );
}

#[test]
fn an_html_file_pairs_content_with_its_path() {
    let f = HTMLFile::new("<html></html>".to_string(), "out/gallery.html".to_string());
    assert_eq!(f.content, "<html></html>");
    assert_eq!(f.output_path, "out/gallery.html");
}
