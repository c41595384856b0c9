//! Thumbnail planning and staleness.

use gallerygen::model::Collection;
use gallerygen::model::Date;
use gallerygen::model::Image;
use gallerygen::output::Config;
use gallerygen::output::thumbnail::ThumbStatus;
use gallerygen::output::thumbnail::needs_update;
use gallerygen::output::thumbnail::render_thumbnail;
use gallerygen::output::thumbnail::render_thumbnails;

fn config() -> Config {
    Config {
        input_path: "gallery".to_string(),
        output_path: "out".to_string(),
        resources_path: "res".to_string(),
    }
}

fn collection_with(images: Vec<Image>) -> Collection {
    Collection {
        path: "Fuji, Japan".to_string(),
        title: "Fuji, Japan".to_string(),
        date: Date { year: 2021, month: 1, day: 1 },
        images,
        feat: Vec::new(),
    }
}

fn image(name: &str) -> Image {
    Image::new(name.to_string(), format!("gallery/Fuji, Japan/{}", name)).unwrap()
}

#[test]
fn a_missing_thumbnail_needs_one() {
    let st = ThumbStatus { output_exists: false, output_modified: None, source_modified: None };
    assert!(needs_update(&st));
}

#[test]
fn an_up_to_date_thumbnail_needs_none() {
    let st = ThumbStatus {
        output_exists: true,
        output_modified: Some(200),
        source_modified: Some(100),
    };
    assert!(!needs_update(&st));
    let equal = ThumbStatus {
        output_exists: true,
        output_modified: Some(100),
        source_modified: Some(100),
    };
    assert!(!needs_update(&equal));
}

#[test]
fn a_stale_thumbnail_needs_one() {
    let st = ThumbStatus {
        output_exists: true,
        output_modified: Some(100),
        source_modified: Some(200),
    };
    assert!(needs_update(&st));
}

#[test]
fn unreadable_modification_times_fail_open() {
    let st = ThumbStatus {
        output_exists: true,
        output_modified: None,
        source_modified: Some(100),
    };
    assert!(needs_update(&st));
    let st = ThumbStatus {
        output_exists: true,
        output_modified: Some(100),
        source_modified: None,
    };
    assert!(needs_update(&st));
}

#[test]
fn a_planned_job_names_source_and_thumbnail() {
    let coll = collection_with(vec![image("Summit.webp")]);
    let st = ThumbStatus { output_exists: false, output_modified: None, source_modified: None };
    let job = render_thumbnail(&coll.images[0], &coll, &config(), &st).unwrap();
    assert_eq!(job.input_path, "gallery/Fuji, Japan/Summit.webp");
    assert_eq!(job.output_path, "out/data/thumbnails/fuji-japan/summit.jpg");
}

#[test]
fn a_fresh_thumbnail_is_not_planned() {
    let coll = collection_with(vec![image("Summit.webp")]);
    let st = ThumbStatus {
        output_exists: true,
        output_modified: Some(2),
        source_modified: Some(1),
    };
    assert!(render_thumbnail(&coll.images[0], &coll, &config(), &st).is_none());
}

#[test]
fn the_plan_holds_exactly_the_stale_images_in_order() {
    let coll = collection_with(vec![
        image("A.webp"),
        image("B.webp"),
        image("C.webp"),
    ]);
    let statuses = vec![
        ThumbStatus { output_exists: false, output_modified: None, source_modified: None },
        ThumbStatus { output_exists: true, output_modified: Some(5), source_modified: Some(3) },
        ThumbStatus { output_exists: true, output_modified: Some(3), source_modified: Some(5) },
    ];
    let plan = render_thumbnails(&coll, &config(), &statuses).unwrap();
    let outputs: Vec<&str> = plan.iter().map(|t| t.output_path.as_str()).collect();
    assert_eq!(
        outputs,
        vec![
            "out/data/thumbnails/fuji-japan/a.jpg",
            "out/data/thumbnails/fuji-japan/c.jpg",
        ]
    );
}

#[test]
fn a_second_run_over_unchanged_inputs_plans_nothing() {
    let coll = collection_with(vec![image("A.webp"), image("B.webp")]);
    // After the first run every thumbnail exists and is newer than its
    // source, so the second run has an empty plan.
    let statuses = vec![
        ThumbStatus { output_exists: true, output_modified: Some(10), source_modified: Some(4) },
        ThumbStatus { output_exists: true, output_modified: Some(10), source_modified: Some(4) },
    ];
    let plan = render_thumbnails(&coll, &config(), &statuses).unwrap();
    assert!(plan.is_empty());
}
