//! Thumbnail planning: deciding, per image, whether its thumbnail is missing
//! or stale and must be regenerated.
//!
//! The filesystem facts a decision rests on — whether the thumbnail exists
//! and when source and thumbnail were last modified — arrive as plain
//! values; decoding, resizing and writing pixels happen outside the library.

use vstd::prelude::*;

verus! {

use crate::error::GalleryError;
use crate::model::Collection;
use crate::model::Image;
use crate::model::ImageV;
use crate::model::thumbnail_url_of;
use crate::output::Config;
use crate::output::html::url_to_string;
use crate::text::is_single_component;
use crate::text::join_slash;
use crate::text::path_join;

/// The filesystem facts one thumbnail decision rests on.  Modification times
/// count seconds; one that could not be read is `None`.
#[derive(Debug, Clone, Copy)]
pub struct ThumbStatus {
    /// Whether the thumbnail output file exists.
    pub output_exists: bool,
    /// When the thumbnail output was last modified.
    pub output_modified: Option<u64>,
    /// When the source image was last modified.
    pub source_modified: Option<u64>,
}

/// The staleness rule: a missing thumbnail needs one; an existing thumbnail
/// needs one exactly when the source is strictly newer; when either
/// modification time cannot be read, the decision fails open and the
/// thumbnail is regenerated.
pub open spec fn spec_needs_update(st: ThumbStatus) -> bool {
    if !st.output_exists {
        true
    } else {
        match (st.source_modified, st.output_modified) {
            (Some(src), Some(out)) => src > out,
            _ => true,
        }
    }
}

/// Whether the thumbnail described by `status` must be regenerated.
pub fn needs_update(status: &ThumbStatus) -> (r: bool)
    ensures
        r == spec_needs_update(*status),
{
    if !status.output_exists {
        return true;
    }
    match (status.source_modified, status.output_modified) {
        (Some(src), Some(out)) => src > out,
        _ => true,
    }
}

/// A single thumbnail ready to be generated and written.
#[derive(Debug)]
pub struct Thumbnail {
    /// The source image to read.
    pub input_path: String,
    /// Where the thumbnail is written to.
    pub output_path: String,
}

/// The mathematical content of a [`Thumbnail`].
#[verifier::ext_equal]
pub struct ThumbnailV {
    pub input_path: Seq<char>,
    pub output_path: Seq<char>,
}

impl View for Thumbnail {
    type V = ThumbnailV;

    open spec fn view(&self) -> ThumbnailV {
        ThumbnailV { input_path: self.input_path@, output_path: self.output_path@ }
    }
}

/// Where an image's thumbnail is written, under the output root.
pub open spec fn thumb_output_path(img: ImageV, coll_path: Seq<char>, out_root: Seq<char>) -> Seq<
    char,
> {
    out_root + seq!['/'] + join_slash(thumbnail_url_of(img.file_name, coll_path))
}

/// The job that regenerates an image's thumbnail.
pub open spec fn thumb_job_of(img: ImageV, coll_path: Seq<char>, out_root: Seq<char>) -> ThumbnailV {
    ThumbnailV {
        input_path: img.path,
        output_path: thumb_output_path(img, coll_path, out_root),
    }
}

/// Plans a single thumbnail: a job exactly when the staleness rule asks for
/// one, with the source as input and the thumbnail path as output.
pub fn render_thumbnail(image: &Image, group: &Collection, config: &Config, status: &ThumbStatus) -> (r:
    Option<Thumbnail>)
    requires
        is_single_component(image@.file_name),
        is_single_component(group@.path),
    ensures
        match r {
            Some(t) => spec_needs_update(*status) && t@ == thumb_job_of(
                image@,
                group@.path,
                config.output_path@,
            ),
            None => !spec_needs_update(*status),
        },
{
    let parts = match image.thumbnail_url(group) {
        Ok(v) => v,
        Err(_) => {
            proof {
                assert(false);
            }
            return None;
        },
    };
    let joined = url_to_string(&parts);
    let p = path_join(config.output_path.as_str(), joined.as_str());
    if !needs_update(status) {
        None
    } else {
        let t = Thumbnail { input_path: image.path.clone(), output_path: p };
        proof {
            assert(t@ =~= thumb_job_of(image@, group@.path, config.output_path@));
        }
        Some(t)
    }
}

/// The plan for a collection: for every image whose status asks for an
/// update, its job, in image order.
pub open spec fn spec_plan(
    images: Seq<ImageV>,
    statuses: Seq<ThumbStatus>,
    coll_path: Seq<char>,
    out_root: Seq<char>,
) -> Seq<ThumbnailV>
    decreases images.len(),
{
    if images.len() == 0 {
        Seq::empty()
    } else {
        let rest = spec_plan(images.drop_last(), statuses.drop_last(), coll_path, out_root);
        if spec_needs_update(statuses[images.len() - 1]) {
            rest + seq![thumb_job_of(images.last(), coll_path, out_root)]
        } else {
            rest
        }
    }
}

/// Plans a whole collection's thumbnails: exactly the stale or missing ones
/// become jobs, in image order.  `statuses[i]` describes the thumbnail of
/// the collection's `i`-th image.
pub fn render_thumbnails(image_group: &Collection, config: &Config, statuses: &Vec<ThumbStatus>) -> (r:
    Result<Vec<Thumbnail>, GalleryError>)
    requires
        image_group.wf(),
        statuses@.len() == image_group.images@.len(),
    ensures
        r matches Ok(v) && v@.map_values(|t: Thumbnail| t@) == spec_plan(
            image_group@.images,
            statuses@,
            image_group@.path,
            config.output_path@,
        ),
{
    let ghost ivs = image_group@.images;
    let mut res: Vec<Thumbnail> = Vec::new();
    proof {
        assert(res@.map_values(|t: Thumbnail| t@) =~= Seq::<ThumbnailV>::empty());
        assert(ivs.take(0) =~= Seq::<ImageV>::empty());
        assert(statuses@.take(0) =~= Seq::<ThumbStatus>::empty());
    }
    let mut k: usize = 0;
    while k < image_group.images.len()
        invariant
            k <= image_group.images@.len(),
            ivs == image_group@.images,
            ivs.len() == image_group.images@.len(),
            statuses@.len() == ivs.len(),
            image_group.wf(),
            res@.map_values(|t: Thumbnail| t@) == spec_plan(
                ivs.take(k as int),
                statuses@.take(k as int),
                image_group@.path,
                config.output_path@,
            ),
        decreases image_group.images@.len() - k,
    {
        let ghost pre = res@.map_values(|t: Thumbnail| t@);
        let img = &image_group.images[k];
        proof {
            assert(img@ == ivs[k as int]);
        }
        let status = statuses[k];
        match render_thumbnail(img, image_group, config, &status) {
            Some(t) => {
                res.push(t);
                proof {
                    assert(res@.map_values(|t2: Thumbnail| t2@) =~= pre.push(
                        thumb_job_of(ivs[k as int], image_group@.path, config.output_path@),
                    ));
                }
            },
            None => {},
        }
        proof {
            let ti = ivs.take(k as int + 1);
            let ts = statuses@.take(k as int + 1);
            assert(ti.drop_last() =~= ivs.take(k as int));
            assert(ts.drop_last() =~= statuses@.take(k as int));
            assert(ti.last() == ivs[k as int]);
            assert(ts[ti.len() - 1] == statuses@[k as int]);
            if spec_needs_update(statuses@[k as int]) {
                assert(res@.map_values(|t2: Thumbnail| t2@) =~= spec_plan(
                    ivs.take(k as int),
                    statuses@.take(k as int),
                    image_group@.path,
                    config.output_path@,
                ) + seq![thumb_job_of(ivs[k as int], image_group@.path, config.output_path@)]);
            }
        }
        k = k + 1;
    }
    proof {
        assert(ivs.take(ivs.len() as int) =~= ivs);
        assert(statuses@.take(statuses@.len() as int) =~= statuses@);
    }
    Ok(res)
}

/// Law: planning over fresh thumbnails yields no job.  When every thumbnail
/// exists, both modification times could be read, and no source is strictly
/// newer than its thumbnail, the plan is empty — so a second run over
/// unchanged inputs regenerates nothing.
pub proof fn lemma_plan_of_fresh_is_empty(
    images: Seq<ImageV>,
    statuses: Seq<ThumbStatus>,
    coll_path: Seq<char>,
    out_root: Seq<char>,
)
    requires
        statuses.len() == images.len(),
        forall|i: int| 0 <= i < statuses.len() ==> !spec_needs_update(#[trigger] statuses[i]),
    ensures
        spec_plan(images, statuses, coll_path, out_root) == Seq::<ThumbnailV>::empty(),
    decreases images.len(),
{
    if images.len() > 0 {
        lemma_plan_of_fresh_is_empty(images.drop_last(), statuses.drop_last(), coll_path, out_root);
    }
}

} // verus!
