//! The data behind the HTML pages of the gallery.
//!
//! Templates are rendered outside the library; what is verified here is the
//! projection of the model into the exact values every page is rendered
//! from, and the paths the pages are written to.

use vstd::prelude::*;

verus! {

use crate::error::GalleryError;
use crate::model::Collection;
use crate::model::CollectionV;
use crate::model::Gallery;
use crate::model::Image;
use crate::model::ImageV;
use crate::model::collection_v_wf;
use crate::model::image_v_wf;
use crate::model::iso_seq;
use crate::model::thumbnail_url_of;
use crate::output::Config;
use crate::text::is_single_component;
use crate::text::join_slash;
use crate::text::lemma_join_slash_push;
use crate::text::path_join;
use crate::text::str_eq;
use crate::text::with_extension;
use crate::text::with_extension_exec;
use crate::webpath::slug_of;
use crate::webpath::slugify;
use crate::webpath::to_web_path;
use crate::webpath::web_path_of;

/// One HTML page, rendered and ready to be written.
#[derive(Debug)]
pub struct HTMLFile {
    /// The page's text.
    pub content: String,
    /// Where the page is written to.
    pub output_path: String,
}

/// The mathematical content of an [`HTMLFile`].
#[verifier::ext_equal]
pub struct HTMLFileV {
    pub content: Seq<char>,
    pub output_path: Seq<char>,
}

impl View for HTMLFile {
    type V = HTMLFileV;

    open spec fn view(&self) -> HTMLFileV {
        HTMLFileV { content: self.content@, output_path: self.output_path@ }
    }
}

impl HTMLFile {
    /// Pairs rendered page text with the path it belongs at.
    pub fn new(content: String, output_path: String) -> (r: HTMLFile)
        ensures
            r@.content == content@,
            r@.output_path == output_path@,
    {
        HTMLFile { content, output_path }
    }
}

/// Converts a URL from component form into a string, the components joined
/// by slashes.
pub fn url_to_string(url: &Vec<String>) -> (r: String)
    ensures
        r@ == join_slash(url.deep_view()),
{
    let ghost parts = url.deep_view();
    if url.len() == 0 {
        proof {
            assert(join_slash(parts) =~= Seq::<char>::empty());
        }
        return String::new();
    }
    let mut r = url[0].clone();
    proof {
        assert(parts.take(1) =~= seq![parts[0]]);
    }
    let mut i: usize = 1;
    while i < url.len()
        invariant
            1 <= i <= url@.len(),
            parts == url.deep_view(),
            parts.len() == url@.len(),
            r@ == join_slash(parts.take(i as int)),
        decreases url@.len() - i,
    {
        let r2 = path_join(r.as_str(), url[i].as_str());
        r = r2;
        proof {
            assert(parts.take(i as int + 1) =~= parts.take(i as int).push(parts[i as int]));
            lemma_join_slash_push(parts.take(i as int), parts[i as int]);
            assert(url.deep_view()[i as int] == url@[i as int]@);
        }
        i = i + 1;
    }
    proof {
        assert(parts.take(parts.len() as int) =~= parts);
    }
    r
}

/// What one image looks like to a template.
#[derive(Debug)]
pub struct ImageData {
    /// The image's URL within its collection.
    pub file_name: String,
    /// The user-visible name.
    pub name: String,
    /// The thumbnail's URL relative to the output root.
    pub thumbnail: String,
    /// The page anchor of the image: its name, slugified.
    pub anchor: String,
    /// The path of the collection the image belongs to.
    pub collection: String,
}

/// The mathematical content of an [`ImageData`].
#[verifier::ext_equal]
pub struct ImageDataV {
    pub file_name: Seq<char>,
    pub name: Seq<char>,
    pub thumbnail: Seq<char>,
    pub anchor: Seq<char>,
    pub collection: Seq<char>,
}

impl View for ImageData {
    type V = ImageDataV;

    open spec fn view(&self) -> ImageDataV {
        ImageDataV {
            file_name: self.file_name@,
            name: self.name@,
            thumbnail: self.thumbnail@,
            anchor: self.anchor@,
            collection: self.collection@,
        }
    }
}

/// The template data of one image of one collection.
pub open spec fn image_data_of(img: ImageV, coll: CollectionV) -> ImageDataV {
    ImageDataV {
        file_name: web_path_of(img.file_name),
        name: img.name,
        thumbnail: join_slash(thumbnail_url_of(img.file_name, coll.path)),
        anchor: slug_of(img.name),
        collection: coll.path,
    }
}

impl ImageData {
    /// Projects one image of a collection into its template data.
    pub fn from_image(image: &Image, collection: &Collection) -> (r: Result<
        ImageData,
        GalleryError,
    >)
        requires
            image_v_wf(image@),
            is_single_component(collection@.path),
        ensures
            r matches Ok(d) && d@ == image_data_of(image@, collection@),
    {
        let file_name = match image.url_file_name() {
            Ok(t) => t,
            Err(e) => {
                proof {
                    assert(false);
                }
                return Err(e);
            },
        };
        let thumb_parts = match image.thumbnail_url(collection) {
            Ok(v) => v,
            Err(e) => {
                proof {
                    assert(false);
                }
                return Err(e);
            },
        };
        let thumbnail = url_to_string(&thumb_parts);
        let anchor = slugify(image.name.as_str());
        let data = ImageData {
            file_name,
            name: image.name.clone(),
            thumbnail,
            anchor,
            collection: collection.path.clone(),
        };
        proof {
            assert(data@ =~= image_data_of(image@, collection@));
        }
        Ok(data)
    }
}

/// What the gallery overview page is rendered from: the featured images of
/// every collection.
#[derive(Debug)]
pub struct GalleryData {
    /// Every featured image, collections in gallery order, images in
    /// collection order.
    pub featured_images: Vec<ImageData>,
}

impl View for GalleryData {
    type V = Seq<ImageDataV>;

    open spec fn view(&self) -> Seq<ImageDataV> {
        self.featured_images@.map_values(|d: ImageData| d@)
    }
}

/// The featured images of one collection: those whose name stands in the
/// collection's featured list, in image order.
pub open spec fn featured_in(c: CollectionV) -> Seq<ImageDataV> {
    c.images.filter_map(
        |iv: ImageV|
            if c.feat.contains(iv.name) {
                Some(image_data_of(iv, c))
            } else {
                None
            },
    )
}

/// The featured images of a gallery, collection by collection.
pub open spec fn featured_of(colls: Seq<CollectionV>) -> Seq<ImageDataV>
    decreases colls.len(),
{
    if colls.len() == 0 {
        Seq::empty()
    } else {
        featured_of(colls.drop_last()) + featured_in(colls.last())
    }
}

/// Whether `name` stands in the featured list.
fn contains_name(feat: &Vec<String>, name: &String) -> (r: bool)
    ensures
        r == feat.deep_view().contains(name@),
{
    let mut i: usize = 0;
    while i < feat.len()
        invariant
            i <= feat@.len(),
            feat.deep_view().len() == feat@.len(),
            forall|j: int| 0 <= j < i ==> feat.deep_view()[j] != name@,
        decreases feat@.len() - i,
    {
        if str_eq(feat[i].as_str(), name.as_str()) {
            proof {
                assert(feat.deep_view()[i as int] == name@);
            }
            return true;
        }
        proof {
            assert(feat.deep_view()[i as int] == feat@[i as int]@);
        }
        i = i + 1;
    }
    proof {
        if feat.deep_view().contains(name@) {
            let j = choose|j: int|
                0 <= j < feat.deep_view().len() && feat.deep_view()[j] == name@;
        }
    }
    false
}

impl GalleryData {
    /// Projects the gallery into the overview page's data: every featured
    /// image of every collection, in order.
    pub fn from_gallery(gallery: &Gallery) -> (r: Result<GalleryData, GalleryError>)
        requires
            gallery.wf(),
        ensures
            r matches Ok(gd) && gd@ == featured_of(gallery@),
    {
        let ghost gvs = gallery@;
        let mut featured: Vec<ImageData> = Vec::new();
        proof {
            assert(featured@.map_values(|d: ImageData| d@) =~= Seq::<ImageDataV>::empty());
            assert(featured_of(gvs.take(0)) =~= Seq::<ImageDataV>::empty());
        }
        let mut k: usize = 0;
        while k < gallery.collections.len()
            invariant
                k <= gallery.collections@.len(),
                gvs == gallery@,
                gvs.len() == gallery.collections@.len(),
                gallery.wf(),
                featured@.map_values(|d: ImageData| d@) == featured_of(gvs.take(k as int)),
            decreases gallery.collections@.len() - k,
        {
            let coll = &gallery.collections[k];
            let ghost cv = coll@;
            let ghost pick = |iv: ImageV|
                if cv.feat.contains(iv.name) {
                    Some(image_data_of(iv, cv))
                } else {
                    None
                };
            proof {
                assert(cv == gvs[k as int]);
                assert(collection_v_wf(cv));
                assert(cv.images.take(0).filter_map(pick) =~= Seq::<ImageDataV>::empty());
            }
            let mut j: usize = 0;
            while j < coll.images.len()
                invariant
                    j <= coll.images@.len(),
                    cv == coll@,
                    collection_v_wf(cv),
                    cv.images.len() == coll.images@.len(),
                    pick == (|iv: ImageV|
                        if cv.feat.contains(iv.name) {
                            Some(image_data_of(iv, cv))
                        } else {
                            None
                        }),
                    featured@.map_values(|d: ImageData| d@) == featured_of(gvs.take(k as int))
                        + cv.images.take(j as int).filter_map(pick),
                decreases coll.images@.len() - j,
            {
                let ghost pre = featured@.map_values(|d: ImageData| d@);
                let img = &coll.images[j];
                proof {
                    assert(img@ == cv.images[j as int]);
                    assert(image_v_wf(img@));
                }
                if contains_name(&coll.feat, &img.name) {
                    let data = match ImageData::from_image(img, coll) {
                        Ok(d) => d,
                        Err(e) => {
                            proof {
                                assert(false);
                            }
                            return Err(e);
                        },
                    };
                    featured.push(data);
                    proof {
                        assert(featured@.map_values(|d: ImageData| d@) =~= pre.push(data@));
                    }
                }
                proof {
                    cv.images.lemma_filter_map_take_succ(pick, j as int);
                    assert(featured@.map_values(|d: ImageData| d@) =~= featured_of(
                        gvs.take(k as int),
                    ) + cv.images.take(j as int + 1).filter_map(pick));
                }
                j = j + 1;
            }
            proof {
                assert(cv.images.take(cv.images.len() as int) =~= cv.images);
                assert(gvs.take(k as int + 1).drop_last() =~= gvs.take(k as int));
                assert(gvs.take(k as int + 1).last() == cv);
                assert(featured_of(gvs.take(k as int + 1)) == featured_of(gvs.take(k as int))
                    + featured_in(cv));
            }
            k = k + 1;
        }
        proof {
            assert(gvs.take(gvs.len() as int) =~= gvs);
        }
        Ok(GalleryData { featured_images: featured })
    }
}

/// What one collection looks like to a template.
#[derive(Debug)]
pub struct CollectionData {
    /// The collection's directory path.
    pub path: String,
    /// The user-visible title.
    pub title: String,
    /// The date, written in ISO form.
    pub date: String,
    /// The images, in collection order.
    pub images: Vec<ImageData>,
    /// The collection's URL.
    pub url: String,
}

/// The mathematical content of a [`CollectionData`].
#[verifier::ext_equal]
pub struct CollectionDataV {
    pub path: Seq<char>,
    pub title: Seq<char>,
    pub date: Seq<char>,
    pub images: Seq<ImageDataV>,
    pub url: Seq<char>,
}

impl View for CollectionData {
    type V = CollectionDataV;

    open spec fn view(&self) -> CollectionDataV {
        CollectionDataV {
            path: self.path@,
            title: self.title@,
            date: self.date@,
            images: self.images@.map_values(|d: ImageData| d@),
            url: self.url@,
        }
    }
}

/// The template data of one collection.
pub open spec fn collection_data_of(c: CollectionV) -> CollectionDataV {
    CollectionDataV {
        path: c.path,
        title: c.title,
        date: iso_seq(c.date),
        images: c.images.map_values(|iv: ImageV| image_data_of(iv, c)),
        url: web_path_of(c.path),
    }
}

impl CollectionData {
    /// Projects one collection into its template data.
    pub fn from_collection(collection: &Collection) -> (r: Result<CollectionData, GalleryError>)
        requires
            collection.wf(),
        ensures
            r matches Ok(cd) && cd@ == collection_data_of(collection@),
    {
        let ghost cv = collection@;
        let url = match collection.url() {
            Ok(t) => t,
            Err(e) => {
                proof {
                    assert(false);
                }
                return Err(e);
            },
        };
        let date = collection.date.iso_string();
        let mut images: Vec<ImageData> = Vec::new();
        proof {
            assert(images@.map_values(|d: ImageData| d@) =~= Seq::<ImageDataV>::empty());
        }
        let mut j: usize = 0;
        while j < collection.images.len()
            invariant
                j <= collection.images@.len(),
                cv == collection@,
                collection_v_wf(cv),
                cv.images.len() == collection.images@.len(),
                images@.map_values(|d: ImageData| d@) == cv.images.take(j as int).map_values(
                    |iv: ImageV| image_data_of(iv, cv),
                ),
            decreases collection.images@.len() - j,
        {
            let ghost pre = images@.map_values(|d: ImageData| d@);
            let img = &collection.images[j];
            proof {
                assert(img@ == cv.images[j as int]);
                assert(image_v_wf(img@));
            }
            let data = match ImageData::from_image(img, collection) {
                Ok(d) => d,
                Err(e) => {
                    proof {
                        assert(false);
                    }
                    return Err(e);
                },
            };
            images.push(data);
            proof {
                assert(images@.map_values(|d: ImageData| d@) =~= pre.push(data@));
                assert(images@.map_values(|d: ImageData| d@) =~= cv.images.take(
                    j as int + 1,
                ).map_values(|iv: ImageV| image_data_of(iv, cv)));
            }
            j = j + 1;
        }
        proof {
            assert(cv.images.take(cv.images.len() as int) =~= cv.images);
        }
        let data = CollectionData {
            path: collection.path.clone(),
            title: collection.title.clone(),
            date,
            images,
            url,
        };
        proof {
            assert(data@ =~= collection_data_of(cv));
        }
        Ok(data)
    }
}

/// Where the gallery overview page is written.
pub fn gallery_page_path(config: &Config) -> (r: String)
    ensures
        r@ == config.output_path@ + seq!['/'] + "gallery.html"@,
{
    path_join(config.output_path.as_str(), "gallery.html")
}

/// Where the collections index page is written.
pub fn collections_page_path(config: &Config) -> (r: String)
    ensures
        r@ == config.output_path@ + seq!['/'] + "collections.html"@,
{
    path_join(config.output_path.as_str(), "collections.html")
}

impl Collection {
    /// Where this collection's page is written: under `collection/`, named by
    /// the collection's slug with the extension forced to `html`.
    pub fn page_path(&self, config: &Config) -> (r: Result<String, GalleryError>)
        ensures
            match r {
                Ok(t) => {
                    &&& is_single_component(self.path@)
                    &&& t@ == config.output_path@ + seq!['/'] + "collection"@ + seq!['/']
                        + with_extension(web_path_of(self.path@), "html"@)
                },
                Err(e) => {
                    &&& !is_single_component(self.path@)
                    &&& e matches GalleryError::InvalidPathShape { path: p } && p@ == self.path@
                },
            },
    {
        let slug = match to_web_path(self.path.as_str()) {
            Ok(t) => t,
            Err(e) => {
                return Err(e);
            },
        };
        let name = with_extension_exec(slug.as_str(), "html");
        let dir = path_join(config.output_path.as_str(), "collection");
        let r = path_join(dir.as_str(), name.as_str());
        proof {
            assert(r@ =~= config.output_path@ + seq!['/'] + "collection"@ + seq!['/']
                + with_extension(web_path_of(self.path@), "html"@));
        }
        Ok(r)
    }
}

} // verus!
