//! Building the gallery model from a scanned directory tree.
//!
//! The filesystem is read outside the library; what arrives here is one
//! [`CandidateDir`] per top-level directory: its name, its entries, and its
//! metadata descriptor when one was present.  This module classifies entries,
//! builds each collection, sorts, and assembles the gallery.

use vstd::prelude::*;

verus! {

use crate::error::GalleryError;
use crate::model::Collection;
use crate::model::CollectionV;
use crate::model::Date;
use crate::model::Gallery;
use crate::model::Image;
use crate::model::ImageV;
use crate::model::collection_v_wf;
use crate::model::collections_sorted_by_date_desc;
use crate::model::image_v_wf;
use crate::model::images_sorted_by_name;
use crate::model::parse_date;
use crate::text::extension_of;
use crate::text::file_stem_of;
use crate::text::find_last_char;
use crate::text::is_single_component;
use crate::text::lemma_last_index_of;
use crate::text::lemma_lex_le_total;
use crate::text::lemma_lex_le_trans;
use crate::text::lex_le;
use crate::text::lower_seq;
use crate::text::str_eq;
use crate::text::str_eq_ignore_ascii_case;
use crate::text::str_lex_le;
use vstd::seq_lib::group_to_multiset_ensures;
use vstd::string::StrSliceExecFns;

/// One entry of a scanned directory.
#[derive(Debug)]
pub struct DirEntry {
    /// The full path of the entry.
    pub path: String,
    /// The entry's path relative to the directory it was scanned from:
    /// exactly one path component.
    pub file_name: String,
    /// Whether the entry is itself a directory.
    pub is_dir: bool,
}

/// The mathematical content of a [`DirEntry`].
#[verifier::ext_equal]
pub struct DirEntryV {
    pub path: Seq<char>,
    pub file_name: Seq<char>,
    pub is_dir: bool,
}

impl View for DirEntry {
    type V = DirEntryV;

    open spec fn view(&self) -> DirEntryV {
        DirEntryV { path: self.path@, file_name: self.file_name@, is_dir: self.is_dir }
    }
}

/// The image-file extensions a collection accepts, compared without regard
/// to ASCII letter case.
pub open spec fn is_image_extension(ext: Seq<char>) -> bool {
    ||| lower_seq(ext) == "webp"@
    ||| lower_seq(ext) == "jpeg"@
    ||| lower_seq(ext) == "png"@
    ||| lower_seq(ext) == "jpg"@
}

/// Whether an entry counts as an image: its file name has an extension on
/// the allow-list.
pub open spec fn entry_is_image(e: DirEntryV) -> bool {
    match extension_of(e.file_name) {
        Some(ext) => is_image_extension(ext),
        None => false,
    }
}

/// Whether an entry is the collection's metadata descriptor.
pub open spec fn entry_is_index(e: DirEntryV) -> bool {
    e.file_name == "collection-info.zm"@
}

/// The reserved file name that marks a directory as a collection.
pub fn index_file_name() -> (r: &'static str)
    ensures
        r@ == "collection-info.zm"@,
{
    "collection-info.zm"
}

impl DirEntry {
    /// Whether this entry is an image file, by its extension.
    pub fn is_image(&self) -> (r: bool)
        ensures
            r == entry_is_image(self@),
    {
        proof {
            lemma_last_index_of(self.file_name@, '.');
        }
        let n = self.file_name.as_str().unicode_len();
        match find_last_char(self.file_name.as_str(), '.') {
            Some(i) => {
                if i > 0 {
                    let ext = self.file_name.as_str().substring_char(i + 1, n);
                    proof {
                        reveal_strlit("webp");
                        reveal_strlit("jpeg");
                        reveal_strlit("png");
                        reveal_strlit("jpg");
                        assert(lower_seq("webp"@) =~= "webp"@);
                        assert(lower_seq("jpeg"@) =~= "jpeg"@);
                        assert(lower_seq("png"@) =~= "png"@);
                        assert(lower_seq("jpg"@) =~= "jpg"@);
                    }
                    let r = str_eq_ignore_ascii_case(ext, "webp") || str_eq_ignore_ascii_case(
                        ext,
                        "jpeg",
                    ) || str_eq_ignore_ascii_case(ext, "png") || str_eq_ignore_ascii_case(
                        ext,
                        "jpg",
                    );
                    r
                } else {
                    false
                }
            },
            None => false,
        }
    }

    /// Whether this entry is the metadata descriptor.
    pub fn is_index(&self) -> (r: bool)
        ensures
            r == entry_is_index(self@),
    {
        str_eq(self.file_name.as_str(), index_file_name())
    }
}

/// The fields of a metadata descriptor as they arrive from the deserializer,
/// before the date has been parsed.
#[derive(Debug)]
pub struct RawDescriptor {
    /// The user-visible title of the collection.
    pub title: String,
    /// The collection's date, still as text.
    pub date: String,
    /// Names of featured images.
    pub feat: Vec<String>,
}

/// The mathematical content of a [`RawDescriptor`].
#[verifier::ext_equal]
pub struct RawDescriptorV {
    pub title: Seq<char>,
    pub date: Seq<char>,
    pub feat: Seq<Seq<char>>,
}

impl View for RawDescriptor {
    type V = RawDescriptorV;

    open spec fn view(&self) -> RawDescriptorV {
        RawDescriptorV { title: self.title@, date: self.date@, feat: self.feat.deep_view() }
    }
}

/// One candidate top-level directory: its name, its scanned entries, and the
/// parsed fields of its descriptor when the scan found one.
#[derive(Debug)]
pub struct CandidateDir {
    /// The directory's name: exactly one path component.
    pub name: String,
    /// The entries of one non-recursive scan of the directory.
    pub entries: Vec<DirEntry>,
    /// The descriptor's raw fields, when the directory holds one.
    pub descriptor: Option<RawDescriptor>,
}

/// The mathematical content of a [`CandidateDir`].
#[verifier::ext_equal]
pub struct CandidateDirV {
    pub name: Seq<char>,
    pub entries: Seq<DirEntryV>,
    pub descriptor: Option<RawDescriptorV>,
}

impl View for CandidateDir {
    type V = CandidateDirV;

    open spec fn view(&self) -> CandidateDirV {
        CandidateDirV {
            name: self.name@,
            entries: self.entries@.map_values(|e: DirEntry| e@),
            descriptor: match self.descriptor {
                Some(ref d) => Some(d@),
                None => None,
            },
        }
    }
}

/// A candidate directory whose own name and whose entries' names are all
/// single path components.
pub open spec fn candidate_dir_wf(d: CandidateDirV) -> bool {
    &&& is_single_component(d.name)
    &&& forall|k: int| 0 <= k < d.entries.len() ==> is_single_component(
        (#[trigger] d.entries[k]).file_name,
    )
}

/// The image built from an image entry.
pub open spec fn image_of_entry(e: DirEntryV) -> ImageV {
    ImageV { name: file_stem_of(e.file_name), path: e.path, file_name: e.file_name }
}

/// The images of a directory's entries, in entry order: every entry that the
/// image predicate accepts, turned into an image.
pub open spec fn images_of_entries(entries: Seq<DirEntryV>) -> Seq<ImageV> {
    entries.filter_map(
        |e: DirEntryV|
            if entry_is_image(e) {
                Some(image_of_entry(e))
            } else {
                None
            },
    )
}

impl Image {
    /// Builds the image of an image entry.
    pub fn from(d: &DirEntry) -> (r: Result<Image, GalleryError>)
        ensures
            match r {
                Ok(img) => d.file_name@.len() > 0 && img@ == image_of_entry(d@),
                Err(e) => {
                    &&& d.file_name@.len() == 0
                    &&& e matches GalleryError::StemDecodeError { path: p } && p@ == d.file_name@
                },
            },
    {
        let r = Image::new(d.file_name.clone(), d.path.clone());
        proof {
            if r is Ok {
                assert(r->Ok_0@ =~= image_of_entry(d@));
            }
        }
        r
    }
}

/// Inserts `img` into a name-sorted vector, keeping it sorted; the contents
/// grow by exactly that image.
fn insert_image_sorted(out: &mut Vec<Image>, img: Image)
    requires
        images_sorted_by_name(old(out)@.map_values(|i: Image| i@)),
    ensures
        images_sorted_by_name(final(out)@.map_values(|i: Image| i@)),
        final(out)@.map_values(|i: Image| i@).to_multiset() == old(out)@.map_values(
            |i: Image| i@,
        ).to_multiset().insert(img@),
{
    broadcast use group_to_multiset_ensures;

    let ghost ovs = out@.map_values(|i: Image| i@);
    let mut idx: usize = 0;
    loop
        invariant
            idx <= out@.len(),
            out@.map_values(|i: Image| i@) == ovs,
            images_sorted_by_name(ovs),
            forall|j: int| 0 <= j < idx ==> lex_le((#[trigger] ovs[j]).name, img@.name),
        ensures
            idx <= out@.len(),
            out@.map_values(|i: Image| i@) == ovs,
            forall|j: int| 0 <= j < idx ==> lex_le((#[trigger] ovs[j]).name, img@.name),
            idx < out@.len() ==> lex_le(img@.name, ovs[idx as int].name),
        decreases out@.len() - idx,
    {
        if idx >= out.len() {
            break ;
        }
        if str_lex_le(img.name.as_str(), out[idx].name.as_str()) {
            proof {
                assert(ovs[idx as int].name == out@[idx as int]@.name);
            }
            break ;
        }
        proof {
            lemma_lex_le_total(img@.name, ovs[idx as int].name);
        }
        idx = idx + 1;
    }
    out.insert(idx, img);
    proof {
        let nvs = out@.map_values(|i: Image| i@);
        assert(nvs =~= ovs.insert(idx as int, img@));
        assert(vstd::seq::Seq::to_multiset(nvs) == ovs.to_multiset().insert(img@));
        assert forall|i: int, j: int| 0 <= i < j < nvs.len() implies lex_le(
            (#[trigger] nvs[i]).name,
            (#[trigger] nvs[j]).name,
        ) by {
            let x = idx as int;
            if i < x && j < x {
                assert(nvs[i] == ovs[i] && nvs[j] == ovs[j]);
            } else if i < x && j == x {
                assert(nvs[i] == ovs[i] && nvs[j] == img@);
            } else if i < x && j > x {
                assert(nvs[i] == ovs[i] && nvs[j] == ovs[j - 1]);
                if j - 1 == i {
                    assert(lex_le(nvs[i].name, img@.name));
                    assert(lex_le(img@.name, ovs[idx as int].name));
                    lemma_lex_le_trans(nvs[i].name, img@.name, nvs[j].name);
                }
            } else if i == x && j > x {
                assert(nvs[i] == img@ && nvs[j] == ovs[j - 1]);
                assert(lex_le(img@.name, ovs[idx as int].name));
                if j - 1 > idx as int {
                    lemma_lex_le_trans(img@.name, ovs[idx as int].name, ovs[j - 1].name);
                }
            } else {
                assert(nvs[i] == ovs[i - 1] && nvs[j] == ovs[j - 1]);
            }
        }
    }
}

/// Sorts images by name, ascending; the contents are unchanged.
fn sort_images(v: Vec<Image>) -> (r: Vec<Image>)
    ensures
        images_sorted_by_name(r@.map_values(|i: Image| i@)),
        r@.map_values(|i: Image| i@).to_multiset() == v@.map_values(|i: Image| i@).to_multiset(),
{
    broadcast use group_to_multiset_ensures;
    broadcast use vstd::multiset::group_multiset_axioms;

    let ghost orig = v@.map_values(|i: Image| i@);
    let mut rest = v;
    let mut out: Vec<Image> = Vec::new();
    proof {
        assert(out@.map_values(|i: Image| i@) =~= Seq::<ImageV>::empty());
        assert(out@.map_values(|i: Image| i@).to_multiset().add(
            rest@.map_values(|i: Image| i@).to_multiset(),
        ) =~= orig.to_multiset());
    }
    loop
        invariant
            images_sorted_by_name(out@.map_values(|i: Image| i@)),
            out@.map_values(|i: Image| i@).to_multiset().add(
                rest@.map_values(|i: Image| i@).to_multiset(),
            ) == orig.to_multiset(),
        ensures
            rest@.len() == 0,
            images_sorted_by_name(out@.map_values(|i: Image| i@)),
            out@.map_values(|i: Image| i@).to_multiset().add(
                rest@.map_values(|i: Image| i@).to_multiset(),
            ) == orig.to_multiset(),
        decreases rest@.len(),
    {
        let ghost pre_rest = rest@.map_values(|i: Image| i@);
        let ghost pre_out = out@.map_values(|i: Image| i@);
        match rest.pop() {
            Some(img) => {
                proof {
                    let new_rest = rest@.map_values(|i: Image| i@);
                    assert(pre_rest =~= new_rest.push(img@));
                    vstd::seq_lib::to_multiset_build(new_rest, img@);
                }
                insert_image_sorted(&mut out, img);
                proof {
                    assert(out@.map_values(|i: Image| i@).to_multiset().add(
                        rest@.map_values(|i: Image| i@).to_multiset(),
                    ) =~= orig.to_multiset());
                }
            },
            None => {
                break ;
            },
        }
    }
    proof {
        assert(rest@.map_values(|i: Image| i@) =~= Seq::<ImageV>::empty());
        assert(out@.map_values(|i: Image| i@).to_multiset().add(
            Seq::<ImageV>::empty().to_multiset(),
        ) =~= out@.map_values(|i: Image| i@).to_multiset());
    }
    out
}

impl Collection {
    /// Builds the collection of one candidate directory from its entries and
    /// its optional descriptor.
    ///
    /// Without a descriptor the directory is no collection and is skipped
    /// without error.  With one, the descriptor's date must parse; the
    /// entries that the image predicate accepts become the collection's
    /// images, sorted by name ascending; everything else is ignored.
    pub fn from_entries(
        dir_name: &String,
        entries: &Vec<DirEntry>,
        descriptor: &Option<RawDescriptor>,
    ) -> (r: Result<Option<Collection>, GalleryError>)
        requires
            is_single_component(dir_name@),
            forall|k: int|
                0 <= k < entries@.len() ==> is_single_component(
                    (#[trigger] entries@[k]).file_name@,
                ),
        ensures
            match r {
                Ok(opt) => match opt {
                    None => (*descriptor) is None,
                    Some(c) => {
                        &&& (*descriptor) matches Some(d) && {
                            &&& parse_date(d.date@) == Some(c@.date)
                            &&& c@.title == d.title@
                            &&& c@.feat == d.feat.deep_view()
                        }
                        &&& c@.path == dir_name@
                        &&& images_sorted_by_name(c@.images)
                        &&& c@.images.to_multiset() == images_of_entries(
                            entries@.map_values(|e: DirEntry| e@),
                        ).to_multiset()
                        &&& c.wf()
                    },
                },
                Err(e) => {
                    &&& (*descriptor) matches Some(d) && parse_date(d.date@) is None
                    &&& e matches GalleryError::MetadataParseError { .. }
                },
            },
    {
        let desc: &RawDescriptor = match descriptor {
            Option::Some(d) => d,
            Option::None => {
                return Ok(None);
            },
        };
        let date = match Date::parse(desc.date.as_str()) {
            Ok(dt) => dt,
            Err(e) => {
                return Err(e);
            },
        };
        let ghost evs = entries@.map_values(|e: DirEntry| e@);
        let ghost img_of = |e: DirEntryV|
            if entry_is_image(e) {
                Some(image_of_entry(e))
            } else {
                None
            };
        let mut images: Vec<Image> = Vec::new();
        proof {
            assert(evs.take(0).filter_map(img_of) =~= Seq::<ImageV>::empty());
            assert(images@.map_values(|i: Image| i@) =~= Seq::<ImageV>::empty());
        }
        let mut k: usize = 0;
        while k < entries.len()
            invariant
                k <= entries@.len(),
                evs == entries@.map_values(|e: DirEntry| e@),
                evs.len() == entries@.len(),
                img_of == (|e: DirEntryV|
                    if entry_is_image(e) {
                        Some(image_of_entry(e))
                    } else {
                        None
                    }),
                forall|j: int|
                    0 <= j < entries@.len() ==> is_single_component(
                        (#[trigger] entries@[j]).file_name@,
                    ),
                images@.map_values(|i: Image| i@) == evs.take(k as int).filter_map(img_of),
                forall|j: int|
                    0 <= j < images@.len() ==> is_single_component(
                        (#[trigger] images@[j]).file_name@,
                    ),
            decreases entries@.len() - k,
        {
            let e = &entries[k];
            let ghost pre = images@.map_values(|i: Image| i@);
            if e.is_image() {
                let img = match Image::from(e) {
                    Ok(i) => i,
                    Err(er) => {
                        proof {
                            assert(is_single_component(entries@[k as int].file_name@));
                            assert(false);
                        }
                        return Err(er);
                    },
                };
                images.push(img);
                proof {
                    assert(images@.map_values(|i: Image| i@) =~= pre.push(img@));
                }
            }
            proof {
                evs.lemma_filter_map_take_succ(img_of, k as int);
                assert(images@.map_values(|i: Image| i@) =~= evs.take(k as int + 1).filter_map(
                    img_of,
                ));
            }
            k = k + 1;
        }
        proof {
            assert(evs.take(evs.len() as int) =~= evs);
        }
        let ghost unsorted = images@.map_values(|i: Image| i@);
        let images = sort_images(images);
        let ghost svs = images@.map_values(|i: Image| i@);
        proof {
            broadcast use group_to_multiset_ensures;

            assert forall|j: int| 0 <= j < svs.len() implies image_v_wf(#[trigger] svs[j]) by {
                let x = svs[j];
                assert(svs.contains(x));
                assert(unsorted.to_multiset().count(x) > 0);
                assert(unsorted.contains(x));
                let i = choose|i: int| 0 <= i < unsorted.len() && unsorted[i] == x;
            }
        }
        let coll = Collection {
            path: dir_name.clone(),
            title: desc.title.clone(),
            date,
            images,
            feat: desc.feat.clone(),
        };
        proof {
            assert(coll@.feat =~= desc.feat.deep_view());
            assert(coll@.images =~= svs);
        }
        Ok(Some(coll))
    }
}

/// Inserts `c` into a vector sorted by date descending, keeping it sorted;
/// the contents grow by exactly that collection.
fn insert_collection_sorted(out: &mut Vec<Collection>, c: Collection)
    requires
        collections_sorted_by_date_desc(old(out)@.map_values(|x: Collection| x@)),
    ensures
        collections_sorted_by_date_desc(final(out)@.map_values(|x: Collection| x@)),
        final(out)@.map_values(|x: Collection| x@).to_multiset() == old(out)@.map_values(
            |x: Collection| x@,
        ).to_multiset().insert(c@),
{
    broadcast use group_to_multiset_ensures;

    let ghost ovs = out@.map_values(|x: Collection| x@);
    let mut idx: usize = 0;
    loop
        invariant
            idx <= out@.len(),
            out@.map_values(|x: Collection| x@) == ovs,
            collections_sorted_by_date_desc(ovs),
            forall|j: int| 0 <= j < idx ==> c@.date.le_spec((#[trigger] ovs[j]).date),
        ensures
            idx <= out@.len(),
            out@.map_values(|x: Collection| x@) == ovs,
            forall|j: int| 0 <= j < idx ==> c@.date.le_spec((#[trigger] ovs[j]).date),
            idx < out@.len() ==> ovs[idx as int].date.le_spec(c@.date),
        decreases out@.len() - idx,
    {
        if idx >= out.len() {
            break ;
        }
        if !c.date.le(&out[idx].date) {
            proof {
                assert(ovs[idx as int].date == out@[idx as int]@.date);
            }
            break ;
        }
        idx = idx + 1;
    }
    out.insert(idx, c);
    proof {
        let nvs = out@.map_values(|x: Collection| x@);
        assert(nvs =~= ovs.insert(idx as int, c@));
        assert(vstd::seq::Seq::to_multiset(nvs) == ovs.to_multiset().insert(c@));
        assert forall|i: int, j: int| 0 <= i < j < nvs.len() implies (#[trigger] nvs[j]).date
            .le_spec((#[trigger] nvs[i]).date) by {
            let x = idx as int;
            if i < x && j < x {
                assert(nvs[i] == ovs[i] && nvs[j] == ovs[j]);
            } else if i < x && j == x {
                assert(nvs[i] == ovs[i] && nvs[j] == c@);
            } else if i < x && j > x {
                assert(nvs[i] == ovs[i] && nvs[j] == ovs[j - 1]);
            } else if i == x && j > x {
                assert(nvs[i] == c@ && nvs[j] == ovs[j - 1]);
            } else {
                assert(nvs[i] == ovs[i - 1] && nvs[j] == ovs[j - 1]);
            }
        }
    }
}

/// Sorts collections by date, most recent first; the contents are unchanged.
fn sort_collections(v: Vec<Collection>) -> (r: Vec<Collection>)
    ensures
        collections_sorted_by_date_desc(r@.map_values(|x: Collection| x@)),
        r@.map_values(|x: Collection| x@).to_multiset() == v@.map_values(
            |x: Collection| x@,
        ).to_multiset(),
{
    broadcast use group_to_multiset_ensures;
    broadcast use vstd::multiset::group_multiset_axioms;

    let ghost orig = v@.map_values(|x: Collection| x@);
    let mut rest = v;
    let mut out: Vec<Collection> = Vec::new();
    proof {
        assert(out@.map_values(|x: Collection| x@) =~= Seq::<CollectionV>::empty());
        assert(out@.map_values(|x: Collection| x@).to_multiset().add(
            rest@.map_values(|x: Collection| x@).to_multiset(),
        ) =~= orig.to_multiset());
    }
    loop
        invariant
            collections_sorted_by_date_desc(out@.map_values(|x: Collection| x@)),
            out@.map_values(|x: Collection| x@).to_multiset().add(
                rest@.map_values(|x: Collection| x@).to_multiset(),
            ) == orig.to_multiset(),
        ensures
            rest@.len() == 0,
            collections_sorted_by_date_desc(out@.map_values(|x: Collection| x@)),
            out@.map_values(|x: Collection| x@).to_multiset().add(
                rest@.map_values(|x: Collection| x@).to_multiset(),
            ) == orig.to_multiset(),
        decreases rest@.len(),
    {
        let ghost pre_rest = rest@.map_values(|x: Collection| x@);
        match rest.pop() {
            Some(c) => {
                proof {
                    let new_rest = rest@.map_values(|x: Collection| x@);
                    assert(pre_rest =~= new_rest.push(c@));
                    vstd::seq_lib::to_multiset_build(new_rest, c@);
                }
                insert_collection_sorted(&mut out, c);
                proof {
                    assert(out@.map_values(|x: Collection| x@).to_multiset().add(
                        rest@.map_values(|x: Collection| x@).to_multiset(),
                    ) =~= orig.to_multiset());
                }
            },
            None => {
                break ;
            },
        }
    }
    proof {
        assert(rest@.map_values(|x: Collection| x@) =~= Seq::<CollectionV>::empty());
        assert(out@.map_values(|x: Collection| x@).to_multiset().add(
            Seq::<CollectionV>::empty().to_multiset(),
        ) =~= out@.map_values(|x: Collection| x@).to_multiset());
    }
    out
}

/// Law: a directory without image entries yields no images — when no entry
/// passes the image predicate, the built image list is empty, however many
/// other files the directory holds.
pub proof fn lemma_no_image_entries_no_images(entries: Seq<DirEntryV>)
    requires
        forall|i: int| 0 <= i < entries.len() ==> !entry_is_image(#[trigger] entries[i]),
    ensures
        images_of_entries(entries) == Seq::<ImageV>::empty(),
    decreases entries.len(),
{
    if entries.len() > 0 {
        assert(forall|i: int|
            0 <= i < entries.drop_last().len() ==> !entry_is_image(
                #[trigger] entries.drop_last()[i],
            ));
        lemma_no_image_entries_no_images(entries.drop_last());
        assert(!entry_is_image(entries.last()));
    }
}

/// The candidate directories that hold a descriptor, in order.
pub open spec fn kept_dirs(ds: Seq<CandidateDirV>) -> Seq<CandidateDirV> {
    ds.filter_map(
        |d: CandidateDirV|
            if d.descriptor is Some {
                Some(d)
            } else {
                None
            },
    )
}

/// What ties a built collection to the candidate directory it came from.
pub open spec fn collection_built_from(c: CollectionV, d: CandidateDirV) -> bool {
    &&& d.descriptor matches Some(desc) && {
        &&& parse_date(desc.date) == Some(c.date)
        &&& c.title == desc.title
        &&& c.feat == desc.feat
    }
    &&& c.path == d.name
    &&& images_sorted_by_name(c.images)
    &&& c.images.to_multiset() == images_of_entries(d.entries).to_multiset()
}

/// `cs` is, in order, one built collection per descriptor-bearing directory.
pub open spec fn built_list(cs: Seq<CollectionV>, ds: Seq<CandidateDirV>) -> bool {
    &&& cs.len() == kept_dirs(ds).len()
    &&& forall|i: int|
        0 <= i < cs.len() ==> collection_built_from(#[trigger] cs[i], kept_dirs(ds)[i])
}

impl Gallery {
    /// Assembles the gallery from the scan of the gallery root: one candidate
    /// per top-level directory.  Directories without a descriptor are
    /// skipped; every other directory becomes a collection; the result is
    /// sorted by date, most recent first.  The first malformed descriptor
    /// date fails the whole build.
    pub fn from_path(dirs: &Vec<CandidateDir>) -> (r: Result<Gallery, GalleryError>)
        requires
            forall|k: int| 0 <= k < dirs@.len() ==> candidate_dir_wf((#[trigger] dirs@[k])@),
        ensures
            match r {
                Ok(g) => {
                    &&& collections_sorted_by_date_desc(g@)
                    &&& g.wf()
                    &&& forall|k: int|
                        0 <= k < dirs@.len() ==> ((#[trigger] dirs@[k])@.descriptor matches Some(
                            dd,
                        ) ==> parse_date(dd.date) is Some)
                    &&& exists|cs: Seq<CollectionV>|
                        built_list(cs, dirs@.map_values(|d: CandidateDir| d@))
                            && g@.to_multiset() == #[trigger] cs.to_multiset()
                },
                Err(e) => {
                    &&& e matches GalleryError::MetadataParseError { .. }
                    &&& exists|k: int|
                        0 <= k < dirs@.len() && ((#[trigger] dirs@[k])@.descriptor matches Some(dd)
                            && parse_date(dd.date) is None)
                },
            },
    {
        let ghost dvs = dirs@.map_values(|d: CandidateDir| d@);
        let ghost keep = |d: CandidateDirV|
            if d.descriptor is Some {
                Some(d)
            } else {
                None
            };
        let mut collections: Vec<Collection> = Vec::new();
        proof {
            assert(dvs.take(0).filter_map(keep) =~= Seq::<CandidateDirV>::empty());
            assert(collections@.map_values(|c: Collection| c@) =~= Seq::<CollectionV>::empty());
        }
        let mut k: usize = 0;
        while k < dirs.len()
            invariant
                k <= dirs@.len(),
                dvs == dirs@.map_values(|d: CandidateDir| d@),
                dvs.len() == dirs@.len(),
                keep == (|d: CandidateDirV|
                    if d.descriptor is Some {
                        Some(d)
                    } else {
                        None
                    }),
                forall|j: int| 0 <= j < dirs@.len() ==> candidate_dir_wf((#[trigger] dirs@[j])@),
                collections@.map_values(|c: Collection| c@).len() == dvs.take(
                    k as int,
                ).filter_map(keep).len(),
                forall|i: int|
                    0 <= i < collections@.len() ==> collection_built_from(
                        (#[trigger] collections@[i])@,
                        dvs.take(k as int).filter_map(keep)[i],
                    ),
                forall|i: int|
                    0 <= i < collections@.len() ==> collection_v_wf((#[trigger] collections@[i])@),
                forall|j: int|
                    0 <= j < k ==> ((#[trigger] dvs[j]).descriptor matches Some(dd) ==> parse_date(
                        dd.date,
                    ) is Some),
            decreases dirs@.len() - k,
        {
            let d = &dirs[k];
            let ghost pre = collections@.map_values(|c: Collection| c@);
            proof {
                assert(candidate_dir_wf(dvs[k as int]));
                assert forall|i: int| 0 <= i < d.entries@.len() implies is_single_component(
                    (#[trigger] d.entries@[i]).file_name@,
                ) by {
                    assert(dvs[k as int].entries[i] == d.entries@[i]@);
                    assert(is_single_component(dvs[k as int].entries[i].file_name));
                }
            }
            match Collection::from_entries(&d.name, &d.entries, &d.descriptor) {
                Ok(Some(c)) => {
                    proof {
                        assert(collection_built_from(c@, dvs[k as int]));
                    }
                    collections.push(c);
                    proof {
                        assert(collections@.map_values(|c2: Collection| c2@) =~= pre.push(c@));
                    }
                },
                Ok(None) => {},
                Err(e) => {
                    proof {
                        assert(dvs[k as int].descriptor matches Some(dd) && parse_date(
                            dd.date,
                        ) is None);
                    }
                    return Err(e);
                },
            }
            proof {
                dvs.lemma_filter_map_take_succ(keep, k as int);
            }
            k = k + 1;
        }
        proof {
            assert(dvs.take(dvs.len() as int) =~= dvs);
        }
        let ghost cs = collections@.map_values(|c: Collection| c@);
        let sorted = sort_collections(collections);
        let g = Gallery { collections: sorted };
        proof {
            broadcast use group_to_multiset_ensures;

            assert(g@ == sorted@.map_values(|c: Collection| c@));
            assert(g@.to_multiset() == cs.to_multiset());
            assert(built_list(cs, dirs@.map_values(|d: CandidateDir| d@)));
            assert forall|j: int| 0 <= j < dirs@.len() implies ((#[trigger] dirs@[j])@.descriptor
                matches Some(dd) ==> parse_date(dd.date) is Some) by {
                assert(dvs[j] == dirs@[j]@);
            }
            assert forall|j: int| 0 <= j < g@.len() implies collection_v_wf(#[trigger] g@[j]) by {
                let x = g@[j];
                assert(g@.contains(x));
                assert(cs.to_multiset().count(x) > 0);
                assert(cs.contains(x));
                let i = choose|i: int| 0 <= i < cs.len() && cs[i] == x;
                assert(collection_v_wf(collections@[i]@));
            }
        }
        Ok(g)
    }
}

} // verus!
