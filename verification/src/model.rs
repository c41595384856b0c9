//! The gallery data model: dates, images, collections and the gallery, with
//! the URL derivations that pages and thumbnails are laid out by.

use vstd::prelude::*;

verus! {

use crate::error::GalleryError;
use crate::text::file_stem_of;
use crate::text::find_last_char;
use crate::text::is_single_component;
use crate::text::lex_le;
use crate::text::with_extension;
use crate::text::with_extension_exec;
use crate::webpath::to_web_path;
use crate::webpath::web_path_of;
use vstd::string::StrSliceExecFns;

/// A calendar date, used to order collections and for display.
#[derive(Debug, Clone, Copy, PartialEq, Eq, Structural)]
pub struct Date {
    pub year: u32,
    pub month: u32,
    pub day: u32,
}

/// Leap years of the Gregorian calendar.
pub open spec fn is_leap_year(y: u32) -> bool {
    y % 4 == 0 && (y % 100 != 0 || y % 400 == 0)
}

/// How many days the given month of the given year has.
pub open spec fn days_in_month(y: u32, m: u32) -> u32 {
    if m == 2 {
        if is_leap_year(y) {
            29
        } else {
            28
        }
    } else if m == 4 || m == 6 || m == 9 || m == 11 {
        30
    } else {
        31
    }
}

/// Whether `c` is an ASCII decimal digit.
pub open spec fn is_digit(c: char) -> bool {
    48 <= (c as u32) && (c as u32) <= 57
}

/// The numeric value of an ASCII decimal digit.
pub open spec fn digit_val(c: char) -> int {
    (c as u32) - 48
}

/// The digit character for a value below ten.
pub open spec fn digit_char(d: int) -> char {
    if d == 0 {
        '0'
    } else if d == 1 {
        '1'
    } else if d == 2 {
        '2'
    } else if d == 3 {
        '3'
    } else if d == 4 {
        '4'
    } else if d == 5 {
        '5'
    } else if d == 6 {
        '6'
    } else if d == 7 {
        '7'
    } else if d == 8 {
        '8'
    } else {
        '9'
    }
}

/// What parsing an ISO `year-month-day` date yields: `None` unless the text
/// has exactly that shape and names a real calendar date.
pub open spec fn parse_date(s: Seq<char>) -> Option<Date> {
    if s.len() == 10 && s[4] == '-' && s[7] == '-' && is_digit(s[0]) && is_digit(s[1]) && is_digit(
        s[2],
    ) && is_digit(s[3]) && is_digit(s[5]) && is_digit(s[6]) && is_digit(s[8]) && is_digit(s[9]) {
        let y = digit_val(s[0]) * 1000 + digit_val(s[1]) * 100 + digit_val(s[2]) * 10 + digit_val(
            s[3],
        );
        let m = digit_val(s[5]) * 10 + digit_val(s[6]);
        let d = digit_val(s[8]) * 10 + digit_val(s[9]);
        let date = Date { year: y as u32, month: m as u32, day: d as u32 };
        if date.wf() {
            Some(date)
        } else {
            None
        }
    } else {
        None
    }
}

/// The ten characters of a date in ISO `year-month-day` form.
pub open spec fn iso_seq(d: Date) -> Seq<char> {
    seq![
        digit_char(d.year as int / 1000),
        digit_char((d.year as int / 100) % 10),
        digit_char((d.year as int / 10) % 10),
        digit_char(d.year as int % 10),
        '-',
        digit_char(d.month as int / 10),
        digit_char(d.month as int % 10),
        '-',
        digit_char(d.day as int / 10),
        digit_char(d.day as int % 10),
    ]
}

/// The digit character of a value below ten, as a string slice.
fn digit_str(d: u32) -> (r: &'static str)
    requires
        d < 10,
    ensures
        r@ =~= seq![digit_char(d as int)],
{
    proof {
        reveal_strlit("0");
        reveal_strlit("1");
        reveal_strlit("2");
        reveal_strlit("3");
        reveal_strlit("4");
        reveal_strlit("5");
        reveal_strlit("6");
        reveal_strlit("7");
        reveal_strlit("8");
        reveal_strlit("9");
    }
    match d {
        0 => "0",
        1 => "1",
        2 => "2",
        3 => "3",
        4 => "4",
        5 => "5",
        6 => "6",
        7 => "7",
        8 => "8",
        _ => "9",
    }
}

impl Date {
    /// A real calendar date within the four-digit-year range.
    pub open spec fn wf(self) -> bool {
        &&& 1 <= self.month <= 12
        &&& 1 <= self.day <= days_in_month(self.year, self.month)
        &&& self.year <= 9999
    }

    /// Date order: by year, then month, then day.
    pub open spec fn le_spec(self, other: Date) -> bool {
        if self.year != other.year {
            self.year < other.year
        } else if self.month != other.month {
            self.month < other.month
        } else {
            self.day <= other.day
        }
    }

    /// Whether `self` is no later than `other`.
    pub fn le(&self, other: &Date) -> (r: bool)
        ensures
            r == self.le_spec(*other),
    {
        if self.year != other.year {
            self.year < other.year
        } else if self.month != other.month {
            self.month < other.month
        } else {
            self.day <= other.day
        }
    }

    /// Parses an ISO `year-month-day` date; anything else is a metadata
    /// parse failure.
    pub fn parse(s: &str) -> (r: Result<Date, GalleryError>)
        ensures
            match r {
                Ok(d) => parse_date(s@) == Some(d),
                Err(e) => {
                    &&& parse_date(s@) is None
                    &&& e matches GalleryError::MetadataParseError { cause } && cause@ == s@
                },
            },
    {
        let n = s.unicode_len();
        if n != 10 {
            return Err(GalleryError::MetadataParseError { cause: s.to_owned() });
        }
        if s.get_char(4) != '-' || s.get_char(7) != '-' {
            return Err(GalleryError::MetadataParseError { cause: s.to_owned() });
        }
        let v0 = s.get_char(0) as u32;
        let v1 = s.get_char(1) as u32;
        let v2 = s.get_char(2) as u32;
        let v3 = s.get_char(3) as u32;
        let v5 = s.get_char(5) as u32;
        let v6 = s.get_char(6) as u32;
        let v8 = s.get_char(8) as u32;
        let v9 = s.get_char(9) as u32;
        if v0 < 48 || v0 > 57 || v1 < 48 || v1 > 57 || v2 < 48 || v2 > 57 || v3 < 48 || v3 > 57
            || v5 < 48 || v5 > 57 || v6 < 48 || v6 > 57 || v8 < 48 || v8 > 57 || v9 < 48 || v9
            > 57 {
            return Err(GalleryError::MetadataParseError { cause: s.to_owned() });
        }
        let year = (v0 - 48) * 1000 + (v1 - 48) * 100 + (v2 - 48) * 10 + (v3 - 48);
        let month = (v5 - 48) * 10 + (v6 - 48);
        let day = (v8 - 48) * 10 + (v9 - 48);
        let date = Date { year, month, day };
        if month < 1 || month > 12 {
            return Err(GalleryError::MetadataParseError { cause: s.to_owned() });
        }
        let md = if month == 2 {
            if year % 4 == 0 && (year % 100 != 0 || year % 400 == 0) {
                29
            } else {
                28
            }
        } else if month == 4 || month == 6 || month == 9 || month == 11 {
            30
        } else {
            31
        };
        assert(md == days_in_month(year, month));
        if day < 1 || day > md {
            return Err(GalleryError::MetadataParseError { cause: s.to_owned() });
        }
        Ok(date)
    }

    /// The date written back in ISO `year-month-day` form.
    pub fn iso_string(&self) -> (r: String)
        requires
            self.wf(),
        ensures
            r@ == iso_seq(*self),
    {
        proof {
            reveal_strlit("-");
        }
        let r = digit_str(self.year / 1000).to_owned();
        let r = r.concat(digit_str((self.year / 100) % 10));
        let r = r.concat(digit_str((self.year / 10) % 10));
        let r = r.concat(digit_str(self.year % 10));
        let r = r.concat("-");
        let r = r.concat(digit_str(self.month / 10));
        let r = r.concat(digit_str(self.month % 10));
        let r = r.concat("-");
        let r = r.concat(digit_str(self.day / 10));
        let r = r.concat(digit_str(self.day % 10));
        proof {
            assert("-"@ =~= seq!['-']);
            assert(r@ =~= iso_seq(*self));
        }
        r
    }
}

/// Law: writing a date in ISO form and parsing the text back yields the
/// same date, so the date shown on a page names exactly the date it was
/// ordered by.
pub proof fn lemma_date_iso_roundtrip(d: Date)
    requires
        d.wf(),
    ensures
        parse_date(iso_seq(d)) == Some(d),
{
    let s = iso_seq(d);
    let y = d.year as int;
    let m = d.month as int;
    let dy = d.day as int;
    assert forall|k: int| 0 <= k < 10 implies is_digit(#[trigger] digit_char(k)) && digit_val(
        digit_char(k),
    ) == k by {}
    assert(y == (y / 10) * 10 + y % 10);
    assert(y / 10 == (y / 100) * 10 + (y / 10) % 10);
    assert(y / 100 == (y / 1000) * 10 + (y / 100) % 10);
    assert(m == (m / 10) * 10 + m % 10);
    assert(dy == (dy / 10) * 10 + dy % 10);
    assert(digit_val(s[0]) * 1000 + digit_val(s[1]) * 100 + digit_val(s[2]) * 10 + digit_val(s[3])
        == y);
    assert(digit_val(s[5]) * 10 + digit_val(s[6]) == m);
    assert(digit_val(s[8]) * 10 + digit_val(s[9]) == dy);
}

/// One source photograph inside a collection.
#[derive(Debug)]
pub struct Image {
    /// The user-visible name of the image: the file stem.
    pub name: String,
    /// The full path to the source image.
    pub path: String,
    /// The file name of the source image, relative to its collection.
    pub file_name: String,
}

/// The mathematical content of an [`Image`].
#[verifier::ext_equal]
pub struct ImageV {
    pub name: Seq<char>,
    pub path: Seq<char>,
    pub file_name: Seq<char>,
}

impl View for Image {
    type V = ImageV;

    open spec fn view(&self) -> ImageV {
        ImageV { name: self.name@, path: self.path@, file_name: self.file_name@ }
    }
}

/// An image with a file name fit for joining under its collection.
pub open spec fn image_v_wf(i: ImageV) -> bool {
    is_single_component(i.file_name)
}

/// The four path components a thumbnail is laid out under, relative to the
/// output root: a fixed prefix, then the collection's slug, then the image's
/// slug with the extension forced to `jpg`.
pub open spec fn thumbnail_url_of(file_name: Seq<char>, coll_path: Seq<char>) -> Seq<Seq<char>> {
    seq![
        "data"@,
        "thumbnails"@,
        web_path_of(coll_path),
        with_extension(web_path_of(file_name), "jpg"@),
    ]
}

impl Image {
    /// Builds an image from its file name and full source path; the name is
    /// the file stem.  A file name without any characters has no stem.
    pub fn new(file_name: String, path: String) -> (r: Result<Image, GalleryError>)
        ensures
            match r {
                Ok(img) => {
                    &&& file_name@.len() > 0
                    &&& img@.name == file_stem_of(file_name@)
                    &&& img@.path == path@
                    &&& img@.file_name == file_name@
                },
                Err(e) => {
                    &&& file_name@.len() == 0
                    &&& e matches GalleryError::StemDecodeError { path: p } && p@ == file_name@
                },
            },
    {
        let n = file_name.as_str().unicode_len();
        if n == 0 {
            return Err(GalleryError::StemDecodeError { path: file_name });
        }
        proof {
            crate::text::lemma_last_index_of(file_name@, '.');
        }
        let name = match find_last_char(file_name.as_str(), '.') {
            Some(i) => {
                if i > 0 {
                    file_name.as_str().substring_char(0, i).to_owned()
                } else {
                    file_name.clone()
                }
            },
            None => file_name.clone(),
        };
        Ok(Image { name, path, file_name })
    }

    /// The URL of this image relative to its collection's directory.
    pub fn url_file_name(&self) -> (r: Result<String, GalleryError>)
        ensures
            match r {
                Ok(t) => is_single_component(self.file_name@) && t@ == web_path_of(
                    self.file_name@,
                ),
                Err(e) => {
                    &&& !is_single_component(self.file_name@)
                    &&& e matches GalleryError::InvalidPathShape { path: p } && p@
                        == self.file_name@
                },
            },
    {
        to_web_path(self.file_name.as_str())
    }

    /// The URL of this image's thumbnail relative to the output root, as a
    /// sequence of path components.
    pub fn thumbnail_url(&self, coll: &Collection) -> (r: Result<Vec<String>, GalleryError>)
        ensures
            match r {
                Ok(v) => {
                    &&& is_single_component(coll.path@)
                    &&& is_single_component(self.file_name@)
                    &&& v.deep_view() == thumbnail_url_of(self.file_name@, coll.path@)
                },
                Err(e) => {
                    &&& !is_single_component(coll.path@) || !is_single_component(self.file_name@)
                    &&& e matches GalleryError::InvalidPathShape { path: p } && (p@ == coll.path@
                        || p@ == self.file_name@)
                },
            },
    {
        let coll_slug = match to_web_path(coll.path.as_str()) {
            Ok(t) => t,
            Err(e) => {
                return Err(e);
            },
        };
        let file_slug = match to_web_path(self.file_name.as_str()) {
            Ok(t) => t,
            Err(e) => {
                return Err(e);
            },
        };
        let thumb_name = with_extension_exec(file_slug.as_str(), "jpg");
        let mut v: Vec<String> = Vec::new();
        v.push("data".to_owned());
        v.push("thumbnails".to_owned());
        v.push(coll_slug);
        v.push(thumb_name);
        proof {
            assert(v.deep_view() =~= thumbnail_url_of(self.file_name@, coll.path@));
        }
        Ok(v)
    }
}

/// A collection of images: one source directory with a descriptor.
#[derive(Debug)]
pub struct Collection {
    /// The path of the collection's directory, relative to the gallery root:
    /// exactly one path component.
    pub path: String,
    /// The user-visible title, from the descriptor.
    pub title: String,
    /// The collection's date, from the descriptor; orders the gallery.
    pub date: Date,
    /// The images, sorted by name ascending at construction time.
    pub images: Vec<Image>,
    /// Names of images that the gallery-wide highlight view should show.
    pub feat: Vec<String>,
}

/// The mathematical content of a [`Collection`].
#[verifier::ext_equal]
pub struct CollectionV {
    pub path: Seq<char>,
    pub title: Seq<char>,
    pub date: Date,
    pub images: Seq<ImageV>,
    pub feat: Seq<Seq<char>>,
}

impl View for Collection {
    type V = CollectionV;

    open spec fn view(&self) -> CollectionV {
        CollectionV {
            path: self.path@,
            title: self.title@,
            date: self.date,
            images: self.images@.map_values(|i: Image| i@),
            feat: self.feat.deep_view(),
        }
    }
}

/// A collection whose path and image file names are all single components
/// and whose date is a real calendar date.
pub open spec fn collection_v_wf(c: CollectionV) -> bool {
    &&& is_single_component(c.path)
    &&& c.date.wf()
    &&& forall|k: int| 0 <= k < c.images.len() ==> image_v_wf(#[trigger] c.images[k])
}

/// Images ordered by name, ascending.
pub open spec fn images_sorted_by_name(s: Seq<ImageV>) -> bool {
    forall|i: int, j: int|
        0 <= i < j < s.len() ==> lex_le(#[trigger] s[i].name, #[trigger] s[j].name)
}

impl Collection {
    /// Path and image file names all have exactly one component.
    pub open spec fn wf(&self) -> bool {
        collection_v_wf(self@)
    }

    /// The URL of this collection relative to the gallery root.
    pub fn url(&self) -> (r: Result<String, GalleryError>)
        ensures
            match r {
                Ok(t) => is_single_component(self.path@) && t@ == web_path_of(self.path@),
                Err(e) => {
                    &&& !is_single_component(self.path@)
                    &&& e matches GalleryError::InvalidPathShape { path: p } && p@ == self.path@
                },
            },
    {
        to_web_path(self.path.as_str())
    }
}

/// The gallery: every collection, most recent first.
#[derive(Debug)]
pub struct Gallery {
    /// The collections, sorted by date, most recent first.
    pub collections: Vec<Collection>,
}

impl View for Gallery {
    type V = Seq<CollectionV>;

    open spec fn view(&self) -> Seq<CollectionV> {
        self.collections@.map_values(|c: Collection| c@)
    }
}

/// Collections ordered by date, most recent first.
pub open spec fn collections_sorted_by_date_desc(s: Seq<CollectionV>) -> bool {
    forall|i: int, j: int|
        0 <= i < j < s.len() ==> (#[trigger] s[j].date).le_spec(#[trigger] s[i].date)
}

impl Gallery {
    /// Every collection is well formed.
    pub open spec fn wf(&self) -> bool {
        forall|k: int| 0 <= k < self@.len() ==> collection_v_wf(#[trigger] self@[k])
    }
}

} // verus!
