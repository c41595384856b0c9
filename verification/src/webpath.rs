//! URL-safe path segments.
//!
//! A single path segment becomes a web path by slugifying its stem while the
//! extension, when one exists, is kept verbatim.  The slugifier itself is the
//! `slug` crate; everything around the one call into it is verified.

use vstd::prelude::*;

verus! {

use crate::error::GalleryError;
use crate::text::contains_char;
use crate::text::is_single_component;
use crate::text::last_index_of;
use crate::text::lemma_last_index_of;
use crate::text::lemma_last_index_of_found;
use crate::text::lower_seq;
use crate::text::str_contains_char;
use crate::text::find_last_char;
use vstd::string::StrSliceExecFns;
use vstd::string::StringExecFns;

/// What `slug::slugify` returns for a given character sequence.
pub uninterp spec fn slug_of(s: Seq<char>) -> Seq<char>;

/// A character a slug may consist of: `a`-`z`, `0`-`9` or `-`.
pub open spec fn is_slug_char(c: char) -> bool {
    ||| 97 <= (c as u32) && (c as u32) <= 122
    ||| 48 <= (c as u32) && (c as u32) <= 57
    ||| c == '-'
}

/// The shape every slug has: slug characters only, never a hyphen at either
/// end, never two hyphens in a row.
pub open spec fn is_slug(s: Seq<char>) -> bool {
    &&& forall|i: int| 0 <= i < s.len() ==> is_slug_char(#[trigger] s[i])
    &&& s.len() > 0 ==> s[0] != '-' && s[s.len() - 1] != '-'
    &&& forall|i: int| 1 <= i < s.len() ==> !(#[trigger] s[i] == '-' && s[i - 1] == '-')
}

/// A character that slugification keeps (up to ASCII case): an ASCII letter,
/// a digit or a hyphen.
pub open spec fn is_simple_char(c: char) -> bool {
    ||| 97 <= (c as u32) && (c as u32) <= 122
    ||| 65 <= (c as u32) && (c as u32) <= 90
    ||| 48 <= (c as u32) && (c as u32) <= 57
    ||| c == '-'
}

/// A segment already in slug shape up to ASCII letter case: simple characters
/// only, never a hyphen at either end, never two hyphens in a row.
pub open spec fn is_simple_segment(s: Seq<char>) -> bool {
    &&& forall|i: int| 0 <= i < s.len() ==> is_simple_char(#[trigger] s[i])
    &&& s.len() > 0 ==> s[0] != '-' && s[s.len() - 1] != '-'
    &&& forall|i: int| 1 <= i < s.len() ==> !(#[trigger] s[i] == '-' && s[i - 1] == '-')
}

/// Relies on `slug::slugify`: the result depends on the input characters
/// alone; it consists of `a`-`z`, `0`-`9` and `-`, never starts or ends with
/// a hyphen and never holds two in a row; and an input already of that shape
/// up to ASCII letter case comes back lower-cased and otherwise unchanged.
#[verifier::external_body]
pub(crate) fn slugify(s: &str) -> (r: String)
    ensures
        r@ == slug_of(s@),
        is_slug(r@),
        is_simple_segment(s@) ==> r@ == lower_seq(s@),
{
    slug::slugify(s)
}

/// The web form of a single path segment: the part before the last dot is
/// slugified and the part after it is kept verbatim; a segment without a dot
/// is slugified whole.
pub open spec fn web_path_of(s: Seq<char>) -> Seq<char> {
    let i = last_index_of(s, '.');
    if i >= 0 {
        slug_of(s.subrange(0, i)) + seq!['.'] + s.subrange(i + 1, s.len() as int)
    } else {
        slug_of(s)
    }
}

/// Converts a single path segment into a token fit for a URL.
///
/// A path of more (or fewer) than one component is rejected; the extension,
/// when one exists, is preserved verbatim; a segment that is already a slug
/// up to ASCII letter case only has its case folded.
pub fn to_web_path(path: &str) -> (r: Result<String, GalleryError>)
    ensures
        match r {
            Ok(t) => {
                &&& is_single_component(path@)
                &&& t@ == web_path_of(path@)
                &&& last_index_of(path@, '.') >= 0 ==> {
                    &&& last_index_of(t@, '.') >= 0
                    &&& t@.subrange(last_index_of(t@, '.') + 1, t@.len() as int)
                        == path@.subrange(last_index_of(path@, '.') + 1, path@.len() as int)
                }
            },
            Err(e) => {
                &&& !is_single_component(path@)
                &&& e matches GalleryError::InvalidPathShape { path: p } && p@ == path@
            },
        },
        path@.len() > 0 && is_simple_segment(path@) ==> (r matches Ok(t) && t@ == lower_seq(
            path@,
        )),
{
    let n = path.unicode_len();
    if n == 0 {
        return Err(GalleryError::InvalidPathShape { path: path.to_owned() });
    }
    if str_contains_char(path, '/') {
        assert(!is_simple_segment(path@)) by {
            let i = choose|i: int| 0 <= i < path@.len() && path@[i] == '/';
            assert(!is_simple_char(path@[i]));
        }
        return Err(GalleryError::InvalidPathShape { path: path.to_owned() });
    }
    match find_last_char(path, '.') {
        Some(i) => {
            proof {
                lemma_last_index_of(path@, '.');
                assert(!is_simple_segment(path@)) by {
                    assert(path@[i as int] == '.');
                    assert(!is_simple_char('.'));
                }
            }
            let stem = path.substring_char(0, i);
            let ext = path.substring_char(i + 1, n);
            let slug = slugify(stem);
            let ghost slug_view = slug@;
            let dotted = slug.concat(".");
            let out = dotted.concat(ext);
            proof {
                reveal_strlit(".");
                assert("."@ =~= seq!['.']);
                assert(out@ =~= web_path_of(path@));
                let li = slug_view.len() as int;
                assert(out@[li] == '.');
                assert forall|j: int| li < j < out@.len() implies out@[j] != '.' by {
                    assert(out@[j] == path@[i + 1 + (j - li - 1)]);
                }
                assert forall|j: int| 0 <= j < li implies out@[j] != '.' by {
                    assert(is_slug_char(slug_view[j]));
                }
                lemma_last_index_of_found(out@, '.', li);
                assert(out@.subrange(li + 1, out@.len() as int) =~= path@.subrange(
                    i + 1,
                    path@.len() as int,
                ));
            }
            Ok(out)
        },
        None => {
            proof {
                lemma_last_index_of(path@, '.');
            }
            let out = slugify(path);
            Ok(out)
        },
    }
}

} // verus!
