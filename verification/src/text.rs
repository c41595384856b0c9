//! Character-sequence helpers shared by the path, model and planning logic:
//! locating the last occurrence of a character, path-segment shape, file
//! stems and extensions, lexicographic order, and slash-joined paths.

use vstd::prelude::*;

verus! {

use vstd::string::StrSliceExecFns;
use vstd::string::StringExecFns;

/// Whether `c` occurs anywhere in `s`.
pub open spec fn contains_char(s: Seq<char>, c: char) -> bool {
    exists|i: int| 0 <= i < s.len() && s[i] == c
}

/// The index of the last occurrence of `c` in `s`, or -1 when `c` does not
/// occur.
pub open spec fn last_index_of(s: Seq<char>, c: char) -> int
    decreases s.len(),
{
    if s.len() == 0 {
        -1
    } else if s[s.len() - 1] == c {
        s.len() - 1
    } else {
        last_index_of(s.drop_last(), c)
    }
}

/// `last_index_of` finds the last occurrence: the character there is `c` and
/// nothing after it is, and -1 means `c` is absent.
pub proof fn lemma_last_index_of(s: Seq<char>, c: char)
    ensures
        -1 <= last_index_of(s, c) < s.len(),
        last_index_of(s, c) >= 0 ==> s[last_index_of(s, c)] == c,
        forall|j: int| last_index_of(s, c) < j < s.len() ==> s[j] != c,
        (last_index_of(s, c) >= 0) == contains_char(s, c),
    decreases s.len(),
{
    if s.len() > 0 && s[s.len() - 1] != c {
        lemma_last_index_of(s.drop_last(), c);
        assert(forall|j: int| 0 <= j < s.len() - 1 ==> s[j] == s.drop_last()[j]);
    }
}

/// An occurrence of `c` at `i` with nothing after it pins `last_index_of`.
pub proof fn lemma_last_index_of_found(s: Seq<char>, c: char, i: int)
    requires
        0 <= i < s.len(),
        s[i] == c,
        forall|j: int| i < j < s.len() ==> s[j] != c,
    ensures
        last_index_of(s, c) == i,
    decreases s.len(),
{
    if i < s.len() - 1 {
        lemma_last_index_of_found(s.drop_last(), c, i);
    }
}

/// A path with exactly one component: non-empty and free of separators.
pub open spec fn is_single_component(s: Seq<char>) -> bool {
    s.len() > 0 && !contains_char(s, '/')
}

/// The file name without its extension: everything before the last `.`,
/// except that a name whose only `.` leads it (a hidden file) is its own stem.
pub open spec fn file_stem_of(s: Seq<char>) -> Seq<char> {
    let i = last_index_of(s, '.');
    if i > 0 {
        s.subrange(0, i)
    } else {
        s
    }
}

/// The extension of a file name: everything after the last `.`, provided a
/// non-empty stem precedes it.
pub open spec fn extension_of(s: Seq<char>) -> Option<Seq<char>> {
    let i = last_index_of(s, '.');
    if i > 0 {
        Some(s.subrange(i + 1, s.len() as int))
    } else {
        None
    }
}

/// `name` with its extension replaced by `ext` (or `ext` appended when
/// `name` has no extension), as a filesystem path join would do it.
pub open spec fn with_extension(name: Seq<char>, ext: Seq<char>) -> Seq<char> {
    let i = last_index_of(name, '.');
    if i > 0 {
        name.subrange(0, i) + seq!['.'] + ext
    } else {
        name + seq!['.'] + ext
    }
}

/// The parts joined by single slashes, in order.
pub open spec fn join_slash(parts: Seq<Seq<char>>) -> Seq<char>
    decreases parts.len(),
{
    if parts.len() == 0 {
        Seq::empty()
    } else if parts.len() == 1 {
        parts[0]
    } else {
        parts[0] + seq!['/'] + join_slash(parts.drop_first())
    }
}

/// Appending one more part to a slash-join appends a separator and the part.
pub proof fn lemma_join_slash_push(parts: Seq<Seq<char>>, x: Seq<char>)
    ensures
        join_slash(parts.push(x)) == if parts.len() == 0 {
            x
        } else {
            join_slash(parts) + seq!['/'] + x
        },
    decreases parts.len(),
{
    if parts.len() == 0 {
        assert(parts.push(x)[0] == x);
    } else if parts.len() == 1 {
        assert(parts.push(x).drop_first() =~= seq![x]);
        assert(parts.push(x)[0] == parts[0]);
        assert(join_slash(seq![x]) == x);
        assert(join_slash(parts.push(x)) == parts[0] + seq!['/'] + join_slash(
            parts.push(x).drop_first(),
        ));
        assert(join_slash(parts) == parts[0]);
    } else {
        assert(parts.push(x).drop_first() =~= parts.drop_first().push(x));
        assert(parts.push(x)[0] == parts[0]);
        lemma_join_slash_push(parts.drop_first(), x);
        assert(join_slash(parts.push(x)) == parts[0] + seq!['/'] + join_slash(
            parts.drop_first().push(x),
        ));
        assert(join_slash(parts) == parts[0] + seq!['/'] + join_slash(parts.drop_first()));
        assert(parts[0] + seq!['/'] + (join_slash(parts.drop_first()) + seq!['/'] + x) =~= (
        parts[0] + seq!['/'] + join_slash(parts.drop_first())) + seq!['/'] + x);
    }
}

/// The ASCII-lowercase counterpart of `c`; everything but `A`..`Z` is kept.
pub open spec fn lower_char(c: char) -> char {
    if 65 <= (c as u32) && (c as u32) <= 90 {
        ((c as u32) + 32) as char
    } else {
        c
    }
}

/// `s` lowered character by character (ASCII letters only).
pub open spec fn lower_seq(s: Seq<char>) -> Seq<char> {
    s.map_values(|c: char| lower_char(c))
}

/// Lexicographic order on character sequences by Unicode scalar value, the
/// order in which image names are kept.
pub open spec fn lex_le(a: Seq<char>, b: Seq<char>) -> bool
    decreases a.len(),
{
    if a.len() == 0 {
        true
    } else if b.len() == 0 {
        false
    } else if (a[0] as u32) < (b[0] as u32) {
        true
    } else if (a[0] as u32) > (b[0] as u32) {
        false
    } else {
        lex_le(a.drop_first(), b.drop_first())
    }
}

/// Any two sequences are ordered one way or the other.
pub proof fn lemma_lex_le_total(a: Seq<char>, b: Seq<char>)
    ensures
        lex_le(a, b) || lex_le(b, a),
    decreases a.len(),
{
    if a.len() > 0 && b.len() > 0 && (a[0] as u32) == (b[0] as u32) {
        lemma_lex_le_total(a.drop_first(), b.drop_first());
    }
}

/// Lexicographic order is transitive.
pub proof fn lemma_lex_le_trans(a: Seq<char>, b: Seq<char>, c: Seq<char>)
    requires
        lex_le(a, b),
        lex_le(b, c),
    ensures
        lex_le(a, c),
    decreases a.len(),
{
    if a.len() > 0 && c.len() > 0 && (a[0] as u32) == (c[0] as u32) {
        if b.len() > 0 && (a[0] as u32) == (b[0] as u32) && (b[0] as u32) == (c[0] as u32) {
            lemma_lex_le_trans(a.drop_first(), b.drop_first(), c.drop_first());
        }
    }
}

/// Finds the last occurrence of `c` in `s`, scanning from the end.
pub(crate) fn find_last_char(s: &str, c: char) -> (r: Option<usize>)
    ensures
        match r {
            Some(i) => last_index_of(s@, c) == i as int,
            None => last_index_of(s@, c) == -1,
        },
{
    let n = s.unicode_len();
    let mut i: usize = n;
    while i > 0
        invariant
            i <= n,
            n == s@.len(),
            forall|j: int| i <= j < n ==> s@[j] != c,
        decreases i,
    {
        i = i - 1;
        if s.get_char(i) == c {
            proof {
                lemma_last_index_of_found(s@, c, i as int);
            }
            return Some(i);
        }
    }
    proof {
        lemma_last_index_of(s@, c);
    }
    None
}

/// Whether `c` occurs in `s`.
pub(crate) fn str_contains_char(s: &str, c: char) -> (r: bool)
    ensures
        r == contains_char(s@, c),
{
    proof {
        lemma_last_index_of(s@, c);
    }
    match find_last_char(s, c) {
        Some(_) => true,
        None => false,
    }
}

/// Whether two string slices hold the same characters.
pub(crate) fn str_eq(a: &str, b: &str) -> (r: bool)
    ensures
        r == (a@ == b@),
{
    let na = a.unicode_len();
    let nb = b.unicode_len();
    if na != nb {
        return false;
    }
    let mut i: usize = 0;
    while i < na
        invariant
            i <= na,
            na == a@.len(),
            na == b@.len(),
            forall|j: int| 0 <= j < i ==> a@[j] == b@[j],
        decreases na - i,
    {
        if a.get_char(i) != b.get_char(i) {
            assert(a@ != b@) by {
                if a@ == b@ {
                    assert(a@[i as int] == b@[i as int]);
                }
            }
            return false;
        }
        i = i + 1;
    }
    proof {
        assert(a@ =~= b@);
    }
    true
}

/// Whether two string slices are equal up to ASCII letter case.
pub(crate) fn str_eq_ignore_ascii_case(a: &str, b: &str) -> (r: bool)
    ensures
        r == (lower_seq(a@) == lower_seq(b@)),
{
    let na = a.unicode_len();
    let nb = b.unicode_len();
    if na != nb {
        assert(lower_seq(a@) != lower_seq(b@)) by {
            assert(lower_seq(a@).len() == a@.len());
            assert(lower_seq(b@).len() == b@.len());
        }
        return false;
    }
    let mut i: usize = 0;
    while i < na
        invariant
            i <= na,
            na == a@.len(),
            na == b@.len(),
            forall|j: int| 0 <= j < i ==> lower_char(a@[j]) == lower_char(b@[j]),
        decreases na - i,
    {
        let ca = a.get_char(i);
        let cb = b.get_char(i);
        let xa = ca as u32;
        let xb = cb as u32;
        let la = if 65 <= xa && xa <= 90 { xa + 32 } else { xa };
        let lb = if 65 <= xb && xb <= 90 { xb + 32 } else { xb };
        if la != lb {
            assert(lower_char(ca) != lower_char(cb)) by {
                assert(la == lower_char(ca) as u32);
                assert(lb == lower_char(cb) as u32);
            }
            assert(lower_seq(a@) != lower_seq(b@)) by {
                if lower_seq(a@) == lower_seq(b@) {
                    assert(lower_seq(a@)[i as int] == lower_seq(b@)[i as int]);
                }
            }
            return false;
        }
        assert(lower_char(ca) == lower_char(cb)) by {
            assert(la == lower_char(ca) as u32);
            assert(lb == lower_char(cb) as u32);
        }
        i = i + 1;
    }
    proof {
        assert(lower_seq(a@) =~= lower_seq(b@));
    }
    true
}

/// Whether `a` comes no later than `b` in lexicographic order.
pub(crate) fn str_lex_le(a: &str, b: &str) -> (r: bool)
    ensures
        r == lex_le(a@, b@),
{
    let na = a.unicode_len();
    let nb = b.unicode_len();
    let mut i: usize = 0;
    proof {
        assert(a@.skip(0) =~= a@);
        assert(b@.skip(0) =~= b@);
    }
    loop
        invariant
            i <= na,
            i <= nb,
            na == a@.len(),
            nb == b@.len(),
            lex_le(a@, b@) == lex_le(a@.skip(i as int), b@.skip(i as int)),
        decreases na - i,
    {
        if i >= na {
            assert(a@.skip(i as int).len() == 0);
            return true;
        }
        if i >= nb {
            assert(b@.skip(i as int).len() == 0);
            assert(a@.skip(i as int).len() > 0);
            return false;
        }
        let ca = a.get_char(i);
        let cb = b.get_char(i);
        assert(a@.skip(i as int)[0] == ca);
        assert(b@.skip(i as int)[0] == cb);
        if (ca as u32) < (cb as u32) {
            return true;
        }
        if (ca as u32) > (cb as u32) {
            return false;
        }
        proof {
            assert(a@.skip(i as int).drop_first() =~= a@.skip(i as int + 1));
            assert(b@.skip(i as int).drop_first() =~= b@.skip(i as int + 1));
        }
        i = i + 1;
    }
}

/// Replaces the extension of `name` with `ext` (or appends a dotted `ext`
/// when `name` has none), as `with_extension` describes.
pub(crate) fn with_extension_exec(name: &str, ext: &str) -> (r: String)
    ensures
        r@ == with_extension(name@, ext@),
{
    let n = name.unicode_len();
    let stem_end: usize = match find_last_char(name, '.') {
        Some(i) => if i > 0 {
            i
        } else {
            n
        },
        None => n,
    };
    proof {
        lemma_last_index_of(name@, '.');
    }
    let stem = name.substring_char(0, stem_end);
    proof {
        if stem_end == n {
            assert(stem@ =~= name@);
        }
        reveal_strlit(".");
        assert("."@ =~= seq!['.']);
    }
    let r = stem.to_owned().concat(".").concat(ext);
    proof {
        assert(r@ =~= with_extension(name@, ext@));
    }
    r
}

/// Joins two path fragments with a single separator.
pub fn path_join(a: &str, b: &str) -> (r: String)
    ensures
        r@ == a@ + seq!['/'] + b@,
{
    proof {
        reveal_strlit("/");
        assert("/"@ =~= seq!['/']);
    }
    let s = a.to_owned();
    let s = s.concat("/");
    let r = s.concat(b);
    proof {
        assert(r@ =~= a@ + seq!['/'] + b@);
    }
    r
}

} // verus!
