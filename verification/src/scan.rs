//! Expanding mixed file and directory inputs into the flat list of
//! supported raster files: extension extraction, ASCII case folding, and the
//! extension filter. The walk itself is an outside traversal; everything it
//! yields runs through the verified filter.
use vstd::prelude::*;

use crate::names::spec_ext;

verus! {

/// ASCII lowercase of one character; other characters are unchanged.
pub open spec fn lower_char(c: char) -> char {
    if 'A' <= c && c <= 'Z' {
        ((c as u8) + 32) as char
    } else {
        c
    }
}

pub open spec fn lower_seq(s: Seq<char>) -> Seq<char> {
    s.map_values(|c: char| lower_char(c))
}

/// ASCII-case-insensitive comparison of `s` against an already-lowercase
/// pattern.
pub fn eq_lower(s: &str, lit: &str) -> (r: bool)
    ensures
        r == (lower_seq(s@) == lit@),
{
    let n = s.unicode_len();
    if n != lit.unicode_len() {
        assert(lower_seq(s@).len() == s@.len());
        return false;
    }
    let mut i: usize = 0;
    while i < n
        invariant
            i <= n,
            n == s@.len(),
            n == lit@.len(),
            forall|j: int| 0 <= j < i ==> lower_char(s@[j]) == lit@[j],
        decreases n - i,
    {
        let c = s.get_char(i);
        let l = lit.get_char(i);
        let low = if 'A' <= c && c <= 'Z' {
            ((c as u8) + 32) as char
        } else {
            c
        };
        if low != l {
            assert(lower_seq(s@)[i as int] != lit@[i as int]);
            return false;
        }
        i = i + 1;
    }
    proof {
        assert(lower_seq(s@) =~= lit@);
    }
    true
}

/// Index of the last path separator in `p`, or -1 if there is none.
pub open spec fn last_slash(p: Seq<char>) -> int
    decreases p.len(),
{
    if p.len() == 0 {
        -1
    } else if p[p.len() - 1] == '/' {
        p.len() - 1
    } else {
        last_slash(p.drop_last())
    }
}

/// The final component of a path: everything after the last separator.
pub open spec fn spec_file_name(p: Seq<char>) -> Seq<char> {
    p.subrange(last_slash(p) + 1, p.len() as int)
}

/// The extension of a path's final component.
pub open spec fn path_ext(p: Seq<char>) -> Seq<char> {
    spec_ext(spec_file_name(p))
}

proof fn lemma_last_slash_at(p: Seq<char>, q: int)
    requires
        0 <= q < p.len(),
        p[q] == '/',
        forall|j: int| q < j < p.len() ==> p[j] != '/',
    ensures
        last_slash(p) == q,
    decreases p.len(),
{
    if q < p.len() - 1 {
        let prefix = p.drop_last();
        assert(prefix[q] == p[q]);
        assert forall|j: int| q < j < prefix.len() implies prefix[j] != '/' by {
            assert(prefix[j] == p[j]);
        }
        lemma_last_slash_at(prefix, q);
    }
}

proof fn lemma_last_slash_none(p: Seq<char>)
    requires
        forall|j: int| 0 <= j < p.len() ==> p[j] != '/',
    ensures
        last_slash(p) == -1,
    decreases p.len(),
{
    if p.len() > 0 {
        let prefix = p.drop_last();
        assert forall|j: int| 0 <= j < prefix.len() implies prefix[j] != '/' by {
            assert(prefix[j] == p[j]);
        }
        lemma_last_slash_none(prefix);
    }
}

/// Extracts the final component of a path.
pub fn file_name_of(path: &String) -> (r: String)
    ensures
        r@ == spec_file_name(path@),
{
    let s = path.as_str();
    let len = s.unicode_len();
    let mut i = len;
    while i > 0
        invariant
            i <= len,
            len == s@.len(),
            s@ == path@,
            forall|j: int| i <= j < len ==> s@[j] != '/',
        decreases i,
    {
        i = i - 1;
        if s.get_char(i) == '/' {
            proof {
                lemma_last_slash_at(path@, i as int);
            }
            return String::from_str(s.substring_char(i + 1, len));
        }
    }
    proof {
        lemma_last_slash_none(path@);
        assert(spec_file_name(path@) =~= path@);
    }
    path.clone()
}

/// The closed set of raster extensions the pipeline accepts, compared after
/// ASCII case folding.
pub open spec fn supported_ext(e: Seq<char>) -> bool {
    lower_seq(e) == "png"@ || lower_seq(e) == "jpg"@ || lower_seq(e) == "jpeg"@ || lower_seq(e)
        == "webp"@ || lower_seq(e) == "tiff"@ || lower_seq(e) == "tif"@ || lower_seq(e) == "bmp"@
        || lower_seq(e) == "gif"@ || lower_seq(e) == "ico"@ || lower_seq(e) == "tga"@ || lower_seq(
        e,
    ) == "dds"@ || lower_seq(e) == "pnm"@ || lower_seq(e) == "qoi"@ || lower_seq(e) == "hdr"@
        || lower_seq(e) == "exr"@ || lower_seq(e) == "ff"@
}

/// Tests membership in the supported raster set, ASCII-case-insensitively.
pub fn is_supported_ext(e: &str) -> (r: bool)
    ensures
        r == supported_ext(e@),
{
    eq_lower(e, "png") || eq_lower(e, "jpg") || eq_lower(e, "jpeg") || eq_lower(e, "webp")
        || eq_lower(e, "tiff") || eq_lower(e, "tif") || eq_lower(e, "bmp") || eq_lower(e, "gif")
        || eq_lower(e, "ico") || eq_lower(e, "tga") || eq_lower(e, "dds") || eq_lower(e, "pnm")
        || eq_lower(e, "qoi") || eq_lower(e, "hdr") || eq_lower(e, "exr") || eq_lower(e, "ff")
}

/// Whether a walked entry survives the scan: a plain file whose extension is
/// in the supported set.
pub open spec fn entry_kept(path: Seq<char>, is_file: bool) -> bool {
    is_file && supported_ext(path_ext(path))
}

/// The paths of the kept entries, in input order.
pub open spec fn kept_paths(entries: Seq<(String, bool)>) -> Seq<Seq<char>>
    decreases entries.len(),
{
    if entries.len() == 0 {
        Seq::empty()
    } else {
        kept_paths(entries.drop_last()) + (if entry_kept(
            entries.last().0@,
            entries.last().1,
        ) {
            seq![entries.last().0@]
        } else {
            Seq::<Seq<char>>::empty()
        })
    }
}

pub proof fn lemma_kept_paths_supported(entries: Seq<(String, bool)>)
    ensures
        forall|i: int|
            0 <= i < kept_paths(entries).len() ==> supported_ext(
                path_ext(#[trigger] kept_paths(entries)[i]),
            ),
    decreases entries.len(),
{
    if entries.len() > 0 {
        lemma_kept_paths_supported(entries.drop_last());
        let prefix = kept_paths(entries.drop_last());
        assert forall|i: int| 0 <= i < kept_paths(entries).len() implies supported_ext(
            path_ext(#[trigger] kept_paths(entries)[i]),
        ) by {
            if i < prefix.len() {
                assert(kept_paths(entries)[i] == prefix[i]);
            } else {
                assert(entry_kept(entries.last().0@, entries.last().1));
                assert(kept_paths(entries)[i] == entries.last().0@);
            }
        }
    }
}

/// Keeps, in order, each walked entry that is a plain file with a supported
/// extension; everything else is dropped.
pub fn filter_supported(entries: &Vec<(String, bool)>) -> (r: Vec<String>)
    ensures
        r@.map_values(|s: String| s@) == kept_paths(entries@),
{
    let mut r: Vec<String> = Vec::new();
    let mut i: usize = 0;
    while i < entries.len()
        invariant
            i <= entries@.len(),
            r@.map_values(|s: String| s@) == kept_paths(entries@.take(i as int)),
        decreases entries@.len() - i,
    {
        let name = file_name_of(&entries[i].0);
        let (_, ext) = crate::names::split_name(&name);
        if entries[i].1 && is_supported_ext(ext.as_str()) {
            r.push(entries[i].0.clone());
        }
        proof {
            let taken = entries@.take(i + 1);
            assert(taken.drop_last() =~= entries@.take(i as int));
            assert(taken.last() == entries@[i as int]);
            assert(r@.map_values(|s: String| s@) =~= kept_paths(taken));
        }
        i = i + 1;
    }
    proof {
        assert(entries@.take(entries@.len() as int) =~= entries@);
    }
    r
}

/// Relies on walkdir::WalkDir: yields the tree under `root` (the root itself
/// included; a plain-file root yields just that file), each entry as its path
/// and whether it is a plain file. Unreadable entries are silently skipped.
/// What comes back depends on the disk, so nothing more is promised.
#[verifier::external_body]
fn walk_entries(root: &String) -> (r: Vec<(String, bool)>) {
    walkdir::WalkDir::new(std::path::Path::new(root.as_str()))
        .into_iter()
        .filter_map(|e| e.ok())
        .map(|e| (e.path().to_string_lossy().to_string(), e.file_type().is_file()))
        .collect()
}

/// Expands a mixed list of file and directory paths into the flat,
/// order-stable list of supported raster files beneath them.
pub fn scan_paths(inputs: &Vec<String>) -> (r: Vec<String>)
    ensures
        forall|i: int|
            0 <= i < r@.len() ==> supported_ext(path_ext(#[trigger] r@[i]@)),
{
    let mut r: Vec<String> = Vec::new();
    let mut i: usize = 0;
    while i < inputs.len()
        invariant
            forall|j: int| 0 <= j < r@.len() ==> supported_ext(path_ext(#[trigger] r@[j]@)),
        decreases inputs@.len() - i,
    {
        let entries = walk_entries(&inputs[i]);
        let mut kept = filter_supported(&entries);
        proof {
            lemma_kept_paths_supported(entries@);
            assert(forall|j: int|
                0 <= j < kept@.len() ==> kept@.map_values(|s: String| s@)[j] == #[trigger] kept@[j]@);
        }
        r.append(&mut kept);
        i = i + 1;
    }
    r
}

} // verus!
