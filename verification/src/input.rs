//! Which dropped files are accepted as input: MP4 files only, recognised by
//! the extension `.mp4` in any letter case.
use vstd::prelude::*;

use crate::error::Error;
use crate::path::{extension, spec_extension};

verus! {

/// Code point of a character after mapping ASCII upper-case letters to
/// lower case.
pub open spec fn ascii_lower(c: char) -> int {
    if 'A' <= c && c <= 'Z' {
        (c as u32) + 32
    } else {
        c as u32 as int
    }
}

/// Equality of two strings when ASCII letter case is ignored.
pub open spec fn eq_ignore_ascii_case(a: Seq<char>, b: Seq<char>) -> bool {
    &&& a.len() == b.len()
    &&& forall|i: int| 0 <= i < a.len() ==> ascii_lower(#[trigger] a[i]) == ascii_lower(b[i])
}

/// A path names an MP4 file when its extension is "mp4", ignoring case.
pub open spec fn spec_is_mp4(path: Seq<char>) -> bool {
    match spec_extension(path) {
        Some(e) => eq_ignore_ascii_case(e, "mp4"@),
        None => false,
    }
}

fn lower_exec(c: char) -> (r: u32)
    ensures
        r == ascii_lower(c),
{
    if 'A' <= c && c <= 'Z' {
        (c as u32) + 32
    } else {
        c as u32
    }
}

/// Compares two strings ignoring ASCII letter case.
pub fn str_eq_ignore_ascii_case(a: &str, b: &str) -> (r: bool)
    ensures
        r == eq_ignore_ascii_case(a@, b@),
{
    let n = a.unicode_len();
    if n != b.unicode_len() {
        return false;
    }
    let mut i: usize = 0;
    while i < n
        invariant
            n == a@.len() == b@.len(),
            i <= n,
            forall|j: int| 0 <= j < i ==> ascii_lower(#[trigger] a@[j]) == ascii_lower(b@[j]),
        decreases n - i,
    {
        if lower_exec(a.get_char(i)) != lower_exec(b.get_char(i)) {
            return false;
        }
        i = i + 1;
    }
    true
}

/// Whether `path` names an MP4 file (extension `.mp4`, any letter case).
pub fn is_mp4_file(path: &str) -> (r: bool)
    ensures
        r == spec_is_mp4(path@),
{
    match extension(path) {
        Some(e) => str_eq_ignore_ascii_case(e.as_str(), "mp4"),
        None => false,
    }
}

/// The MP4 files among `paths`, in the order given.
pub fn filter_mp4_paths(paths: &[String]) -> (r: Vec<String>)
    ensures
        r.deep_view() == paths.deep_view().filter(|p: Seq<char>| spec_is_mp4(p)),
{
    let mut r: Vec<String> = Vec::new();
    let n = paths.len();
    let ghost all = paths.deep_view();
    let ghost pred = |p: Seq<char>| spec_is_mp4(p);
    let mut i: usize = 0;
    while i < n
        invariant
            n == paths@.len(),
            all == paths.deep_view(),
            pred == (|p: Seq<char>| spec_is_mp4(p)),
            i <= n,
            r.deep_view() == all.take(i as int).filter(pred),
        decreases n - i,
    {
        let ghost before = r.deep_view();
        proof {
            reveal(Seq::filter);
            assert(all.take(i + 1).drop_last() =~= all.take(i as int));
            assert(all.take(i + 1).last() == all[i as int]);
            assert(all[i as int] == paths@[i as int]@);
        }
        if is_mp4_file(paths[i].as_str()) {
            let p = paths[i].clone();
            r.push(p);
            assert(r.deep_view() =~= before.push(all[i as int]));
            assert(pred(all[i as int]));
        } else {
            assert(!pred(all[i as int]));
        }
        assert(all.take(i + 1).filter(pred) == if pred(all[i as int]) {
            all.take(i as int).filter(pred).push(all[i as int])
        } else {
            all.take(i as int).filter(pred)
        }) by {
            reveal(Seq::filter);
        }
        i = i + 1;
    }
    assert(all.take(n as int) =~= all);
    r
}

/// `Ok` exactly when `path` names an MP4 file; otherwise the
/// `UnsupportedFormat` error that carries the path.
pub fn ensure_mp4_input(path: &str) -> (r: Result<(), Error>)
    ensures
        r is Ok <==> spec_is_mp4(path@),
        r matches Err(e) ==> (e matches Error::UnsupportedFormat { path: p } && p@ == path@),
{
    if is_mp4_file(path) {
        Ok(())
    } else {
        Err(Error::UnsupportedFormat { path: String::from_str(path) })
    }
}

/// `Ok` exactly when the output path names an MP4 file; otherwise a
/// `Message` error "output must be .mp4: <path>".
pub fn ensure_mp4_output(path: &str) -> (r: Result<(), Error>)
    ensures
        r is Ok <==> spec_is_mp4(path@),
        r matches Err(e) ==> (e matches Error::Message(m) && m@ == "output must be .mp4: "@ + path@),
{
    if is_mp4_file(path) {
        Ok(())
    } else {
        let mut m = String::from_str("output must be .mp4: ");
        m.append(path);
        Err(Error::Message(m))
    }
}

/// Strings equal up to ASCII case agree at every position, the last one
/// included: the two characters are the same, or are the same ASCII
/// letter in upper and lower case.
pub proof fn lemma_eq_ignore_case_each_char(a: Seq<char>, b: Seq<char>)
    requires
        eq_ignore_ascii_case(a, b),
    ensures
        a.len() == b.len(),
        forall|i: int|
            0 <= i < a.len() ==> (#[trigger] a[i] == b[i] || ('A' <= a[i] <= 'Z' && b[i] as u32 == a[i] as u32 + 32)
                || ('A' <= b[i] <= 'Z' && a[i] as u32 == b[i] as u32 + 32)),
{
    assert forall|i: int| 0 <= i < a.len() implies (#[trigger] a[i] == b[i] || ('A' <= a[i] <= 'Z' && b[i] as u32
        == a[i] as u32 + 32) || ('A' <= b[i] <= 'Z' && a[i] as u32 == b[i] as u32 + 32)) by {
        assert(ascii_lower(a[i]) == ascii_lower(b[i]));
        if a[i] as u32 == b[i] as u32 {
            lemma_same_code_same_char(a[i], b[i]);
        }
        if 'A' <= a[i] && a[i] <= 'Z' {
            assert(a[i] as u32 >= 65 && a[i] as u32 <= 90);
        }
        if 'A' <= b[i] && b[i] <= 'Z' {
            assert(b[i] as u32 >= 65 && b[i] as u32 <= 90);
        }
    }
}

/// Two characters with the same code are the same character.
proof fn lemma_same_code_same_char(c: char, d: char)
    requires
        c as u32 == d as u32,
    ensures
        c == d,
{
    vstd::utf8::char_u32_cast(c, d as u32);
    vstd::utf8::char_u32_cast(d, d as u32);
}

/// A path is accepted as an MP4 file exactly when its extension is three
/// characters: m or M, p or P, and 4; so ".mp3", ".mpg" or ".mp4x" are
/// never accepted.
pub proof fn lemma_mp4_extension_letters(path: Seq<char>)
    ensures
        spec_is_mp4(path) <==> (spec_extension(path) matches Some(e) && e.len() == 3 && (e[0] == 'm' || e[0] == 'M')
            && (e[1] == 'p' || e[1] == 'P') && e[2] == '4'),
{
    reveal_strlit("mp4");
    let m = "mp4"@;
    assert(m.len() == 3 && m[0] == 'm' && m[1] == 'p' && m[2] == '4');
    if let Some(e) = spec_extension(path) {
        if e.len() == 3 {
            let (c0, c1, c2) = (e[0], e[1], e[2]);
            if eq_ignore_ascii_case(e, m) {
                assert(ascii_lower(e[0]) == ascii_lower(m[0]));
                assert(ascii_lower(e[1]) == ascii_lower(m[1]));
                assert(ascii_lower(e[2]) == ascii_lower(m[2]));
                if 'A' <= c0 && c0 <= 'Z' {
                    lemma_same_code_same_char(c0, 'M');
                } else {
                    lemma_same_code_same_char(c0, 'm');
                }
                if 'A' <= c1 && c1 <= 'Z' {
                    lemma_same_code_same_char(c1, 'P');
                } else {
                    lemma_same_code_same_char(c1, 'p');
                }
                if 'A' <= c2 && c2 <= 'Z' {
                    assert(c2 as u32 >= 65);
                } else {
                    lemma_same_code_same_char(c2, '4');
                }
            }
            if (c0 == 'm' || c0 == 'M') && (c1 == 'p' || c1 == 'P') && c2 == '4' {
                assert(ascii_lower(c0) == ascii_lower(m[0]));
                assert(ascii_lower(c1) == ascii_lower(m[1]));
                assert(ascii_lower(c2) == ascii_lower(m[2]));
                assert forall|i: int| 0 <= i < e.len() implies ascii_lower(#[trigger] e[i]) == ascii_lower(m[i]) by {
                    if i == 0 {
                    } else if i == 1 {
                    } else {
                    }
                }
            }
        }
    }
}

} // verus!
