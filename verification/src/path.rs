//! Unix path arithmetic on strings: final component, extension, stem,
//! parent and joining, with the component rules of `std::path`
//! (separators are '/', empty and "." components are skipped, a leading
//! "/" is the root and a leading "." component is the current directory).
use vstd::prelude::*;

verus! {

/// End of `s[..p]` after dropping trailing separators and trailing "."
/// components, never going below `floor`.
pub open spec fn trim_back(s: Seq<char>, p: int, floor: int) -> int
    decreases p,
{
    if p <= floor || p <= 0 {
        p
    } else if s[p - 1] == '/' {
        trim_back(s, p - 1, floor)
    } else if s[p - 1] == '.' && (p == 1 || s[p - 2] == '/') {
        trim_back(s, p - 1, floor)
    } else {
        p
    }
}

/// Start of the component that ends at `e`: just after the last separator
/// before `e`, or 0.
pub open spec fn component_start(s: Seq<char>, e: int) -> int
    decreases e,
{
    if e <= 0 {
        0
    } else if s[e - 1] == '/' {
        e
    } else {
        component_start(s, e - 1)
    }
}

/// Length of the prefix that no trimming may remove: the root "/" or a
/// leading current-directory component ".".
pub open spec fn body_floor(s: Seq<char>) -> int {
    if s.len() > 0 && s[0] == '/' {
        1
    } else if s.len() > 0 && s[0] == '.' && (s.len() == 1 || s[1] == '/') {
        1
    } else {
        0
    }
}

/// The final component of a path, if it is a normal one (not the root, the
/// current directory or "..").
pub open spec fn spec_file_name(s: Seq<char>) -> Option<Seq<char>> {
    let e = trim_back(s, s.len() as int, 0);
    if e == 0 {
        None
    } else {
        let c = s.subrange(component_start(s, e), e);
        if c == ".."@ {
            None
        } else {
            Some(c)
        }
    }
}

/// The path without its final component; `None` for the empty path and
/// for a path made of the root alone.
pub open spec fn spec_parent(s: Seq<char>) -> Option<Seq<char>> {
    let e = trim_back(s, s.len() as int, 0);
    if e == 0 {
        if s.len() > 0 && s[0] != '/' {
            Some(Seq::empty())
        } else {
            None
        }
    } else {
        Some(s.subrange(0, trim_back(s, component_start(s, e), body_floor(s))))
    }
}

/// Index of the last '.' in `f[..i]`, or -1.
pub open spec fn last_dot(f: Seq<char>, i: int) -> int
    decreases i,
{
    if i <= 0 {
        -1
    } else if f[i - 1] == '.' {
        i - 1
    } else {
        last_dot(f, i - 1)
    }
}

/// Extension of a file name: what follows its last '.', unless that dot
/// is missing or is the first character.
pub open spec fn name_extension(f: Seq<char>) -> Option<Seq<char>> {
    let k = last_dot(f, f.len() as int);
    if k <= 0 {
        None
    } else {
        Some(f.subrange(k + 1, f.len() as int))
    }
}

/// Stem of a file name: what precedes its last '.', or the whole name when
/// that dot is missing or is the first character.
pub open spec fn name_stem(f: Seq<char>) -> Seq<char> {
    let k = last_dot(f, f.len() as int);
    if k <= 0 {
        f
    } else {
        f.subrange(0, k)
    }
}

/// Extension of the final component of a path.
pub open spec fn spec_extension(s: Seq<char>) -> Option<Seq<char>> {
    match spec_file_name(s) {
        Some(f) => name_extension(f),
        None => None,
    }
}

/// Stem of the final component of a path.
pub open spec fn spec_file_stem(s: Seq<char>) -> Option<Seq<char>> {
    match spec_file_name(s) {
        Some(f) => Some(name_stem(f)),
        None => None,
    }
}

/// `base` followed by the relative path `name`, with one separator between
/// them unless `base` is empty or already ends in one.
pub open spec fn spec_join(base: Seq<char>, name: Seq<char>) -> Seq<char> {
    if base.len() == 0 {
        name
    } else if base[base.len() - 1] == '/' {
        base + name
    } else {
        base + "/"@ + name
    }
}

pub(crate) proof fn lemma_trim_back_bounds(s: Seq<char>, p: int, floor: int)
    requires
        0 <= p <= s.len(),
    ensures
        0 <= trim_back(s, p, floor) <= p,
        p > floor ==> trim_back(s, p, floor) >= floor,
        trim_back(s, p, floor) > floor && trim_back(s, p, floor) > 0 ==> s[trim_back(s, p, floor) - 1]
            != '/',
    decreases p,
{
    if p <= floor || p <= 0 {
    } else if s[p - 1] == '/' {
        lemma_trim_back_bounds(s, p - 1, floor);
    } else if s[p - 1] == '.' && (p == 1 || s[p - 2] == '/') {
        lemma_trim_back_bounds(s, p - 1, floor);
    } else {
    }
}

pub(crate) proof fn lemma_component_start_bounds(s: Seq<char>, e: int)
    requires
        0 <= e <= s.len(),
    ensures
        0 <= component_start(s, e) <= e,
        forall|i: int| component_start(s, e) <= i < e ==> s[i] != '/',
    decreases e,
{
    if e > 0 && s[e - 1] != '/' {
        lemma_component_start_bounds(s, e - 1);
    }
}

pub(crate) proof fn lemma_last_dot_bounds(f: Seq<char>, i: int)
    requires
        0 <= i <= f.len(),
    ensures
        -1 <= last_dot(f, i) < i,
        last_dot(f, i) >= 0 ==> f[last_dot(f, i)] == '.',
        forall|j: int| last_dot(f, i) < j < i ==> f[j] != '.',
    decreases i,
{
    if i > 0 && f[i - 1] != '.' {
        lemma_last_dot_bounds(f, i - 1);
    }
}

pub(crate) proof fn lemma_component_start_at_separator(s: Seq<char>, b: int, e: int)
    requires
        0 <= b <= e <= s.len(),
        b == 0 || s[b - 1] == '/',
        forall|i: int| b <= i < e ==> s[i] != '/',
    ensures
        component_start(s, e) == b,
    decreases e,
{
    if e > b {
        lemma_component_start_at_separator(s, b, e - 1);
    }
}

/// The final component of a path is never empty and holds no separator.
pub proof fn lemma_file_name_is_plain(s: Seq<char>)
    ensures
        spec_file_name(s) matches Some(f) ==> f.len() > 0 && forall|i: int| 0 <= i < f.len() ==> f[i] != '/',
{
    let e = trim_back(s, s.len() as int, 0);
    lemma_trim_back_bounds(s, s.len() as int, 0);
    if e != 0 {
        lemma_component_start_bounds(s, e);
        assert(s[e - 1] != '/');
        lemma_component_start_bounds(s, e - 1);
        assert(component_start(s, e) == component_start(s, e - 1));
    }
}

/// Joining a directory with a name that holds no separator and does not
/// end in '.' gives a path whose final component is that name.
pub proof fn lemma_file_name_of_join(dir: Seq<char>, name: Seq<char>)
    requires
        name.len() > 0,
        forall|i: int| 0 <= i < name.len() ==> name[i] != '/',
        name[name.len() - 1] != '.',
    ensures
        spec_file_name(spec_join(dir, name)) == Some(name),
{
    reveal_strlit("/");
    reveal_strlit("..");
    let s = spec_join(dir, name);
    let n = name.len() as int;
    let b = s.len() - n;
    if dir.len() == 0 {
        assert(s =~= name);
    } else if dir[dir.len() - 1] == '/' {
        assert(s =~= dir + name);
        assert(s[b - 1] == dir[dir.len() - 1]);
    } else {
        assert(s =~= dir + "/"@ + name);
        assert(s[b - 1] == '/');
    }
    assert(s.subrange(b, s.len() as int) =~= name);
    assert(forall|i: int| b <= i < s.len() ==> s[i] == name[i - b]);
    assert(trim_back(s, s.len() as int, 0) == s.len());
    lemma_component_start_at_separator(s, b, s.len() as int);
    assert(name != ".."@) by {
        if name == ".."@ {
            assert(name[1] == '.');
        }
    }
}

/// `trim_back` reads nothing at or beyond `p`: on a string that agrees
/// with `s` below `p` it gives the same end.
proof fn lemma_trim_back_prefix(s: Seq<char>, t: Seq<char>, p: int, floor: int)
    requires
        0 <= p <= s.len(),
        p <= t.len(),
        forall|i: int| 0 <= i < p ==> s[i] == t[i],
    ensures
        trim_back(s, p, floor) == trim_back(t, p, floor),
    decreases p,
{
    if p > floor && p > 0 {
        lemma_trim_back_prefix(s, t, p - 1, floor);
    }
}

/// Where `trim_back` stops, nothing more is trimmed.
proof fn lemma_trim_back_stops(s: Seq<char>, p: int, floor: int)
    requires
        0 <= p <= s.len(),
    ensures
        ({
            let q = trim_back(s, p, floor);
            &&& q <= floor || q <= 0 || (s[q - 1] != '/' && !(s[q - 1] == '.' && (q == 1 || s[q - 2] == '/')))
            &&& trim_back(s, q, floor) == q
        }),
    decreases p,
{
    if p > floor && p > 0 && (s[p - 1] == '/' || (s[p - 1] == '.' && (p == 1 || s[p - 2] == '/'))) {
        lemma_trim_back_stops(s, p - 1, floor);
    }
}

/// A directory as `spec_parent` gives it: empty, the root, or a path
/// whose end no trimming removes (no trailing separator and no trailing
/// "." component, "." itself aside).
pub open spec fn is_trimmed_dir(d: Seq<char>) -> bool {
    ||| d.len() == 0
    ||| d == "/"@
    ||| d[d.len() - 1] != '/' && trim_back(d, d.len() as int, body_floor(d)) == d.len()
}

/// The parent of a path is a trimmed directory.
pub proof fn lemma_parent_is_trimmed(s: Seq<char>)
    ensures
        spec_parent(s) matches Some(d) ==> is_trimmed_dir(d),
{
    reveal_strlit("/");
    let e = trim_back(s, s.len() as int, 0);
    lemma_trim_back_bounds(s, s.len() as int, 0);
    if e != 0 {
        let cs = component_start(s, e);
        lemma_component_start_bounds(s, e);
        let f = body_floor(s);
        let q = trim_back(s, cs, f);
        lemma_trim_back_bounds(s, cs, f);
        let d = s.subrange(0, q);
        lemma_trim_back_stops(s, cs, f);
        if q > 0 {
            if q > f {
                lemma_trim_back_prefix(s, d, q, body_floor(d));
                if q >= 2 {
                    assert(body_floor(d) == f);
                }
                assert(d[q - 1] == s[q - 1]);
            } else {
                assert(q == 1);
                if s[0] == '/' {
                    assert(d =~= "/"@);
                } else {
                    assert(d[0] == '.');
                }
            }
        }
    }
}

/// Joining a plain name to a trimmed directory and taking the parent
/// gives the directory back.
pub proof fn lemma_parent_of_join(dir: Seq<char>, name: Seq<char>)
    requires
        is_trimmed_dir(dir),
        name.len() > 0,
        forall|i: int| 0 <= i < name.len() ==> name[i] != '/',
        name[name.len() - 1] != '.',
    ensures
        spec_parent(spec_join(dir, name)) == Some(dir),
{
    reveal_strlit("/");
    let s = spec_join(dir, name);
    let n = name.len() as int;
    let b = s.len() - n;
    if dir.len() == 0 {
        assert(s =~= name);
    } else if dir[dir.len() - 1] == '/' {
        assert(dir =~= "/"@);
        assert(s =~= dir + name);
    } else {
        assert(s =~= dir + "/"@ + name);
        assert(s[b - 1] == '/');
    }
    assert(forall|i: int| b <= i < s.len() ==> s[i] == name[i - b]);
    assert(trim_back(s, s.len() as int, 0) == s.len());
    lemma_component_start_at_separator(s, b, s.len() as int);
    if dir.len() == 0 {
        assert(s.subrange(0, 0) =~= dir);
    } else if dir[dir.len() - 1] == '/' {
        assert(body_floor(s) == 1);
        assert(s.subrange(0, 1) =~= dir);
    } else {
        let f = body_floor(s);
        assert(f == body_floor(dir));
        assert(forall|i: int| 0 <= i < dir.len() ==> s[i] == dir[i]);
        lemma_trim_back_prefix(dir, s, dir.len() as int, f);
        assert(trim_back(s, b, f) == trim_back(s, dir.len() as int, f));
        assert(s.subrange(0, dir.len() as int) =~= dir);
    }
}

/// Computes `trim_back(s@, p, floor)`.
fn trim_back_exec(s: &str, p: usize, floor: usize) -> (r: usize)
    requires
        p <= s@.len(),
    ensures
        r == trim_back(s@, p as int, floor as int),
        r <= p,
{
    let mut q = p;
    while q > floor && q > 0
        invariant
            q <= p <= s@.len(),
            trim_back(s@, q as int, floor as int) == trim_back(s@, p as int, floor as int),
        ensures
            q == trim_back(s@, p as int, floor as int),
        decreases q,
    {
        let c = s.get_char(q - 1);
        if c == '/' {
            q = q - 1;
        } else if c == '.' && (q == 1 || s.get_char(q - 2) == '/') {
            q = q - 1;
        } else {
            break;
        }
    }
    q
}

/// Computes `component_start(s@, e)`.
fn component_start_exec(s: &str, e: usize) -> (r: usize)
    requires
        e <= s@.len(),
    ensures
        r == component_start(s@, e as int),
        r <= e,
{
    let mut b = e;
    while b > 0
        invariant
            b <= e <= s@.len(),
            component_start(s@, b as int) == component_start(s@, e as int),
        ensures
            b == component_start(s@, e as int),
        decreases b,
    {
        if s.get_char(b - 1) == '/' {
            break;
        }
        b = b - 1;
    }
    b
}

/// Computes `last_dot(f@, f@.len())`, returning `None` for -1.
fn last_dot_exec(f: &str) -> (r: Option<usize>)
    ensures
        match r {
            Some(k) => k as int == last_dot(f@, f@.len() as int),
            None => last_dot(f@, f@.len() as int) == -1,
        },
{
    let n = f.unicode_len();
    let mut i = n;
    while i > 0
        invariant
            i <= n == f@.len(),
            last_dot(f@, i as int) == last_dot(f@, n as int),
        decreases i,
    {
        if f.get_char(i - 1) == '.' {
            return Some(i - 1);
        }
        i = i - 1;
    }
    None
}

/// Whether the string is exactly "..".
fn is_dot_dot(c: &str) -> (r: bool)
    ensures
        r == (c@ == ".."@),
{
    proof {
        reveal_strlit("..");
    }
    let n = c.unicode_len();
    if n != 2 {
        assert(c@.len() != ".."@.len());
        return false;
    }
    let r = c.get_char(0) == '.' && c.get_char(1) == '.';
    if r {
        assert(c@ =~= ".."@);
    }
    r
}

/// Final component of `path` (see `spec_file_name`).
pub fn file_name(path: &str) -> (r: Option<String>)
    ensures
        r.deep_view() == spec_file_name(path@),
{
    let n = path.unicode_len();
    let e = trim_back_exec(path, n, 0);
    if e == 0 {
        return None;
    }
    let b = component_start_exec(path, e);
    let c = path.substring_char(b, e);
    if is_dot_dot(c) {
        None
    } else {
        Some(String::from_str(c))
    }
}

/// Path without its final component (see `spec_parent`).
pub fn parent(path: &str) -> (r: Option<String>)
    ensures
        r.deep_view() == spec_parent(path@),
{
    let n = path.unicode_len();
    let e = trim_back_exec(path, n, 0);
    if e == 0 {
        if n > 0 && path.get_char(0) != '/' {
            let r = String::new();
            assert(r@ =~= Seq::<char>::empty());
            return Some(r);
        } else {
            return None;
        }
    }
    let b = component_start_exec(path, e);
    let floor: usize = if n > 0 && path.get_char(0) == '/' {
        1
    } else if n > 0 && path.get_char(0) == '.' && (n == 1 || path.get_char(1) == '/') {
        1
    } else {
        0
    };
    assert(floor as int == body_floor(path@));
    let q = trim_back_exec(path, b, floor);
    Some(String::from_str(path.substring_char(0, q)))
}

/// Extension of the final component of `path` (see `spec_extension`).
pub fn extension(path: &str) -> (r: Option<String>)
    ensures
        r.deep_view() == spec_extension(path@),
{
    match file_name(path) {
        None => None,
        Some(f) => {
            let fs = f.as_str();
            proof {
                lemma_last_dot_bounds(fs@, fs@.len() as int);
            }
            match last_dot_exec(fs) {
                Some(k) => {
                    if k == 0 {
                        None
                    } else {
                        let n = fs.unicode_len();
                        Some(String::from_str(fs.substring_char(k + 1, n)))
                    }
                },
                None => None,
            }
        },
    }
}

/// Stem of the final component of `path` (see `spec_file_stem`).
pub fn file_stem(path: &str) -> (r: Option<String>)
    ensures
        r.deep_view() == spec_file_stem(path@),
{
    match file_name(path) {
        None => None,
        Some(f) => {
            proof {
                lemma_last_dot_bounds(f@, f@.len() as int);
            }
            match last_dot_exec(f.as_str()) {
                Some(k) => {
                    if k == 0 {
                        Some(f)
                    } else {
                        Some(String::from_str(f.as_str().substring_char(0, k)))
                    }
                },
                None => Some(f),
            }
        },
    }
}

/// `base` joined with the relative path `name` (see `spec_join`).
pub fn join(base: &str, name: &str) -> (r: String)
    ensures
        r@ == spec_join(base@, name@),
{
    let n = base.unicode_len();
    if n == 0 {
        String::from_str(name)
    } else if base.get_char(n - 1) == '/' {
        let mut r = String::from_str(base);
        r.append(name);
        r
    } else {
        let mut r = String::from_str(base);
        r.append("/");
        r.append(name);
        r
    }
}

} // verus!
