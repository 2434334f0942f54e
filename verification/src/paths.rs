//! File system paths held as text with `/` between components, and the parts of
//! `std::path` that the library uses, stated over that text. As `Path` does, a path's
//! trailing separators and the `.` components at its end are not components of it.
use vstd::prelude::*;
use crate::text::{chars_of, last_index, lemma_last_index, rfind_char, string_from, string_from_range, str_eq};

verus! {

/// Separates the components of a path.
pub const PATH_SEPARATOR: char = '/';

/// Whether `p` starts at the root.
pub open spec fn is_absolute(p: Seq<char>) -> bool {
    p.len() > 0 && p[0] == '/'
}

/// `p` appended to `root`, as `Path::join` does: an absolute `p` replaces the root.
pub open spec fn joined(root: Seq<char>, p: Seq<char>) -> Seq<char> {
    if is_absolute(p) || root.len() == 0 {
        p
    } else if root.last() == '/' {
        root + p
    } else {
        root + seq!['/'] + p
    }
}

/// `p` without the trailing separators and the trailing `.` components that `Path`
/// does not count as components; the root `/`, and a `.` that is the whole path or its
/// first component, stay.
pub open spec fn trimmed(p: Seq<char>) -> Seq<char>
    decreases p.len(),
{
    if p.len() > 1 && (p.last() == '/' || (p.last() == '.' && p[p.len() - 2] == '/')) {
        trimmed(p.drop_last())
    } else {
        p
    }
}

/// What follows the last separator of `t`, or all of `t` without one.
pub open spec fn last_component(t: Seq<char>) -> Seq<char> {
    match last_index(t, '/') {
        None => t,
        Some(i) => t.skip(i + 1),
    }
}

/// The parent directory of `p`, as `Path::parent` gives it: none for the empty path and
/// for the root; otherwise the path before its last component, itself without trailing
/// separators and `.` components (the empty path for a single relative component).
pub open spec fn parent(p: Seq<char>) -> Option<Seq<char>> {
    let t = trimmed(p);
    if t.len() == 0 || t == seq!['/'] {
        None
    } else {
        match last_index(t, '/') {
            None => Some(Seq::<char>::empty()),
            Some(i) => Some(trimmed(t.take(i + 1))),
        }
    }
}

/// The last component of `p`, as `Path::file_name` gives it: none when there is none,
/// or when it is `.` or `..`.
pub open spec fn file_name(p: Seq<char>) -> Option<Seq<char>> {
    let last = last_component(trimmed(p));
    if last.len() == 0 || last == seq!['.'] || last == seq!['.', '.'] {
        None
    } else {
        Some(last)
    }
}

/// The trimmed form of a path is a prefix of it, and not empty unless the path is.
pub proof fn lemma_trimmed_prefix(p: Seq<char>)
    ensures
        trimmed(p).len() <= p.len(),
        trimmed(p) == p.take(trimmed(p).len() as int),
        p.len() > 0 ==> trimmed(p).len() > 0,
        trimmed(p).len() > 1 ==> trimmed(p).last() != '/',
    decreases p.len(),
{
    if p.len() > 1 && (p.last() == '/' || (p.last() == '.' && p[p.len() - 2] == '/')) {
        lemma_trimmed_prefix(p.drop_last());
        let t = trimmed(p.drop_last());
        assert(t =~= p.take(t.len() as int));
    } else {
        assert(p.take(p.len() as int) =~= p);
    }
}

/// A parent is shorter than its path, and a relative path's non-empty parent starts
/// with the same character.
pub proof fn lemma_parent_shorter(p: Seq<char>)
    ensures
        parent(p) matches Some(d) ==> d.len() < p.len() && (d.len() > 0 ==> d[0] == p[0]),
{
    let t = trimmed(p);
    lemma_trimmed_prefix(p);
    lemma_last_index(t, '/');
    if t.len() > 0 && t != seq!['/'] {
        if let Some(i) = last_index(t, '/') {
            let h = t.take(i + 1);
            lemma_trimmed_prefix(h);
            if t.len() == 1 {
                assert(t[0] == '/');
                assert(t =~= seq!['/']);
            }
            assert(i + 1 < t.len());
            if trimmed(h).len() > 0 {
                assert(trimmed(h)[0] == h[0]);
                assert(h[0] == t[0]);
                assert(t[0] == p[0]);
            }
        }
    }
}

/// A file name without its extension, as `Path::file_stem` gives it: a leading dot does
/// not start an extension.
pub open spec fn stem(name: Seq<char>) -> Seq<char> {
    match last_index(name, '.') {
        Some(i) => if i > 0 { name.take(i) } else { name },
        None => name,
    }
}

/// The extension of `p`, as `Path::extension` gives it.
pub open spec fn extension(p: Seq<char>) -> Option<Seq<char>> {
    match file_name(p) {
        None => None,
        Some(name) => match last_index(name, '.') {
            Some(i) => if i > 0 { Some(name.skip(i + 1)) } else { None },
            None => None,
        },
    }
}

/// `p` appended to `root`, as `Path::join` does.
pub fn join_path(root: &str, p: &str) -> (r: String)
    ensures
        r@ == joined(root@, p@),
{
    let pv = chars_of(p);
    let rv = chars_of(root);
    if (pv.len() > 0 && pv[0] == PATH_SEPARATOR) || rv.len() == 0 {
        return p.to_owned();
    }
    let mut r = root.to_owned();
    if rv[rv.len() - 1] != PATH_SEPARATOR {
        r.append("/");
        proof {
            reveal_strlit("/");
        }
    }
    r.append(p);
    r
}

/// `p` without its trailing separators and trailing `.` components, as characters.
fn trim_path(p: &str) -> (r: Vec<char>)
    ensures
        r@ == trimmed(p@),
{
    let v = chars_of(p);
    let mut end: usize = v.len();
    assert(v@.take(end as int) =~= v@);
    while end > 1 && (v[end - 1] == PATH_SEPARATOR || (v[end - 1] == '.' && v[end - 2] == PATH_SEPARATOR))
        invariant
            end <= v@.len(),
            v@ == p@,
            trimmed(p@) == trimmed(v@.take(end as int)),
        decreases end,
    {
        let ghost w = v@.take(end as int);
        assert(w.last() == v@[end - 1] && w[w.len() - 2] == v@[end - 2]);
        assert(w.drop_last() =~= v@.take(end - 1));
        end = end - 1;
    }
    let ghost w = v@.take(end as int);
    assert(w.len() > 1 ==> w.last() == v@[end - 1] && w[w.len() - 2] == v@[end - 2]);
    let r = string_from_range(&v, 0, end);
    assert(v@.subrange(0, end as int) =~= w);
    chars_of(r.as_str())
}

/// `p` without its trailing separators and trailing `.` components.
pub(crate) fn trimmed_path(p: &str) -> (r: String)
    ensures
        r@ == trimmed(p@),
{
    let v = trim_path(p);
    string_from(&v)
}

/// The parent directory of `p`.
pub fn path_parent(p: &str) -> (r: Option<String>)
    ensures
        r matches Some(s) ==> parent(p@) == Some(s@),
        r is None ==> parent(p@) is None,
{
    let t = trim_path(p);
    if t.len() == 0 || (t.len() == 1 && t[0] == PATH_SEPARATOR) {
        proof {
            if t.len() == 1 {
                assert(t@ =~= seq!['/']);
            }
        }
        return None;
    }
    assert(t@ != seq!['/']) by {
        if t@ == seq!['/'] {
            assert(t@.len() == 1);
        }
    }
    match rfind_char(&t, PATH_SEPARATOR) {
        None => Some(String::new()),
        Some(i) => {
            let head = string_from_range(&t, 0, i + 1);
            assert(t@.subrange(0, i + 1) =~= t@.take(i + 1));
            Some(trimmed_path(head.as_str()))
        },
    }
}

/// The last component of `p`.
pub fn path_file_name(p: &str) -> (r: Option<String>)
    ensures
        r matches Some(s) ==> file_name(p@) == Some(s@),
        r is None ==> file_name(p@) is None,
{
    let v = trim_path(p);
    let start = match rfind_char(&v, PATH_SEPARATOR) {
        None => 0,
        Some(i) => i + 1,
    };
    let last = string_from_range(&v, start, v.len());
    assert(last@ == last_component(v@)) by {
        if start == 0 {
            assert(v@.subrange(0, v@.len() as int) =~= v@);
        } else {
            assert(v@.subrange(start as int, v@.len() as int) =~= v@.skip(start as int));
        }
    }
    proof {
        reveal_strlit("..");
        reveal_strlit(".");
        assert(".."@ =~= seq!['.', '.']);
        assert("."@ =~= seq!['.']);
    }
    if start == v.len() || str_eq(last.as_str(), ".") || str_eq(last.as_str(), "..") {
        proof {
            if start == v.len() {
                assert(last@.len() == 0);
            }
        }
        None
    } else {
        Some(last)
    }
}

/// A file name without its extension.
pub fn file_stem_of(name: &str) -> (r: String)
    ensures
        r@ == stem(name@),
{
    let v = chars_of(name);
    match rfind_char(&v, '.') {
        Some(i) => {
            if i > 0 {
                let r = string_from_range(&v, 0, i);
                assert(v@.subrange(0, i as int) =~= v@.take(i as int));
                r
            } else {
                name.to_owned()
            }
        },
        None => name.to_owned(),
    }
}

/// The extension of `p`.
pub fn path_extension(p: &str) -> (r: Option<String>)
    ensures
        r matches Some(s) ==> extension(p@) == Some(s@),
        r is None ==> extension(p@) is None,
{
    match path_file_name(p) {
        None => None,
        Some(name) => {
            let v = chars_of(name.as_str());
            match rfind_char(&v, '.') {
                Some(i) => {
                    assert(i < v@.len());
                    if i > 0 {
                        let r = string_from_range(&v, i + 1, v.len());
                        assert(v@.subrange(i + 1, v@.len() as int) =~= v@.skip(i + 1));
                        Some(r)
                    } else {
                        None
                    }
                },
                None => None,
            }
        },
    }
}


/// The part of `p` before its last component, with the separator that ends it.
pub open spec fn dir_prefix(p: Seq<char>) -> Seq<char> {
    match last_index(p, '/') {
        None => Seq::<char>::empty(),
        Some(i) => p.take(i + 1),
    }
}

/// The extension of a file name with its dot; empty when it has none.
pub open spec fn dotted_extension(name: Seq<char>) -> Seq<char> {
    match last_index(name, '.') {
        Some(i) => if i > 0 { name.skip(i) } else { Seq::<char>::empty() },
        None => Seq::<char>::empty(),
    }
}

/// `p` with the extension of its file name replaced by `ext`, or taken away when `ext`
/// is empty, as `Path::with_extension` does; unchanged without a file name.
pub open spec fn with_extension(p: Seq<char>, ext: Seq<char>) -> Seq<char> {
    match file_name(p) {
        None => p,
        Some(n) => dir_prefix(trimmed(p)) + stem(n) + (if ext.len() == 0 { Seq::<char>::empty() } else { seq!['.'] + ext }),
    }
}

/// The directory part of `p` and its last component.
pub fn split_last(p: &str) -> (r: (String, String))
    ensures
        r.0@ == dir_prefix(p@),
        r.1@ == (match last_index(p@, '/') {
            None => p@,
            Some(i) => p@.skip(i + 1),
        }),
{
    let v = chars_of(p);
    match rfind_char(&v, PATH_SEPARATOR) {
        None => {
            assert(v@.subrange(0, v@.len() as int) =~= v@);
            (String::new(), string_from_range(&v, 0, v.len()))
        },
        Some(i) => {
            let head = string_from_range(&v, 0, i + 1);
            let last = string_from_range(&v, i + 1, v.len());
            assert(v@.subrange(0, i + 1) =~= v@.take(i + 1));
            assert(v@.subrange(i + 1, v@.len() as int) =~= v@.skip(i + 1));
            (head, last)
        },
    }
}

/// The extension of a file name with its dot; empty when it has none.
pub fn dotted_extension_of(name: &str) -> (r: String)
    ensures
        r@ == dotted_extension(name@),
{
    let v = chars_of(name);
    match rfind_char(&v, '.') {
        Some(i) => {
            if i > 0 {
                let r = string_from_range(&v, i, v.len());
                assert(v@.subrange(i as int, v@.len() as int) =~= v@.skip(i as int));
                r
            } else {
                String::new()
            }
        },
        None => String::new(),
    }
}

/// `p` with the extension of its file name replaced by `ext`.
pub fn path_with_extension(p: &str, ext: &str) -> (r: String)
    ensures
        r@ == with_extension(p@, ext@),
{
    let name = match path_file_name(p) {
        None => return p.to_owned(),
        Some(n) => n,
    };
    let t = trimmed_path(p);
    let (head, _last) = split_last(t.as_str());
    let mut r = head;
    r.append(file_stem_of(name.as_str()).as_str());
    if !ext.is_empty() {
        r.append(".");
        proof {
            reveal_strlit(".");
        }
        r.append(ext);
    }
    proof {
        if ext@.len() == 0 {
            assert(r@ =~= with_extension(p@, ext@));
        } else {
            assert(r@ =~= with_extension(p@, ext@));
        }
    }
    r
}

} // verus!
