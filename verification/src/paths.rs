//! A lexical model of file paths: a path is a string whose components are
//! separated by `/`. Nothing here touches the file system; these functions
//! only take paths apart and put them together.

use vstd::prelude::*;
use crate::text::{chars_of, string_of, sub_chars, push_chars, starts_with_chars};

verus! {

/// The index of the last occurrence of `c` in `s`, or -1 when there is none.
pub open spec fn last_index_of(s: Seq<char>, c: char) -> int
    decreases s.len(),
{
    if s.len() == 0 {
        -1
    } else if s.last() == c {
        s.len() - 1
    } else {
        last_index_of(s.drop_last(), c)
    }
}

/// `last_index_of` names an occurrence of `c` after which `c` does not occur.
pub proof fn lemma_last_index_of(s: Seq<char>, c: char)
    ensures
        -1 <= last_index_of(s, c) < s.len(),
        last_index_of(s, c) >= 0 ==> s[last_index_of(s, c)] == c,
        forall|j: int| last_index_of(s, c) < j < s.len() ==> s[j] != c,
    decreases s.len(),
{
    if s.len() > 0 && s.last() != c {
        let t = s.drop_last();
        lemma_last_index_of(t, c);
        assert forall|j: int| last_index_of(s, c) < j < s.len() implies s[j] != c by {
            if j < t.len() {
                assert(t[j] == s[j]);
            }
        }
    }
}

/// The last component of a path: what follows its last `/`.
pub open spec fn file_name_of(path: Seq<char>) -> Seq<char> {
    path.subrange(last_index_of(path, '/') + 1, path.len() as int)
}

/// The directory part of a path: what precedes its last `/`. A path directly
/// under the root has parent `/`; a path without `/` has the empty parent.
pub open spec fn parent_of(path: Seq<char>) -> Seq<char> {
    let k = last_index_of(path, '/');
    if k < 0 {
        Seq::empty()
    } else if k == 0 {
        seq!['/']
    } else {
        path.subrange(0, k)
    }
}

/// Whether a file name carries an extension: it has a `.` that is not its
/// first character, and it is not the name `..`.
pub open spec fn has_extension(name: Seq<char>) -> bool {
    last_index_of(name, '.') > 0 && name != seq!['.', '.']
}

/// The extension of a path's file name: what follows the last `.` of the
/// name, when the name has one.
pub open spec fn extension_of(path: Seq<char>) -> Option<Seq<char>> {
    let name = file_name_of(path);
    if has_extension(name) {
        Some(name.subrange(last_index_of(name, '.') + 1, name.len() as int))
    } else {
        None
    }
}

/// The file name of a path without its extension.
pub open spec fn stem_of(path: Seq<char>) -> Seq<char> {
    let name = file_name_of(path);
    if has_extension(name) {
        name.subrange(0, last_index_of(name, '.'))
    } else {
        name
    }
}

/// `rel` placed under `root`: the two joined by exactly one added `/`, none
/// when `root` is empty or already ends in one.
pub open spec fn joined(root: Seq<char>, rel: Seq<char>) -> Seq<char> {
    if root.len() == 0 || root.last() == '/' {
        root + rel
    } else {
        root.push('/') + rel
    }
}

/// The path that replaces the file name of `path` by `name`: a sibling.
pub open spec fn sibling_of(path: Seq<char>, name: Seq<char>) -> Seq<char> {
    path.subrange(0, last_index_of(path, '/') + 1) + name
}

/// `path` is `root` itself or lies below it: `root` is a prefix of `path`
/// that ends at a component boundary.
pub open spec fn within(path: Seq<char>, root: Seq<char>) -> bool {
    root.is_prefix_of(path) && (root.len() == 0 || path.len() == root.len() || root.last() == '/'
        || path[root.len() as int] == '/')
}

/// What is left of `path` after `root` and the separator that follows it,
/// when `path` is within `root`.
pub open spec fn relative_to(path: Seq<char>, root: Seq<char>) -> Option<Seq<char>> {
    if !within(path, root) {
        None
    } else if root.len() == 0 || path.len() == root.len() || root.last() == '/' {
        Some(path.subrange(root.len() as int, path.len() as int))
    } else {
        Some(path.subrange(root.len() as int + 1, path.len() as int))
    }
}

/// Whatever is joined under a root is within that root.
pub proof fn lemma_joined_within(root: Seq<char>, rel: Seq<char>)
    ensures
        within(joined(root, rel), root),
        relative_to(joined(root, rel), root) == Some(rel),
{
    let j = joined(root, rel);
    assert(root.is_prefix_of(j)) by {
        assert(j.subrange(0, root.len() as int) =~= root);
    }
    if root.len() == 0 || root.last() == '/' {
        assert(j.subrange(root.len() as int, j.len() as int) =~= rel);
    } else {
        assert(j[root.len() as int] == '/');
        assert(j.subrange(root.len() as int + 1, j.len() as int) =~= rel);
    }
}

/// The position of the last `c` in `v`, if any.
pub fn find_last(v: &Vec<char>, c: char) -> (r: Option<usize>)
    ensures
        match r {
            Some(k) => k < v.len() && k as int == last_index_of(v@, c),
            None => last_index_of(v@, c) == -1,
        },
{
    let mut i: usize = v.len();
    assert(v@.take(v.len() as int) == v@);
    while i > 0
        invariant
            i <= v.len(),
            last_index_of(v@, c) == last_index_of(v@.take(i as int), c),
        decreases i,
    {
        if v[i - 1] == c {
            assert(v@.take(i as int).last() == c);
            return Some(i - 1);
        }
        assert(v@.take(i as int).drop_last() == v@.take(i - 1));
        i -= 1;
    }
    None
}

/// The file-name characters of a path.
pub fn file_name_chars(path: &Vec<char>) -> (r: Vec<char>)
    ensures
        r@ == file_name_of(path@),
{
    proof {
        lemma_last_index_of(path@, '/');
    }
    match find_last(path, '/') {
        Some(k) => sub_chars(path, k + 1, path.len()),
        None => sub_chars(path, 0, path.len()),
    }
}

/// Whether the file name `name` carries an extension, and where its dot is.
fn extension_dot(name: &Vec<char>) -> (r: Option<usize>)
    ensures
        match r {
            Some(k) => has_extension(name@) && k as int == last_index_of(name@, '.'),
            None => !has_extension(name@),
        },
{
    match find_last(name, '.') {
        Some(k) => {
            if k == 0 {
                None
            } else if name.len() == 2 && name[0] == '.' && name[1] == '.' {
                assert(name@ =~= seq!['.', '.']);
                None
            } else {
                assert(name@ != seq!['.', '.']) by {
                    if name@ == seq!['.', '.'] {
                        assert(name@.len() == 2);
                        assert(name@[0] == '.');
                        assert(name@[1] == '.');
                    }
                }
                Some(k)
            }
        },
        None => None,
    }
}

/// The last component of `path`.
pub fn file_name(path: &str) -> (r: String)
    ensures
        r@ == file_name_of(path@),
{
    let p = chars_of(path);
    let n = file_name_chars(&p);
    string_of(&n)
}

/// The extension of the file that `path` names, if it has one.
pub fn extension(path: &str) -> (r: Option<String>)
    ensures
        match r {
            Some(e) => extension_of(path@) == Some(e@),
            None => extension_of(path@) is None,
        },
{
    let p = chars_of(path);
    let name = file_name_chars(&p);
    proof {
        lemma_last_index_of(name@, '.');
    }
    match extension_dot(&name) {
        Some(k) => {
            let e = sub_chars(&name, k + 1, name.len());
            Some(string_of(&e))
        },
        None => None,
    }
}

/// The file name of `path` without its extension.
pub fn file_stem(path: &str) -> (r: String)
    ensures
        r@ == stem_of(path@),
{
    let p = chars_of(path);
    let name = file_name_chars(&p);
    proof {
        lemma_last_index_of(name@, '.');
    }
    match extension_dot(&name) {
        Some(k) => {
            let e = sub_chars(&name, 0, k);
            string_of(&e)
        },
        None => string_of(&name),
    }
}

/// The directory that holds `path`.
pub fn parent(path: &str) -> (r: String)
    ensures
        r@ == parent_of(path@),
{
    let p = chars_of(path);
    proof {
        lemma_last_index_of(p@, '/');
    }
    match find_last(&p, '/') {
        Some(k) => {
            if k == 0 {
                let mut v: Vec<char> = Vec::new();
                v.push('/');
                assert(v@ =~= seq!['/']);
                string_of(&v)
            } else {
                let d = sub_chars(&p, 0, k);
                string_of(&d)
            }
        },
        None => {
            let v: Vec<char> = Vec::new();
            assert(v@ =~= Seq::<char>::empty());
            string_of(&v)
        },
    }
}

/// `rel` placed under `root`.
pub fn join(root: &str, rel: &str) -> (r: String)
    ensures
        r@ == joined(root@, rel@),
{
    let mut v = chars_of(root);
    let tail = chars_of(rel);
    if v.len() > 0 && v[v.len() - 1] != '/' {
        v.push('/');
    }
    push_chars(&mut v, &tail);
    string_of(&v)
}

/// The sibling of `path` that is called `name`.
pub fn sibling(path: &str, name: &str) -> (r: String)
    ensures
        r@ == sibling_of(path@, name@),
{
    let p = chars_of(path);
    let n = chars_of(name);
    proof {
        lemma_last_index_of(p@, '/');
    }
    let mut v = match find_last(&p, '/') {
        Some(k) => sub_chars(&p, 0, k + 1),
        None => sub_chars(&p, 0, 0),
    };
    push_chars(&mut v, &n);
    string_of(&v)
}

/// Whether the characters `path` lie within `root`.
pub fn within_chars(path: &Vec<char>, root: &Vec<char>) -> (r: bool)
    ensures
        r == within(path@, root@),
{
    if !starts_with_chars(path, root) {
        return false;
    }
    root.len() == 0 || path.len() == root.len() || root[root.len() - 1] == '/' || path[root.len()]
        == '/'
}

/// Whether `path` is `root` or lies below it.
pub fn is_within(path: &str, root: &str) -> (r: bool)
    ensures
        r == within(path@, root@),
{
    let p = chars_of(path);
    let q = chars_of(root);
    within_chars(&p, &q)
}

/// `path` as seen from `root`, when it lies within it.
pub fn strip_root(path: &str, root: &str) -> (r: Option<String>)
    ensures
        match r {
            Some(rel) => relative_to(path@, root@) == Some(rel@),
            None => relative_to(path@, root@) is None,
        },
{
    let p = chars_of(path);
    let q = chars_of(root);
    if !within_chars(&p, &q) {
        return None;
    }
    let from: usize = if q.len() == 0 || p.len() == q.len() || q[q.len() - 1] == '/' {
        q.len()
    } else {
        q.len() + 1
    };
    let rel = sub_chars(&p, from, p.len());
    Some(string_of(&rel))
}

/// The name that a path lends to what is made from it: its stem, or
/// `fallback` where it has no file name of its own.
pub open spec fn base_name_of(path: Seq<char>, fallback: Seq<char>) -> Seq<char> {
    if file_name_of(path).len() == 0 || file_name_of(path) == seq!['.', '.'] {
        fallback
    } else {
        stem_of(path)
    }
}

/// A path has a parent unless it is empty or made of `/` alone.
pub open spec fn has_parent(path: Seq<char>) -> bool {
    exists|i: int| 0 <= i < path.len() && path[i] != '/'
}

/// Whether `path` has a parent directory.
pub fn path_has_parent(path: &str) -> (r: bool)
    ensures
        r == has_parent(path@),
{
    let p = chars_of(path);
    let mut i: usize = 0;
    while i < p.len()
        invariant
            i <= p.len(),
            p@ == path@,
            forall|j: int| 0 <= j < i ==> p@[j] == '/',
        decreases p.len() - i,
    {
        if p[i] != '/' {
            assert(0 <= i < path@.len() && path@[i as int] != '/');
            return true;
        }
        i += 1;
    }
    false
}

/// The stem of `path`, or `fallback` where the path has no file name.
pub fn base_name(path: &str, fallback: &str) -> (r: String)
    ensures
        r@ == base_name_of(path@, fallback@),
{
    let name = file_name(path);
    let n = chars_of(name.as_str());
    if n.len() == 0 {
        fallback.to_owned()
    } else if n.len() == 2 && n[0] == '.' && n[1] == '.' {
        assert(n@ =~= seq!['.', '.']);
        fallback.to_owned()
    } else {
        assert(n@ != seq!['.', '.']) by {
            if n@ == seq!['.', '.'] {
                assert(n@.len() == 2 && n@[0] == '.' && n@[1] == '.');
            }
        }
        file_stem(path)
    }
}

/// The name of a path, or `fallback` where it has none of its own: where it
/// ends in `/` or in `..`.
pub open spec fn own_name_of(path: Seq<char>, fallback: Seq<char>) -> Seq<char> {
    if file_name_of(path).len() == 0 || file_name_of(path) == seq!['.', '.'] {
        fallback
    } else {
        file_name_of(path)
    }
}

/// The name of a path, or `fallback` where it has none.
pub fn own_name(path: &str, fallback: &str) -> (r: String)
    ensures
        r@ == own_name_of(path@, fallback@),
{
    let name = file_name(path);
    let n = chars_of(name.as_str());
    if n.len() == 0 {
        fallback.to_owned()
    } else if n.len() == 2 && n[0] == '.' && n[1] == '.' {
        assert(n@ =~= seq!['.', '.']);
        fallback.to_owned()
    } else {
        assert(n@ != seq!['.', '.']) by {
            if n@ == seq!['.', '.'] {
                assert(n@.len() == 2 && n@[0] == '.' && n@[1] == '.');
            }
        }
        name
    }
}

} // verus!
