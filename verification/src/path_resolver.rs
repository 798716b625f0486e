//! Containment-checked path resolution. A relative name that comes from
//! outside (an archive entry, a catalogue record) is first neutralised, then
//! placed under the workspace root, and finally accepted or rejected on what
//! the file system said about the resulting path.

use vstd::prelude::*;
use crate::paths::{joined, within, within_chars, lemma_joined_within};
use crate::text::{chars_of, string_of, contains_seq, contains_chars, occurs_at, push_chars};

verus! {

/// The two characters that separate path components in names from outside.
pub open spec fn is_separator(c: char) -> bool {
    c == '/' || c == '\\'
}

/// The token that climbs to a parent directory.
pub open spec fn parent_token() -> Seq<char> {
    seq!['.', '.', '/']
}

/// Two dots in a row: the mark of a parent reference.
pub open spec fn two_dots() -> Seq<char> {
    seq!['.', '.']
}

/// `s` without the separators it begins with.
pub open spec fn without_leading_separators(s: Seq<char>) -> Seq<char>
    decreases s.len(),
{
    if s.len() > 0 && is_separator(s[0]) {
        without_leading_separators(s.drop_first())
    } else {
        s
    }
}

/// `s` with every backslash turned into a forward slash.
pub open spec fn forward_slashes(s: Seq<char>) -> Seq<char> {
    Seq::new(s.len(), |i: int| if s[i] == '\\' { '/' } else { s[i] })
}

/// `s` with parent tokens removed until none is left. The characters are
/// taken in order; whenever the text kept so far ends in `../`, that token is
/// dropped, so tokens that only form once an inner one is gone leave too.
pub open spec fn without_parent_tokens(s: Seq<char>) -> Seq<char>
    decreases s.len(),
{
    if s.len() == 0 {
        s
    } else {
        let kept = without_parent_tokens(s.drop_last()).push(s.last());
        if parent_token().is_suffix_of(kept) {
            kept.subrange(0, kept.len() - 3)
        } else {
            kept
        }
    }
}

/// The neutralised form of a name from outside: leading separators
/// stripped, backslashes normalised, parent tokens removed.
pub open spec fn sanitized(name: Seq<char>) -> Seq<char> {
    without_parent_tokens(forward_slashes(without_leading_separators(name)))
}

/// `b` is `a` with one parent token cut out.
pub open spec fn cuts_one_token(a: Seq<char>, b: Seq<char>) -> bool {
    exists|i: int| #[trigger]
        occurs_at(a, parent_token(), i) && b == a.subrange(0, i) + a.subrange(
            i + 3,
            a.len() as int,
        )
}

/// `b` is reached from `a` by cutting out one parent token at a time,
/// `steps` times.
pub open spec fn cuts_tokens(a: Seq<char>, b: Seq<char>, steps: nat) -> bool
    decreases steps,
{
    if steps == 0 {
        a == b
    } else {
        exists|m: Seq<char>| #[trigger] cuts_one_token(a, m) && cuts_tokens(m, b, (steps - 1) as nat)
    }
}

/// What the file system said about a path that is about to be used.
pub enum PathProbe {
    /// The path exists; this is its canonical absolute form.
    Canonical(String),
    /// The path does not exist yet; these are the ancestor directories of it
    /// that do exist, nearest first.
    Missing(Vec<String>),
}

/// The error of a name that resolves outside its root.
#[derive(Debug)]
pub struct PathTraversal {
    /// The offending name, as it was given.
    pub candidate: String,
}

/// One of the existing ancestors is the root or lies below it.
pub open spec fn some_ancestor_within(ancestors: Seq<String>, root: Seq<char>) -> bool {
    exists|i: int| 0 <= i < ancestors.len() && within(#[trigger] ancestors[i]@, root)
}

/// The path that `candidate` resolves to under `root`, or `None` when it is
/// rejected. A path that exists must canonicalise to within the root. A
/// path that does not exist yet is accepted on an existing ancestor within
/// the root, or else only if its neutralised name holds no `..` at all.
pub open spec fn resolution(root: Seq<char>, candidate: Seq<char>, probe: PathProbe) -> Option<
    Seq<char>,
> {
    match probe {
        PathProbe::Canonical(canonical) => if within(canonical@, root) {
            Some(canonical@)
        } else {
            None
        },
        PathProbe::Missing(ancestors) => if some_ancestor_within(ancestors@, root) || !contains_seq(
            sanitized(candidate),
            two_dots(),
        ) {
            Some(joined(root, sanitized(candidate)))
        } else {
            None
        },
    }
}

/// Appending a character keeps every occurrence of a pattern that was there.
proof fn lemma_occurs_after_push(s: Seq<char>, pat: Seq<char>, i: int, c: char)
    requires
        occurs_at(s, pat, i),
    ensures
        occurs_at(s.push(c), pat, i),
{
    assert(s.push(c).subrange(i, i + pat.len()) =~= s.subrange(i, i + pat.len()));
}

/// A cut that can be made in a text can be made when a character follows it.
proof fn lemma_cut_before_push(a: Seq<char>, b: Seq<char>, c: char)
    requires
        cuts_one_token(a, b),
    ensures
        cuts_one_token(a.push(c), b.push(c)),
{
    let i = choose|i: int| #[trigger]
        occurs_at(a, parent_token(), i) && b == a.subrange(0, i) + a.subrange(
            i + 3,
            a.len() as int,
        );
    lemma_occurs_after_push(a, parent_token(), i, c);
    let longer = a.push(c);
    assert(b.push(c) =~= longer.subrange(0, i) + longer.subrange(i + 3, longer.len() as int));
}

/// Cuts that can be made in a text can be made when a character follows it.
proof fn lemma_cuts_before_push(a: Seq<char>, b: Seq<char>, steps: nat, c: char)
    requires
        cuts_tokens(a, b, steps),
    ensures
        cuts_tokens(a.push(c), b.push(c), steps),
    decreases steps,
{
    if steps > 0 {
        let m = choose|m: Seq<char>| #[trigger]
            cuts_one_token(a, m) && cuts_tokens(m, b, (steps - 1) as nat);
        lemma_cut_before_push(a, m, c);
        lemma_cuts_before_push(m, b, (steps - 1) as nat, c);
        assert(cuts_one_token(a.push(c), m.push(c)) && cuts_tokens(
            m.push(c),
            b.push(c),
            (steps - 1) as nat,
        ));
    }
}

/// One more cut after a run of cuts is a run of cuts.
proof fn lemma_cuts_then_cut(a: Seq<char>, b: Seq<char>, steps: nat, c: Seq<char>)
    requires
        cuts_tokens(a, b, steps),
        cuts_one_token(b, c),
    ensures
        cuts_tokens(a, c, steps + 1),
    decreases steps,
{
    if steps == 0 {
        assert(cuts_one_token(a, c) && cuts_tokens(c, c, 0));
    } else {
        let m = choose|m: Seq<char>| #[trigger]
            cuts_one_token(a, m) && cuts_tokens(m, b, (steps - 1) as nat);
        lemma_cuts_then_cut(m, b, (steps - 1) as nat, c);
        assert(cuts_one_token(a, m) && cuts_tokens(m, c, steps));
    }
}

/// Removal is by cutting: what `without_parent_tokens` yields is reached
/// from the text by cutting out one `../` after another, and nothing else
/// is changed. The number of cuts is returned.
pub proof fn lemma_tokens_are_cut_out(s: Seq<char>) -> (steps: nat)
    ensures
        cuts_tokens(s, without_parent_tokens(s), steps),
    decreases s.len(),
{
    if s.len() == 0 {
        0
    } else {
        let before = lemma_tokens_are_cut_out(s.drop_last());
        let kept = without_parent_tokens(s.drop_last()).push(s.last());
        lemma_cuts_before_push(s.drop_last(), without_parent_tokens(s.drop_last()), before, s.last());
        assert(s.drop_last().push(s.last()) =~= s);
        if parent_token().is_suffix_of(kept) {
            let i = kept.len() - 3;
            let cut = kept.subrange(0, i);
            assert(kept.subrange(i, i + 3) == parent_token());
            assert(occurs_at(kept, parent_token(), i));
            assert(cut =~= kept.subrange(0, i) + kept.subrange(i + 3, kept.len() as int));
            assert(cuts_one_token(kept, cut));
            lemma_cuts_then_cut(s, kept, before, cut);
            before + 1
        } else {
            before
        }
    }
}

/// What is kept after one more character: the character is appended, and a
/// parent token that this completes is dropped.
pub open spec fn kept_after(kept: Seq<char>, c: char) -> Seq<char> {
    if parent_token().is_suffix_of(kept.push(c)) {
        kept.push(c).subrange(0, kept.len() - 2)
    } else {
        kept.push(c)
    }
}

/// What is kept after more text, starting from what was kept before.
pub open spec fn kept_through(kept: Seq<char>, more: Seq<char>) -> Seq<char>
    decreases more.len(),
{
    if more.len() == 0 {
        kept
    } else {
        kept_after(kept_through(kept, more.drop_last()), more.last())
    }
}

/// Removal goes from left to right: what is kept of two texts in a row is
/// what is kept of the second, starting from what is kept of the first.
proof fn lemma_removal_in_parts(first: Seq<char>, second: Seq<char>)
    ensures
        without_parent_tokens(first + second) == kept_through(
            without_parent_tokens(first),
            second,
        ),
    decreases second.len(),
{
    if second.len() == 0 {
        assert(first + second =~= first);
    } else {
        lemma_removal_in_parts(first, second.drop_last());
        assert((first + second).drop_last() =~= first + second.drop_last());
        assert((first + second).last() == second.last());
    }
}

/// A parent token that follows any kept text is dropped whole.
proof fn lemma_token_is_dropped(kept: Seq<char>)
    ensures
        kept_through(kept, parent_token()) == kept,
{
    let t = parent_token();
    let one = t.drop_last().drop_last();
    let two = t.drop_last();
    assert(one =~= seq!['.']);
    assert(two =~= seq!['.', '.']);
    assert(one.drop_last() =~= Seq::<char>::empty());
    assert(kept_through(kept, one.drop_last()) == kept);
    let k1 = kept.push('.');
    assert(!parent_token().is_suffix_of(k1)) by {
        if parent_token().is_suffix_of(k1) {
            assert(k1.subrange(k1.len() - 3, k1.len() as int)[2] == '.');
        }
    }
    assert(kept_through(kept, one) == k1);
    let k2 = k1.push('.');
    assert(!parent_token().is_suffix_of(k2)) by {
        if parent_token().is_suffix_of(k2) {
            assert(k2.subrange(k2.len() - 3, k2.len() as int)[2] == '.');
        }
    }
    assert(kept_through(kept, two) == k2);
    let k3 = k2.push('/');
    assert(k3.subrange(k3.len() - 3, k3.len() as int) =~= parent_token());
    assert(k3.subrange(0, k2.len() - 2) =~= kept);
}

/// Cutting one parent token out of a text does not change what removal
/// yields.
proof fn lemma_cut_keeps_result(a: Seq<char>, b: Seq<char>)
    requires
        cuts_one_token(a, b),
    ensures
        without_parent_tokens(a) == without_parent_tokens(b),
{
    let i = choose|i: int| #[trigger]
        occurs_at(a, parent_token(), i) && b == a.subrange(0, i) + a.subrange(
            i + 3,
            a.len() as int,
        );
    let head = a.subrange(0, i);
    let tail = a.subrange(i + 3, a.len() as int);
    assert(a =~= (head + parent_token()) + tail);
    lemma_removal_in_parts(head + parent_token(), tail);
    lemma_removal_in_parts(head, parent_token());
    lemma_token_is_dropped(without_parent_tokens(head));
    lemma_removal_in_parts(head, tail);
}

/// A text without parent tokens is kept as it is.
proof fn lemma_nothing_to_remove(s: Seq<char>)
    requires
        !contains_seq(s, parent_token()),
    ensures
        without_parent_tokens(s) == s,
    decreases s.len(),
{
    if s.len() > 0 {
        let front = s.drop_last();
        assert(!contains_seq(front, parent_token())) by {
            if contains_seq(front, parent_token()) {
                let i = choose|i: int| occurs_at(front, parent_token(), i);
                lemma_occurs_after_push(front, parent_token(), i, s.last());
                assert(front.push(s.last()) =~= s);
            }
        }
        lemma_nothing_to_remove(front);
        let kept = front.push(s.last());
        assert(kept =~= s);
        if parent_token().is_suffix_of(kept) {
            assert(occurs_at(s, parent_token(), s.len() - 3));
        }
    }
}

/// The order of removal does not matter: however parent tokens are cut out
/// of a text, one at a time, once none is left the result is what
/// `without_parent_tokens` yields.
pub proof fn lemma_removal_is_unique(s: Seq<char>, result: Seq<char>, steps: nat)
    requires
        cuts_tokens(s, result, steps),
        !contains_seq(result, parent_token()),
    ensures
        result == without_parent_tokens(s),
    decreases steps,
{
    if steps == 0 {
        lemma_nothing_to_remove(s);
    } else {
        let m = choose|m: Seq<char>| #[trigger]
            cuts_one_token(s, m) && cuts_tokens(m, result, (steps - 1) as nat);
        lemma_cut_keeps_result(s, m);
        lemma_removal_is_unique(m, result, (steps - 1) as nat);
    }
}

/// Removing parent tokens leaves none behind.
pub proof fn lemma_no_parent_token(s: Seq<char>)
    ensures
        !contains_seq(without_parent_tokens(s), parent_token()),
    decreases s.len(),
{
    let r = without_parent_tokens(s);
    if s.len() == 0 {
        assert forall|i: int| !occurs_at(r, parent_token(), i) by {}
    } else {
        let before = without_parent_tokens(s.drop_last());
        lemma_no_parent_token(s.drop_last());
        let kept = before.push(s.last());
        assert forall|i: int| !occurs_at(r, parent_token(), i) by {
            if occurs_at(r, parent_token(), i) {
                if parent_token().is_suffix_of(kept) {
                    // r is a prefix of `before`
                    assert(r =~= before.subrange(0, before.len() - 2));
                    assert(before.subrange(i, i + 3) =~= r.subrange(i, i + 3));
                    assert(occurs_at(before, parent_token(), i));
                } else {
                    if i + 3 == kept.len() {
                        assert(kept.subrange(kept.len() - 3, kept.len() as int) == parent_token());
                        assert(parent_token().is_suffix_of(kept));
                    } else {
                        assert(before.subrange(i, i + 3) =~= kept.subrange(i, i + 3));
                        assert(occurs_at(before, parent_token(), i));
                    }
                }
            }
        }
    }
}

/// Normalising leaves no backslash.
pub proof fn lemma_forward_slashes(s: Seq<char>)
    ensures
        forward_slashes(s).len() == s.len(),
        forall|i: int| 0 <= i < s.len() ==> forward_slashes(s)[i] != '\\',
{
}

/// What is kept of a text is made of characters of that text.
proof fn lemma_tokens_keep_alphabet(s: Seq<char>, c: char)
    requires
        forall|i: int| 0 <= i < s.len() ==> s[i] != c,
    ensures
        forall|i: int|
            0 <= i < without_parent_tokens(s).len() ==> without_parent_tokens(s)[i] != c,
        without_parent_tokens(s).len() <= s.len(),
    decreases s.len(),
{
    if s.len() > 0 {
        let t = s.drop_last();
        assert forall|i: int| 0 <= i < t.len() implies t[i] != c by {
            assert(t[i] == s[i]);
        }
        lemma_tokens_keep_alphabet(t, c);
    }
}

/// A neutralised name holds no parent token and no backslash.
pub proof fn lemma_sanitized_is_neutral(name: Seq<char>)
    ensures
        !contains_seq(sanitized(name), parent_token()),
        forall|i: int| 0 <= i < sanitized(name).len() ==> sanitized(name)[i] != '\\',
{
    let stripped = without_leading_separators(name);
    lemma_no_parent_token(forward_slashes(stripped));
    lemma_forward_slashes(stripped);
    lemma_tokens_keep_alphabet(forward_slashes(stripped), '\\');
}

/// Containment: whatever a name from outside holds (parent tokens,
/// backslashes, leading separators), every path that resolution accepts is
/// the root or lies below it.
pub proof fn lemma_resolution_contained(root: Seq<char>, candidate: Seq<char>, probe: PathProbe)
    ensures
        resolution(root, candidate, probe) matches Some(path) ==> within(path, root),
        resolution(root, candidate, probe) matches Some(path) ==> (probe is Missing ==> path
            == joined(root, sanitized(candidate)) && !contains_seq(
            sanitized(candidate),
            parent_token(),
        )),
        resolution(root, candidate, probe) is Some ==> (probe matches PathProbe::Missing(ancestors)
            ==> some_ancestor_within(ancestors@, root) || !contains_seq(
            sanitized(candidate),
            two_dots(),
        )),
{
    lemma_joined_within(root, sanitized(candidate));
    lemma_sanitized_is_neutral(candidate);
}

/// The characters of `s` after its leading separators.
fn strip_leading_separators(s: &Vec<char>) -> (r: Vec<char>)
    ensures
        r@ == without_leading_separators(s@),
{
    let mut start: usize = 0;
    assert(s@.subrange(0, s.len() as int) == s@);
    while start < s.len() && (s[start] == '/' || s[start] == '\\')
        invariant
            start <= s.len(),
            without_leading_separators(s@) == without_leading_separators(
                s@.subrange(start as int, s.len() as int),
            ),
        decreases s.len() - start,
    {
        assert(s@.subrange(start as int, s.len() as int).drop_first() == s@.subrange(
            start + 1,
            s.len() as int,
        ));
        start += 1;
    }
    crate::text::sub_chars(s, start, s.len())
}

/// Normalises the separators of `s`, then removes its parent tokens.
fn neutralize(s: &Vec<char>) -> (r: Vec<char>)
    ensures
        r@ == without_parent_tokens(forward_slashes(s@)),
{
    let mut r: Vec<char> = Vec::new();
    let mut i: usize = 0;
    let ghost f = forward_slashes(s@);
    while i < s.len()
        invariant
            i <= s.len(),
            f == forward_slashes(s@),
            r@ == without_parent_tokens(f.take(i as int)),
        decreases s.len() - i,
    {
        let c: char = if s[i] == '\\' {
            '/'
        } else {
            s[i]
        };
        proof {
            assert(f.take(i + 1).drop_last() == f.take(i as int));
            assert(f.take(i + 1).last() == c);
        }
        r.push(c);
        let n: usize = r.len();
        if n >= 3 && r[n - 3] == '.' && r[n - 2] == '.' && r[n - 1] == '/' {
            assert(r@.subrange(n - 3, n as int) =~= parent_token());
            let ghost kept = r@;
            r.truncate(n - 3);
            assert(r@ == kept.subrange(0, kept.len() - 3));
        } else {
            assert(!parent_token().is_suffix_of(r@)) by {
                if parent_token().is_suffix_of(r@) {
                    let t = r@.subrange(r@.len() - 3, r@.len() as int);
                    assert(t == parent_token());
                    assert(t[0] == '.' && t[1] == '.' && t[2] == '/');
                }
            }
        }
        i += 1;
    }
    assert(f.take(s.len() as int) == f);
    r
}

/// Neutralises the name of an entry that comes from outside: strips leading
/// separators, turns backslashes into slashes, and removes `../` tokens
/// until none is left.
pub fn sanitize_zip_entry_name(entry_name: &str) -> (r: String)
    ensures
        r@ == sanitized(entry_name@),
        !contains_seq(r@, parent_token()),
{
    let name = chars_of(entry_name);
    let stripped = strip_leading_separators(&name);
    let clean = neutralize(&stripped);
    proof {
        lemma_sanitized_is_neutral(entry_name@);
    }
    string_of(&clean)
}

/// Where `relative_path` would land under `root`: the path to probe before
/// resolving.
pub fn candidate_path(root: &str, relative_path: &str) -> (r: String)
    ensures
        r@ == joined(root@, sanitized(relative_path@)),
        within(r@, root@),
{
    let clean = sanitize_zip_entry_name(relative_path);
    proof {
        lemma_joined_within(root@, sanitized(relative_path@));
    }
    crate::paths::join(root, clean.as_str())
}

/// Whether one of `ancestors` is `root` or lies below it.
fn any_ancestor_within(ancestors: &Vec<String>, root: &Vec<char>) -> (r: bool)
    ensures
        r == some_ancestor_within(ancestors@, root@),
{
    let mut i: usize = 0;
    while i < ancestors.len()
        invariant
            i <= ancestors.len(),
            forall|j: int| 0 <= j < i ==> !within(#[trigger] ancestors@[j]@, root@),
        decreases ancestors.len() - i,
    {
        let a = chars_of(ancestors[i].as_str());
        if within_chars(&a, root) {
            return true;
        }
        i += 1;
    }
    false
}

/// Resolves `relative_path` under the canonical workspace root `root`, given
/// what the file system said about `candidate_path(root, relative_path)`.
/// Returns the path to use, which always lies within `root`, or the
/// traversal error.
pub fn safe_resolve_path(root: &str, relative_path: &str, probe: &PathProbe) -> (r: Result<
    String,
    PathTraversal,
>)
    ensures
        match r {
            Ok(path) => resolution(root@, relative_path@, *probe) == Some(path@) && within(
                path@,
                root@,
            ),
            Err(e) => resolution(root@, relative_path@, *probe) is None && e.candidate@
                == relative_path@,
        },
{
    proof {
        lemma_resolution_contained(root@, relative_path@, *probe);
    }
    let root_chars = chars_of(root);
    match probe {
        PathProbe::Canonical(canonical) => {
            let c = chars_of(canonical.as_str());
            if within_chars(&c, &root_chars) {
                Ok(string_of(&c))
            } else {
                Err(PathTraversal { candidate: relative_path.to_owned() })
            }
        },
        PathProbe::Missing(ancestors) => {
            let clean = sanitize_zip_entry_name(relative_path);
            let clean_chars = chars_of(clean.as_str());
            let mut dots: Vec<char> = Vec::new();
            dots.push('.');
            dots.push('.');
            assert(dots@ =~= two_dots());
            if any_ancestor_within(ancestors, &root_chars) || !contains_chars(&clean_chars, &dots) {
                let mut v = root_chars;
                if v.len() > 0 && v[v.len() - 1] != '/' {
                    v.push('/');
                }
                push_chars(&mut v, &clean_chars);
                Ok(string_of(&v))
            } else {
                Err(PathTraversal { candidate: relative_path.to_owned() })
            }
        },
    }
}

} // verus!
