//! The deduplicating exporter. Converted and readable files are copied into
//! one flat directory; a file whose content was already exported is skipped,
//! whatever it is called. The engine decides; the caller copies and reports
//! whether the copy succeeded.

use vstd::prelude::*;
use vstd::set_lib::{lemma_int_range, lemma_len_subset, set_int_range};

use crate::path_resolver::{PathProbe, resolution, safe_resolve_path};
use crate::paths::{base_name, base_name_of, extension_of, file_name_of, joined, within};
use crate::report_model::{ReportModel, ReportModelView, ProcessingStatus, text_of};
use crate::text::{chars_of, string_of, decimal, push_decimal, push_chars, same_chars, same_text,
    texts, lemma_decimal_injective};

verus! {

/// What the file system said about the source of one record.
pub struct SourceFacts {
    /// What it said about the record's path under the staging root.
    pub probe: PathProbe,
    /// Whether the resolved source exists.
    pub exists: bool,
    /// The content hash computed now, for a record that carries none;
    /// `None` where hashing failed or was not needed.
    pub fresh_hash: Option<String>,
}

/// What the exporter holds: which hash went to which destination, in the
/// order of the copies; the names present in the output directory; and how
/// many duplicates were skipped.
pub struct ExportState {
    pub index: Seq<(Seq<char>, Seq<char>)>,
    pub taken: Seq<Seq<char>>,
    pub skipped: nat,
}

impl ExportState {
    /// The number of files copied: one for each hash in the index.
    pub open spec fn copied(self) -> nat {
        self.index.len()
    }
}

/// The destination recorded for `hash`: that of the first copy with it.
pub open spec fn destination_of(index: Seq<(Seq<char>, Seq<char>)>, hash: Seq<char>) -> Option<
    Seq<char>,
>
    decreases index.len(),
{
    if index.len() == 0 {
        None
    } else if index[0].0 == hash {
        Some(index[0].1)
    } else {
        destination_of(index.drop_first(), hash)
    }
}

/// No hash is recorded twice.
pub open spec fn one_destination_each(index: Seq<(Seq<char>, Seq<char>)>) -> bool {
    forall|i: int, j: int| 0 <= i < j < index.len() ==> index[i].0 != index[j].0
}

/// The number of entries of the index that carry `hash`.
pub open spec fn copies_of(index: Seq<(Seq<char>, Seq<char>)>, hash: Seq<char>) -> nat
    decreases index.len(),
{
    if index.len() == 0 {
        0
    } else {
        copies_of(index.drop_last(), hash) + if index.last().0 == hash {
            1nat
        } else {
            0nat
        }
    }
}

/// A stem with a counter, before the extension if there is one.
pub open spec fn numbered(stem: Seq<char>, ext: Seq<char>, k: nat) -> Seq<char> {
    if ext.len() == 0 {
        stem + seq!['_'] + decimal(k)
    } else {
        stem + seq!['_'] + decimal(k) + seq!['.'] + ext
    }
}

/// `k` is the first counter, from one on, whose name is not taken.
pub open spec fn is_first_free(taken: Seq<Seq<char>>, stem: Seq<char>, ext: Seq<char>, k: nat) -> bool {
    &&& k >= 1
    &&& !taken.contains(numbered(stem, ext, k))
    &&& forall|j: nat| 1 <= j < k ==> taken.contains(#[trigger] numbered(stem, ext, j))
}

/// The extension of a path, empty where it has none.
pub open spec fn extension_or_empty(path: Seq<char>) -> Seq<char> {
    match extension_of(path) {
        Some(e) => e,
        None => Seq::empty(),
    }
}

/// The name under which the file at `source` goes into a flat directory
/// that already holds the names `taken`: its own file name if that is free,
/// else its stem with the first counter that makes a free name.
pub open spec fn flat_name(taken: Seq<Seq<char>>, source: Seq<char>) -> Seq<char> {
    let base = if file_name_of(source).len() == 0 {
        "unknown"@
    } else {
        file_name_of(source)
    };
    if !taken.contains(base) {
        base
    } else {
        numbered(
            base_name_of(source, "file"@),
            extension_or_empty(source),
            choose|k: nat| is_first_free(taken, base_name_of(source, "file"@), extension_or_empty(source), k),
        )
    }
}

/// The key by which a record is deduplicated: its stored hash, else the
/// hash computed now.
pub open spec fn export_key(entry: ReportModelView, fresh: Option<Seq<char>>) -> Option<Seq<char>> {
    match entry.sha512 {
        Some(h) => Some(h),
        None => fresh,
    }
}

/// The name a record is exported under: its artifact name as it is, else a
/// free name made from its source.
pub open spec fn export_name(taken: Seq<Seq<char>>, entry: ReportModelView, source: Seq<char>) -> Seq<
    char,
> {
    match entry.converted_file_name {
        Some(name) => name,
        None => flat_name(taken, source),
    }
}

/// What is decided on one record.
#[derive(Debug)]
pub enum ExportDecision {
    /// The record is not converted: it is not considered.
    NotConverted,
    /// The record's path resolves outside the staging root.
    InvalidPath,
    /// The source does not exist.
    MissingSource,
    /// The record carries no hash and none could be computed.
    HashUnavailable,
    /// The same content was exported before, to `existing`.
    Duplicate { hash: String, existing: String },
    /// Copy `source` to `destination`, which is `file_name` in the output
    /// directory.
    Copy { source: String, destination: String, file_name: String, hash: String },
}

/// The mathematical content of a decision.
pub enum ExportDecisionView {
    NotConverted,
    InvalidPath,
    MissingSource,
    HashUnavailable,
    Duplicate { hash: Seq<char>, existing: Seq<char> },
    Copy { source: Seq<char>, destination: Seq<char>, file_name: Seq<char>, hash: Seq<char> },
}

impl View for ExportDecision {
    type V = ExportDecisionView;

    open spec fn view(&self) -> ExportDecisionView {
        match *self {
            ExportDecision::NotConverted => ExportDecisionView::NotConverted,
            ExportDecision::InvalidPath => ExportDecisionView::InvalidPath,
            ExportDecision::MissingSource => ExportDecisionView::MissingSource,
            ExportDecision::HashUnavailable => ExportDecisionView::HashUnavailable,
            ExportDecision::Duplicate { hash, existing } => ExportDecisionView::Duplicate {
                hash: hash@,
                existing: existing@,
            },
            ExportDecision::Copy { source, destination, file_name, hash } => ExportDecisionView::Copy {
                source: source@,
                destination: destination@,
                file_name: file_name@,
                hash: hash@,
            },
        }
    }
}

/// The decision on one record, in the order in which the checks are made:
/// status, path, existence, hash, duplicate.
pub open spec fn decision_of(
    state: ExportState,
    entry: ReportModelView,
    root: Seq<char>,
    output_dir: Seq<char>,
    facts: SourceFacts,
) -> ExportDecisionView {
    if entry.status != ProcessingStatus::Converted {
        ExportDecisionView::NotConverted
    } else {
        match resolution(root, entry.relative_path, facts.probe) {
            None => ExportDecisionView::InvalidPath,
            Some(source) => if !facts.exists {
                ExportDecisionView::MissingSource
            } else {
                match export_key(entry, text_of(facts.fresh_hash)) {
                    None => ExportDecisionView::HashUnavailable,
                    Some(hash) => match destination_of(state.index, hash) {
                        Some(existing) => ExportDecisionView::Duplicate { hash, existing },
                        None => ExportDecisionView::Copy {
                            source,
                            destination: joined(output_dir, export_name(state.taken, entry, source)),
                            file_name: export_name(state.taken, entry, source),
                            hash,
                        },
                    },
                }
            },
        }
    }
}

/// The exporter's state once a decision has been carried out. A duplicate
/// raises the skip counter and changes nothing else. A copy that succeeded
/// is recorded under its hash and its name is taken. Everything else,
/// a copy that failed too, leaves the state as it was.
pub open spec fn committed(state: ExportState, decision: ExportDecisionView, copied: bool) -> ExportState {
    match decision {
        ExportDecisionView::Duplicate { .. } => ExportState {
            skipped: state.skipped + 1,
            ..state
        },
        ExportDecisionView::Copy { destination, file_name, hash, .. } => if copied {
            ExportState {
                index: state.index.push((hash, destination)),
                taken: state.taken.push(file_name),
                skipped: state.skipped,
            }
        } else {
            state
        },
        _ => state,
    }
}

/// The exporter's state after a run of records in which every copy succeeds.
pub open spec fn exported_through(
    state: ExportState,
    files: Seq<ReportModel>,
    facts: Seq<SourceFacts>,
    root: Seq<char>,
    output_dir: Seq<char>,
    count: nat,
) -> ExportState
    decreases count,
{
    if count == 0 {
        state
    } else {
        let before = exported_through(state, files, facts, root, output_dir, (count - 1) as nat);
        committed(
            before,
            decision_of(before, files[count - 1]@, root, output_dir, facts[count - 1]),
            true,
        )
    }
}

/// Looking a hash up finds the first entry that carries it.
pub proof fn lemma_destination_of(index: Seq<(Seq<char>, Seq<char>)>, hash: Seq<char>)
    ensures
        destination_of(index, hash) is None <==> forall|i: int|
            0 <= i < index.len() ==> (#[trigger] index[i]).0 != hash,
        destination_of(index, hash) matches Some(d) ==> exists|i: int|
            0 <= i < index.len() && #[trigger] index[i] == (hash, d),
    decreases index.len(),
{
    if index.len() > 0 {
        let rest = index.drop_first();
        lemma_destination_of(rest, hash);
        if index[0].0 != hash {
            assert forall|i: int| 0 <= i < rest.len() implies rest[i] == index[i + 1] by {}
            if destination_of(index, hash) is None {
                assert forall|i: int| 0 <= i < index.len() implies (#[trigger] index[i]).0
                    != hash by {
                    if i > 0 {
                        assert(rest[i - 1] == index[i]);
                    }
                }
            } else {
                let d = destination_of(index, hash)->0;
                let k = choose|k: int| 0 <= k < rest.len() && #[trigger] rest[k] == (hash, d);
                assert(index[k + 1] == (hash, d));
            }
        } else {
            assert(index[0] == (hash, index[0].1));
        }
    }
}

/// Recording a new hash keeps what was recorded and records the new one.
pub proof fn lemma_destination_after_push(
    index: Seq<(Seq<char>, Seq<char>)>,
    hash: Seq<char>,
    destination: Seq<char>,
    other: Seq<char>,
)
    ensures
        destination_of(index, other) matches Some(d) ==> destination_of(
            index.push((hash, destination)),
            other,
        ) == Some(d),
        destination_of(index, hash) is None ==> destination_of(
            index.push((hash, destination)),
            hash,
        ) == Some(destination),
        destination_of(index, other) is None && other != hash ==> destination_of(
            index.push((hash, destination)),
            other,
        ) is None,
    decreases index.len(),
{
    let longer = index.push((hash, destination));
    if index.len() == 0 {
        assert(longer.drop_first() =~= Seq::<(Seq<char>, Seq<char>)>::empty());
    } else {
        assert(longer.drop_first() =~= index.drop_first().push((hash, destination)));
        lemma_destination_after_push(index.drop_first(), hash, destination, other);
    }
}

/// Counting the copies of a hash: none where it is not recorded, and one
/// more once it is recorded.
pub proof fn lemma_copies_of(index: Seq<(Seq<char>, Seq<char>)>, hash: Seq<char>)
    ensures
        destination_of(index, hash) is None ==> copies_of(index, hash) == 0,
    decreases index.len(),
{
    lemma_destination_of(index, hash);
    if index.len() > 0 {
        let front = index.drop_last();
        assert forall|i: int| 0 <= i < front.len() implies front[i] == index[i] by {}
        if destination_of(index, hash) is None {
            lemma_destination_of(front, hash);
            assert forall|i: int| 0 <= i < front.len() implies (#[trigger] front[i]).0 != hash by {
                assert(front[i] == index[i]);
            }
            lemma_copies_of(front, hash);
            assert(index.last() == index[index.len() - 1]);
        }
    }
}

/// Dedup: of two converted records with the same content hash, whatever
/// they are called, exactly one is copied. The first is copied and recorded;
/// the second is a duplicate of it. After both, one more file is copied, one
/// more duplicate is skipped, and the index maps the hash to the one
/// destination of the first.
pub proof fn lemma_same_content_exported_once(
    state: ExportState,
    first: ReportModelView,
    second: ReportModelView,
    root: Seq<char>,
    output_dir: Seq<char>,
    first_facts: SourceFacts,
    second_facts: SourceFacts,
    second_copied: bool,
)
    requires
        decision_of(state, first, root, output_dir, first_facts) is Copy,
        second.status == ProcessingStatus::Converted,
        resolution(root, second.relative_path, second_facts.probe) is Some,
        second_facts.exists,
        export_key(second, text_of(second_facts.fresh_hash)) == export_key(
            first,
            text_of(first_facts.fresh_hash),
        ),
    ensures
        ({
            let d1 = decision_of(state, first, root, output_dir, first_facts);
            let s1 = committed(state, d1, true);
            let d2 = decision_of(s1, second, root, output_dir, second_facts);
            let s2 = committed(s1, d2, second_copied);
            &&& d1 matches ExportDecisionView::Copy { destination, hash, .. }
            &&& d2 == (ExportDecisionView::Duplicate { hash, existing: destination })
            &&& s2.copied() == state.copied() + 1
            &&& s2.skipped == state.skipped + 1
            &&& s2.index == state.index.push((hash, destination))
            &&& destination_of(s2.index, hash) == Some(destination)
            &&& copies_of(s2.index, hash) == 1
        }),
{
    let d1 = decision_of(state, first, root, output_dir, first_facts);
    match d1 {
        ExportDecisionView::Copy { destination, hash, .. } => {
            lemma_destination_after_push(state.index, hash, destination, hash);
            lemma_copies_of(state.index, hash);
            let longer = state.index.push((hash, destination));
            assert(longer.drop_last() =~= state.index);
        },
        _ => {},
    }
}

/// One destination for each hash: if no hash is recorded twice, carrying
/// out a decision made on that state records none twice either.
pub proof fn lemma_one_destination_each(
    state: ExportState,
    entry: ReportModelView,
    root: Seq<char>,
    output_dir: Seq<char>,
    facts: SourceFacts,
    copied: bool,
)
    requires
        one_destination_each(state.index),
    ensures
        one_destination_each(
            committed(state, decision_of(state, entry, root, output_dir, facts), copied).index,
        ),
{
    let decision = decision_of(state, entry, root, output_dir, facts);
    match decision {
        ExportDecisionView::Copy { destination, hash, .. } => {
            lemma_destination_of(state.index, hash);
            let longer = state.index.push((hash, destination));
            assert forall|i: int, j: int| 0 <= i < j < longer.len() implies longer[i].0
                != longer[j].0 by {
                if j < state.index.len() {
                    assert(longer[i] == state.index[i]);
                    assert(longer[j] == state.index[j]);
                } else {
                    assert(longer[i] == state.index[i]);
                    assert((#[trigger] state.index[i]).0 != hash);
                }
            }
        },
        _ => {},
    }
}

/// Different counters give different names.
proof fn lemma_numbered_injective(stem: Seq<char>, ext: Seq<char>, j: nat, k: nat)
    requires
        numbered(stem, ext, j) == numbered(stem, ext, k),
    ensures
        j == k,
{
    let a = numbered(stem, ext, j);
    let b = numbered(stem, ext, k);
    let from = stem.len() + 1;
    if ext.len() == 0 {
        assert(a.len() == stem.len() + 1 + decimal(j).len());
        assert(b.len() == stem.len() + 1 + decimal(k).len());
    } else {
        assert(a.len() == stem.len() + 1 + decimal(j).len() + 1 + ext.len());
        assert(b.len() == stem.len() + 1 + decimal(k).len() + 1 + ext.len());
    }
    assert(decimal(j).len() == decimal(k).len());
    let to = from + decimal(j).len();
    assert(a.subrange(from as int, to as int) =~= decimal(j));
    assert(b.subrange(from as int, to as int) =~= decimal(k));
    lemma_decimal_injective(j, k);
}

/// Where `name` stands in `names`, if it does.
fn position_of(names: &Vec<String>, name: &Vec<char>) -> (r: Option<usize>)
    ensures
        match r {
            Some(i) => i < names.len() && names@[i as int]@ == name@,
            None => !texts(names@).contains(name@),
        },
{
    let mut i: usize = 0;
    while i < names.len()
        invariant
            i <= names.len(),
            forall|j: int| 0 <= j < i ==> names@[j]@ != name@,
        decreases names.len() - i,
    {
        let candidate = chars_of(names[i].as_str());
        if same_chars(&candidate, name) {
            return Some(i);
        }
        i += 1;
    }
    assert forall|j: int| 0 <= j < texts(names@).len() implies texts(names@)[j] != name@ by {
        assert(texts(names@)[j] == names@[j]@);
    }
    None
}

/// The characters of the name with counter `k`.
fn numbered_name(stem: &Vec<char>, ext: &Vec<char>, k: u128) -> (r: Vec<char>)
    ensures
        r@ == numbered(stem@, ext@, k as nat),
{
    let mut v: Vec<char> = Vec::new();
    push_chars(&mut v, stem);
    v.push('_');
    push_decimal(&mut v, k);
    if ext.len() > 0 {
        v.push('.');
        push_chars(&mut v, ext);
    }
    assert(v@ =~= numbered(stem@, ext@, k as nat));
    v
}

/// Chooses the name under which the file at `source` goes into a flat
/// directory that holds the names `taken`: its own name if free, else its
/// stem with the first counter that gives a free name. The name chosen is
/// never one of `taken`.
pub fn choose_flat_name(taken: &Vec<String>, source: &str) -> (r: String)
    ensures
        r@ == flat_name(texts(taken@), source@),
        !texts(taken@).contains(r@),
{
    let own = crate::paths::file_name(source);
    let base: Vec<char> = if own.as_str().unicode_len() == 0 {
        chars_of("unknown")
    } else {
        chars_of(own.as_str())
    };
    match position_of(taken, &base) {
        None => {
            return string_of(&base);
        },
        Some(at) => {
            assert(texts(taken@)[at as int] == base@);
        },
    }
    let stem_text = base_name(source, "file");
    let stem = chars_of(stem_text.as_str());
    let ext: Vec<char> = match crate::paths::extension(source) {
        Some(e) => chars_of(e.as_str()),
        None => Vec::new(),
    };
    assert(ext@ =~= extension_or_empty(source@));
    let ghost names = texts(taken@);
    let ghost mut used: Set<int> = Set::empty();
    let mut k: u128 = 1;
    loop
        invariant
            1 <= k <= taken.len() + 1,
            names == texts(taken@),
            stem@ == base_name_of(source@, "file"@),
            ext@ == extension_or_empty(source@),
            names.contains(base@),
            base@ == (if file_name_of(source@).len() == 0 {
                "unknown"@
            } else {
                file_name_of(source@)
            }),
            used.finite(),
            used.len() == k - 1,
            forall|i: int|
                used.contains(i) ==> 0 <= i < taken.len() && exists|j: nat|
                    1 <= j < k && taken@[i]@ == #[trigger] numbered(stem@, ext@, j),
            forall|j: nat| 1 <= j < k ==> names.contains(#[trigger] numbered(stem@, ext@, j)),
        decreases taken.len() + 1 - k,
    {
        let candidate = numbered_name(&stem, &ext, k);
        match position_of(taken, &candidate) {
            None => {
                proof {
                    let kk = k as nat;
                    assert(is_first_free(names, stem@, ext@, kk));
                    let chosen = choose|c: nat| is_first_free(names, stem@, ext@, c);
                    if chosen < kk {
                        assert(names.contains(numbered(stem@, ext@, chosen)));
                    } else if kk < chosen {
                        assert(names.contains(numbered(stem@, ext@, kk)));
                    }
                    assert(chosen == kk);
                }
                return string_of(&candidate);
            },
            Some(at) => {
                proof {
                    let idx = at as int;
                    if used.contains(idx) {
                        let j = choose|j: nat|
                            1 <= j < k && taken@[idx]@ == #[trigger] numbered(stem@, ext@, j);
                        lemma_numbered_injective(stem@, ext@, j, k as nat);
                    }
                    assert(names[idx] == taken@[idx]@);
                    let grown = used.insert(idx);
                    assert forall|i: int| grown.contains(i) implies 0 <= i < taken.len()
                        && exists|j: nat|
                        1 <= j < k + 1 && taken@[i]@ == #[trigger] numbered(stem@, ext@, j) by {
                        if i == idx {
                            assert(taken@[i]@ == numbered(stem@, ext@, k as nat));
                        } else {
                            let j = choose|j: nat|
                                1 <= j < k && taken@[i]@ == #[trigger] numbered(stem@, ext@, j);
                            assert(taken@[i]@ == numbered(stem@, ext@, j));
                        }
                    }
                    lemma_int_range(0, taken.len() as int);
                    assert(grown.subset_of(set_int_range(0, taken.len() as int)));
                    lemma_len_subset(grown, set_int_range(0, taken.len() as int));
                    used = grown;
                }
                k = k + 1;
            },
        }
    }
}

/// One copy: the hash of the content, and where it went.
#[derive(Debug)]
pub struct ExportRecord {
    pub hash: String,
    pub destination: String,
}

/// The index of an exporter's records.
pub open spec fn index_of(records: Seq<ExportRecord>) -> Seq<(Seq<char>, Seq<char>)> {
    records.map_values(|r: ExportRecord| (r.hash@, r.destination@))
}

/// Copies converted and readable files into one flat directory, each
/// distinct content once.
pub struct LLMExportEngine {
    seen: Vec<ExportRecord>,
    taken: Vec<String>,
    duplicates: Vec<String>,
}

impl View for LLMExportEngine {
    type V = ExportState;

    closed spec fn view(&self) -> ExportState {
        ExportState {
            index: index_of(self.seen@),
            taken: texts(self.taken@),
            skipped: self.duplicates@.len(),
        }
    }
}

impl LLMExportEngine {
    /// An exporter for an output directory that holds the names
    /// `existing_names`. Nothing is copied or skipped yet.
    pub fn new(existing_names: Vec<String>) -> (r: Self)
        ensures
            r@.index == Seq::<(Seq<char>, Seq<char>)>::empty(),
            r@.taken == texts(existing_names@),
            r@.skipped == 0,
    {
        let r = LLMExportEngine { seen: Vec::new(), taken: existing_names, duplicates: Vec::new() };
        assert(r@.index =~= Seq::<(Seq<char>, Seq<char>)>::empty());
        r
    }

    /// The number of files copied so far.
    pub fn copied_count(&self) -> (r: usize)
        ensures
            r == self@.copied(),
    {
        self.seen.len()
    }

    /// The number of duplicates skipped so far.
    pub fn skipped_count(&self) -> (r: usize)
        ensures
            r == self@.skipped,
    {
        self.duplicates.len()
    }

    /// The destination that content with the given hash was copied to.
    pub fn destination_for(&self, hash: &str) -> (r: Option<String>)
        ensures
            text_of(r) == destination_of(self@.index, hash@),
    {
        let mut i: usize = 0;
        let ghost index = self@.index;
        assert(index.subrange(0, index.len() as int) =~= index);
        while i < self.seen.len()
            invariant
                i <= self.seen.len(),
                index == index_of(self.seen@),
                index == self@.index,
                destination_of(index, hash@) == destination_of(
                    index.subrange(i as int, index.len() as int),
                    hash@,
                ),
            decreases self.seen.len() - i,
        {
            let ghost rest = index.subrange(i as int, index.len() as int);
            assert(rest[0] == index[i as int]);
            assert(rest.drop_first() =~= index.subrange(i + 1, index.len() as int));
            if same_text(self.seen[i].hash.as_str(), hash) {
                return Some(self.seen[i].destination.clone());
            }
            i += 1;
        }
        None
    }

    /// Decides on one record, given what the file system said of its
    /// source. Nothing is changed; `commit` carries the decision out.
    pub fn decide(&self, entry: &ReportModel, root: &str, output_dir: &str, facts: &SourceFacts) -> (d:
        ExportDecision)
        ensures
            d@ == decision_of(self@, entry@, root@, output_dir@, *facts),
            d matches ExportDecision::Copy { source, destination, file_name, .. } ==> within(
                source@,
                root@,
            ) && within(destination@, output_dir@) && (entry@.converted_file_name is None
                ==> !self@.taken.contains(file_name@)),
    {
        if entry.status != ProcessingStatus::Converted {
            return ExportDecision::NotConverted;
        }
        let source = match safe_resolve_path(root, entry.relative_path.as_str(), &facts.probe) {
            Ok(p) => p,
            Err(_) => {
                return ExportDecision::InvalidPath;
            },
        };
        if !facts.exists {
            return ExportDecision::MissingSource;
        }
        let hash: String = match &entry.sha512 {
            Some(h) => h.clone(),
            None => match &facts.fresh_hash {
                Some(h) => h.clone(),
                None => {
                    return ExportDecision::HashUnavailable;
                },
            },
        };
        match self.destination_for(hash.as_str()) {
            Some(existing) => ExportDecision::Duplicate { hash, existing },
            None => {
                let file_name: String = match &entry.converted_file_name {
                    Some(name) => name.clone(),
                    None => choose_flat_name(&self.taken, source.as_str()),
                };
                let destination = crate::paths::join(output_dir, file_name.as_str());
                proof {
                    crate::paths::lemma_joined_within(output_dir@, file_name@);
                }
                ExportDecision::Copy { source, destination, file_name, hash }
            },
        }
    }

    /// Carries a decision out, after the caller has tried the copy it may
    /// ask for. A duplicate is counted. A copy that succeeded is recorded; a
    /// copy that failed leaves no trace, so that the same content may still
    /// be exported from a later record.
    pub fn commit(&mut self, decision: &ExportDecision, copied: bool)
        ensures
            final(self)@ == committed(old(self)@, decision@, copied),
    {
        match decision {
            ExportDecision::Duplicate { hash, existing } => {
                self.duplicates.push(hash.clone());
                assert(self@ =~= committed(old(self)@, decision@, copied));
            },
            ExportDecision::Copy { source, destination, file_name, hash } => {
                if copied {
                    let ghost before = self@;
                    self.seen.push(
                        ExportRecord { hash: hash.clone(), destination: destination.clone() },
                    );
                    self.taken.push(file_name.clone());
                    assert(self@.index =~= before.index.push((hash@, destination@)));
                    assert(self@.taken =~= before.taken.push(file_name@));
                }
            },
            _ => {},
        }
    }

    /// Plans the export of a whole catalogue, in catalogue order, for a run
    /// in which every copy succeeds: the decision on each record, made on
    /// the state that the records before it left. `facts` holds, for each
    /// record, what the file system said of its source; records without
    /// facts are not planned.
    pub fn copy_llm_readable_files(
        &mut self,
        files: &Vec<ReportModel>,
        root: &str,
        output_dir: &str,
        facts: &Vec<SourceFacts>,
    ) -> (decisions: Vec<ExportDecision>)
        ensures
            decisions@.len() == (if files@.len() <= facts@.len() {
                files@.len()
            } else {
                facts@.len()
            }),
            final(self)@ == exported_through(
                old(self)@,
                files@,
                facts@,
                root@,
                output_dir@,
                decisions@.len(),
            ),
            forall|i: int|
                0 <= i < decisions@.len() ==> (#[trigger] decisions@[i])@ == decision_of(
                    exported_through(old(self)@, files@, facts@, root@, output_dir@, i as nat),
                    files@[i]@,
                    root@,
                    output_dir@,
                    facts@[i],
                ),
    {
        let count: usize = if files.len() <= facts.len() {
            files.len()
        } else {
            facts.len()
        };
        let mut decisions: Vec<ExportDecision> = Vec::new();
        let mut i: usize = 0;
        while i < count
            invariant
                i <= count,
                count <= files.len(),
                count <= facts.len(),
                decisions@.len() == i,
                self@ == exported_through(old(self)@, files@, facts@, root@, output_dir@, i as nat),
                forall|k: int|
                    0 <= k < i ==> (#[trigger] decisions@[k])@ == decision_of(
                        exported_through(old(self)@, files@, facts@, root@, output_dir@, k as nat),
                        files@[k]@,
                        root@,
                        output_dir@,
                        facts@[k],
                    ),
            decreases count - i,
        {
            let decision = self.decide(&files[i], root, output_dir, &facts[i]);
            self.commit(&decision, true);
            decisions.push(decision);
            i += 1;
        }
        decisions
    }
}

} // verus!
