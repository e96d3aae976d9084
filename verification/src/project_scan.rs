//! Listing a project's editable files: a bounded walk of its directories.
//! The walk reads at most 10 000 entries in all, goes at most 8 directories
//! deep and lists at most 2 000 files; within a directory it looks at entries
//! in the order of their lower-cased names, skips symbolic links, ignored
//! directories and files the editor cannot open, and marks the listing as
//! truncated when a bound cut it short. Reading directories happens outside;
//! each directory's entries are handed to the scan, which says what to do next.
use vstd::prelude::*;

use crate::project::{
    display_path, editable_path, ensure_editable_file, ignored_directory, ignored_project_directory,
    relative_below, relative_project_path, ProjectError, ProjectFile, ProjectState,
    MAX_PROJECT_DEPTH, MAX_PROJECT_ENTRIES, MAX_PROJECT_FILES,
};
use crate::extension_lifecycle::first_at_most;
use crate::text::{chars_of, concat, lower_chars, lower_seq, owned, replace_char_seq, str_eq};

verus! {

// ---------------------------------------------------------------------------
// Lexicographic order of texts.
// ---------------------------------------------------------------------------

/// `a` sorts before or with `b`, character by character (the order of their
/// UTF-8 bytes, which `String` compares).
pub open spec fn lex_le(a: Seq<char>, b: Seq<char>) -> bool
    decreases a.len(),
{
    if a.len() == 0 {
        true
    } else if b.len() == 0 {
        false
    } else if a[0] != b[0] {
        a[0] < b[0]
    } else {
        lex_le(a.drop_first(), b.drop_first())
    }
}

pub proof fn lemma_lex_total(a: Seq<char>, b: Seq<char>)
    ensures
        lex_le(a, b) || lex_le(b, a),
    decreases a.len(),
{
    if a.len() > 0 && b.len() > 0 && a[0] == b[0] {
        lemma_lex_total(a.drop_first(), b.drop_first());
    }
}

pub proof fn lemma_lex_transitive(a: Seq<char>, b: Seq<char>, c: Seq<char>)
    requires
        lex_le(a, b),
        lex_le(b, c),
    ensures
        lex_le(a, c),
    decreases a.len(),
{
    if a.len() > 0 && b.len() > 0 && c.len() > 0 && a[0] == b[0] && b[0] == c[0] {
        lemma_lex_transitive(a.drop_first(), b.drop_first(), c.drop_first());
    }
}

proof fn lemma_lex_skip(a: Seq<char>, b: Seq<char>, i: int)
    requires
        0 <= i < a.len(),
        i < b.len(),
        a[i] == b[i],
    ensures
        lex_le(a.skip(i), b.skip(i)) == lex_le(a.skip(i + 1), b.skip(i + 1)),
{
    assert(a.skip(i).drop_first() =~= a.skip(i + 1));
    assert(b.skip(i).drop_first() =~= b.skip(i + 1));
}

pub fn lex_le_exec(a: &Vec<char>, b: &Vec<char>) -> (r: bool)
    ensures
        r == lex_le(a@, b@),
{
    let mut i: usize = 0;
    assert(a@.skip(0) =~= a@ && b@.skip(0) =~= b@);
    while i < a.len() && i < b.len()
        invariant
            0 <= i <= a@.len(),
            i <= b@.len(),
            lex_le(a@, b@) == lex_le(a@.skip(i as int), b@.skip(i as int)),
        decreases a.len() - i,
    {
        if a[i] != b[i] {
            assert(a@.skip(i as int)[0] == a@[i as int]);
            assert(b@.skip(i as int)[0] == b@[i as int]);
            return a[i] < b[i];
        }
        proof {
            lemma_lex_skip(a@, b@, i as int);
        }
        i = i + 1;
    }
    if i == a.len() {
        assert(a@.skip(i as int).len() == 0);
        true
    } else {
        assert(b@.skip(i as int).len() == 0);
        false
    }
}

// ---------------------------------------------------------------------------
// Directory entries.
// ---------------------------------------------------------------------------

#[derive(Debug, Clone, Copy, PartialEq, Eq, Structural)]
pub enum EntryKind {
    File,
    Directory,
    Symlink,
    Other,
}

/// One entry of a directory as read: its name, its path, its kind, its size
/// for a file, and its canonical path for a directory.
#[derive(Debug, Clone)]
pub struct ScanEntry {
    pub name: String,
    pub path: String,
    pub kind: EntryKind,
    pub size_bytes: u64,
    pub canonical: String,
}

/// The key entries are looked at by: the lower-cased name.
pub open spec fn entry_key(e: ScanEntry) -> Seq<char> {
    lower_seq(e.name@)
}

pub open spec fn sorted_by_name(es: Seq<ScanEntry>) -> bool {
    forall|i: int, j: int| 0 <= i < j < es.len() ==> lex_le(entry_key(es[i]), entry_key(es[j]))
}

/// Sorts entries by their lower-cased names.
pub fn sort_entries(entries: Vec<ScanEntry>) -> (r: Vec<ScanEntry>)
    ensures
        r@.to_multiset() == entries@.to_multiset(),
        sorted_by_name(r@),
{
    let mut rest = entries;
    let mut out: Vec<ScanEntry> = Vec::new();
    let ghost all = rest@;
    proof {
        broadcast use vstd::seq_lib::group_to_multiset_ensures;
    }
    while rest.len() > 0
        invariant
            out@.to_multiset().add(rest@.to_multiset()) == all.to_multiset(),
            sorted_by_name(out@),
        decreases rest.len(),
    {
        let ghost before_rest = rest@;
        let x = rest.pop().unwrap();
        proof {
            assert(before_rest =~= rest@.push(x));
            vstd::seq_lib::to_multiset_build(rest@, x);
        }
        let key = lower_chars(&chars_of(x.name.as_str()));
        let n = out.len();
        let mut p: usize = 0;
        while p < n
            invariant_except_break
                n == out@.len(),
                0 <= p <= n,
                key@ == entry_key(x),
                forall|k: int| 0 <= k < p ==> lex_le(entry_key(#[trigger] out@[k]), key@),
            ensures
                0 <= p <= n,
                forall|k: int| 0 <= k < p ==> lex_le(entry_key(#[trigger] out@[k]), key@),
                p < n ==> !lex_le(entry_key(out@[p as int]), key@),
            decreases n - p,
        {
            let k = lower_chars(&chars_of(out[p].name.as_str()));
            if !lex_le_exec(&k, &key) {
                break;
            }
            p = p + 1;
        }
        let ghost old_out = out@;
        out.insert(p, x);
        proof {
            vstd::seq_lib::to_multiset_insert(old_out, p as int, x);
            assert(out@ == old_out.insert(p as int, x));
            if p < n {
                lemma_lex_total(entry_key(old_out[p as int]), key@);
            }
            assert forall|i: int, j: int| 0 <= i < j < out@.len() implies lex_le(
                entry_key(out@[i]),
                entry_key(out@[j]),
            ) by {
                if j < p {
                } else if j == p {
                    assert(out@[i] == old_out[i]);
                } else if i == p {
                    assert(out@[j] == old_out[j - 1]);
                    if j - 1 > p {
                        lemma_lex_transitive(
                            entry_key(x),
                            entry_key(old_out[p as int]),
                            entry_key(old_out[j - 1]),
                        );
                    }
                } else if i < p {
                    assert(out@[i] == old_out[i] && out@[j] == old_out[j - 1]);
                } else {
                    assert(out@[i] == old_out[i - 1] && out@[j] == old_out[j - 1]);
                }
            }
            assert(out@.to_multiset().add(rest@.to_multiset()) =~= all.to_multiset());
        }
    }
    proof {
        assert(rest@.to_multiset() =~= vstd::multiset::Multiset::empty());
        assert(out@.to_multiset() =~= all.to_multiset());
    }
    out
}

// ---------------------------------------------------------------------------
// Walking one directory.
// ---------------------------------------------------------------------------

/// What the walk does with one entry.
pub enum EntryEffect {
    /// Symbolic links, ignored or escaping directories, files the editor
    /// cannot open, and anything else.
    Skip,
    /// A directory of the project: visit it after this one.
    Descend,
    /// An editable file: list it under its relative path.
    List(Seq<char>),
    /// An editable file outside the root: the listing fails.
    Escape,
}

pub open spec fn entry_effect(root: Seq<char>, e: ScanEntry) -> EntryEffect {
    match e.kind {
        EntryKind::Directory => if ignored_directory(e.name@) {
            EntryEffect::Skip
        } else if relative_below(root, replace_char_seq(e.canonical@, '\\', '/')) is Some {
            EntryEffect::Descend
        } else {
            EntryEffect::Skip
        },
        EntryKind::File => if !editable_path(e.path@) {
            EntryEffect::Skip
        } else {
            match relative_below(root, replace_char_seq(e.path@, '\\', '/')) {
                Some(rel) => EntryEffect::List(rel),
                None => EntryEffect::Escape,
            }
        },
        _ => EntryEffect::Skip,
    }
}

/// How the walk of a directory's entries ended.
#[derive(Debug, Clone, Copy, PartialEq, Eq, Structural)]
pub enum WalkEnd {
    /// Every entry was looked at.
    Done,
    /// The listing reached its file limit.
    Full,
    /// A file lay outside the root.
    Escaped,
}

/// The files listed (relative path and entry), the directories to visit and
/// how the walk ended, from entry `i` on with `count` files listed so far.
pub open spec fn walk(root: Seq<char>, es: Seq<ScanEntry>, i: int, count: int) -> (
    Seq<(Seq<char>, ScanEntry)>,
    Seq<Seq<char>>,
    WalkEnd,
)
    decreases es.len() - i,
{
    if i < 0 || i >= es.len() {
        (Seq::empty(), Seq::empty(), WalkEnd::Done)
    } else if count >= MAX_PROJECT_FILES {
        (Seq::empty(), Seq::empty(), WalkEnd::Full)
    } else {
        match entry_effect(root, es[i]) {
            EntryEffect::Skip => walk(root, es, i + 1, count),
            EntryEffect::Descend => {
                let w = walk(root, es, i + 1, count);
                (w.0, seq![es[i].path@] + w.1, w.2)
            },
            EntryEffect::List(rel) => {
                let w = walk(root, es, i + 1, count + 1);
                (seq![(rel, es[i])] + w.0, w.1, w.2)
            },
            EntryEffect::Escape => (Seq::empty(), Seq::empty(), WalkEnd::Escaped),
        }
    }
}

/// The file `f` is how the project tree shows an editable entry of `es`
/// that lies under the root.
pub open spec fn listed_from(
    root: Seq<char>,
    es: Seq<ScanEntry>,
    f: (Seq<char>, Seq<char>, Seq<char>, u64),
) -> bool {
    exists|j: int, rel: Seq<char>|
        #![trigger listed_file(rel, es[j])]
        0 <= j < es.len() && entry_effect(root, es[j]) == EntryEffect::List(rel) && f == listed_file(
            rel,
            es[j],
        )
}

proof fn lemma_walk_listed(root: Seq<char>, es: Seq<ScanEntry>, i: int, count: int)
    ensures
        forall|k: int|
            0 <= k < walk(root, es, i, count).0.len() ==> listed_from(
                root,
                es,
                listed_file(
                    (#[trigger] walk(root, es, i, count).0[k]).0,
                    walk(root, es, i, count).0[k].1,
                ),
            ),
    decreases es.len() - i,
{
    if 0 <= i < es.len() && count < MAX_PROJECT_FILES {
        match entry_effect(root, es[i]) {
            EntryEffect::Skip => {
                lemma_walk_listed(root, es, i + 1, count);
                assert(walk(root, es, i, count) == walk(root, es, i + 1, count));
            },
            EntryEffect::Descend => {
                lemma_walk_listed(root, es, i + 1, count);
                let w = walk(root, es, i, count);
                let nx = walk(root, es, i + 1, count);
                assert(w.0 == nx.0);
                assert forall|k: int| 0 <= k < w.0.len() implies listed_from(
                    root,
                    es,
                    listed_file((#[trigger] w.0[k]).0, w.0[k].1),
                ) by {
                    assert(w.0[k] == nx.0[k]);
                }
            },
            EntryEffect::List(rel) => {
                lemma_walk_listed(root, es, i + 1, count + 1);
                let w = walk(root, es, i, count);
                let nx = walk(root, es, i + 1, count + 1);
                assert forall|k: int| 0 <= k < w.0.len() implies listed_from(
                    root,
                    es,
                    listed_file((#[trigger] w.0[k]).0, w.0[k].1),
                ) by {
                    if k == 0 {
                        assert(w.0 == seq![(rel, es[i])] + nx.0);
                        assert(w.0[0] == (rel, es[i]));
                        assert(listed_file(rel, es[i]) == listed_file(w.0[k].0, w.0[k].1));
                    } else {
                        assert(w.0 == seq![(rel, es[i])] + nx.0);
                        assert(w.0[k] == nx.0[k - 1]);
                    }
                }
            },
            EntryEffect::Escape => {},
        }
    }
}

/// A walk that looked at every entry lists every editable entry under the
/// root.
proof fn lemma_walk_complete(root: Seq<char>, es: Seq<ScanEntry>, i: int, count: int)
    requires
        0 <= i,
        walk(root, es, i, count).2 == WalkEnd::Done,
    ensures
        forall|j: int|
            i <= j < es.len() && entry_effect(root, #[trigger] es[j]) is List
                ==> walk(root, es, i, count).0.contains((entry_effect(root, es[j])->List_0, es[j])),
    decreases es.len() - i,
{
    if i < es.len() {
        if count < MAX_PROJECT_FILES {
            let w = walk(root, es, i, count);
            match entry_effect(root, es[i]) {
                EntryEffect::Skip => {
                    lemma_walk_complete(root, es, i + 1, count);
                },
                EntryEffect::Descend => {
                    lemma_walk_complete(root, es, i + 1, count);
                    assert(w.0 == walk(root, es, i + 1, count).0);
                },
                EntryEffect::List(r0) => {
                    let nx = walk(root, es, i + 1, count + 1);
                    lemma_walk_complete(root, es, i + 1, count + 1);
                    assert(w.0 == seq![(r0, es[i])] + nx.0);
                    assert forall|j: int|
                        i <= j < es.len() && entry_effect(root, #[trigger] es[j]) is List
                            implies w.0.contains((entry_effect(root, es[j])->List_0, es[j])) by {
                        let rel = entry_effect(root, es[j])->List_0;
                        if j == i {
                            assert(w.0[0] == (rel, es[j]));
                        } else {
                            let k = choose|k: int| 0 <= k < nx.0.len() && nx.0[k] == (rel, es[j]);
                            assert(w.0[k + 1] == (rel, es[j]));
                        }
                    }
                },
                EntryEffect::Escape => {},
            }
        }
    }
}

/// What one list shows from its entries, a list holding them shows too.
proof fn lemma_listed_perm(
    root: Seq<char>,
    a: Seq<ScanEntry>,
    b: Seq<ScanEntry>,
    f: (Seq<char>, Seq<char>, Seq<char>, u64),
)
    requires
        a.to_multiset() == b.to_multiset(),
        listed_from(root, a, f),
    ensures
        listed_from(root, b, f),
{
    let (j, rel) = choose|j: int, rel: Seq<char>|
        #![trigger listed_file(rel, a[j])]
        0 <= j < a.len() && entry_effect(root, a[j]) == EntryEffect::List(rel) && f == listed_file(
            rel,
            a[j],
        );
    assert(a.contains(a[j]));
    vstd::seq_lib::to_multiset_contains(a, a[j]);
    vstd::seq_lib::to_multiset_contains(b, a[j]);
    let j2 = choose|j2: int| 0 <= j2 < b.len() && b[j2] == a[j];
    assert(listed_file(rel, b[j2]) == f);
}

/// A list that starts with the entries of another shows what it shows.
proof fn lemma_listed_prefix(
    root: Seq<char>,
    small: Seq<ScanEntry>,
    big: Seq<ScanEntry>,
    f: (Seq<char>, Seq<char>, Seq<char>, u64),
)
    requires
        small.len() <= big.len(),
        forall|j: int| 0 <= j < small.len() ==> small[j] == big[j],
        listed_from(root, small, f),
    ensures
        listed_from(root, big, f),
{
    let (j, rel) = choose|j: int, rel: Seq<char>|
        #![trigger listed_file(rel, small[j])]
        0 <= j < small.len() && entry_effect(root, small[j]) == EntryEffect::List(rel) && f
            == listed_file(rel, small[j]);
    assert(small[j] == big[j]);
    assert(listed_file(rel, big[j]) == f);
}

/// A listed file as the project tree shows it.
pub open spec fn listed_file(rel: Seq<char>, e: ScanEntry) -> (Seq<char>, Seq<char>, Seq<char>, u64) {
    (rel, e.name@, "source"@, e.size_bytes)
}

pub open spec fn file_view(f: ProjectFile) -> (Seq<char>, Seq<char>, Seq<char>, u64) {
    (f.path@, f.name@, f.kind@, f.size_bytes)
}

/// What a directory scan tells the caller: whether the listing is cut
/// short, and which directories to visit next, in order.
#[derive(Debug, Clone)]
pub struct DirectoryScan {
    pub truncated: bool,
    pub directories: Vec<String>,
}

/// Every file listed is shown as project source.
pub open spec fn all_source(fs: Seq<(Seq<char>, Seq<char>, Seq<char>, u64)>) -> bool {
    forall|i: int| 0 <= i < fs.len() ==> (#[trigger] fs[i]).2 == "source"@
}

/// The entries a scan keeps of those read: those within the entry budget
/// left after `scanned` entries.
pub open spec fn kept_of(entries: Seq<ScanEntry>, scanned: nat) -> Seq<ScanEntry> {
    let remaining = MAX_PROJECT_ENTRIES - scanned;
    if entries.len() > remaining {
        entries.take(remaining)
    } else {
        entries
    }
}

/// The listing of a project being walked.
pub struct ProjectScan {
    root: String,
    files: Vec<ProjectFile>,
    scanned: usize,
}

impl ProjectScan {
    pub closed spec fn root(&self) -> Seq<char> {
        self.root@
    }

    /// The files listed so far.
    pub closed spec fn files(&self) -> Seq<(Seq<char>, Seq<char>, Seq<char>, u64)> {
        self.files@.map_values(|f: ProjectFile| file_view(f))
    }

    /// The entries read so far.
    pub closed spec fn scanned(&self) -> nat {
        self.scanned as nat
    }

    pub closed spec fn wf(&self) -> bool {
        &&& self.scanned <= MAX_PROJECT_ENTRIES
        &&& self.files@.len() <= MAX_PROJECT_FILES
        &&& all_source(self.files())
    }

    pub fn new(root: &str) -> (r: Self)
        ensures
            r.wf(),
            r.root() == root@,
            r.files().len() == 0,
            r.scanned() == 0,
    {
        ProjectScan { root: owned(root), files: Vec::new(), scanned: 0 }
    }

    /// How many entries to read from a directory at a depth: one more than
    /// the entries left, to tell whether the directory has more; none when the
    /// directory lies too deep or no entries are left, which truncates the
    /// listing.
    pub fn read_budget(&self, depth: usize) -> (r: Option<usize>)
        requires
            self.wf(),
        ensures
            (depth > MAX_PROJECT_DEPTH || self.scanned() == MAX_PROJECT_ENTRIES) ==> r is None,
            !(depth > MAX_PROJECT_DEPTH || self.scanned() == MAX_PROJECT_ENTRIES) ==> r == Some(
                (MAX_PROJECT_ENTRIES - self.scanned() + 1) as usize,
            ),
    {
        if depth > MAX_PROJECT_DEPTH || self.scanned >= MAX_PROJECT_ENTRIES {
            None
        } else {
            Some(MAX_PROJECT_ENTRIES - self.scanned + 1)
        }
    }

    /// Takes the entries read from one directory: keeps those within the
    /// entry budget, looks at them by name, lists the editable files, and
    /// says which directories to visit next and whether the listing is cut
    /// short.
    pub fn scan_directory(&mut self, entries: Vec<ScanEntry>) -> (r: Result<
        DirectoryScan,
        ProjectError,
    >)
        requires
            old(self).wf(),
            old(self).scanned() < MAX_PROJECT_ENTRIES,
        ensures
            final(self).wf(),
            final(self).root() == old(self).root(),
            extends(old(self).files(), final(self).files()),
            r is Ok && !r->Ok_0.truncated ==> lists_all(
                old(self).root(),
                kept_of(entries@, old(self).scanned()),
                final(self).files(),
            ),
            ({
                let remaining = MAX_PROJECT_ENTRIES - old(self).scanned();
                let kept = if entries@.len() > remaining {
                    entries@.take(remaining)
                } else {
                    entries@
                };
                &&& final(self).scanned() == old(self).scanned() + kept.len()
                &&& forall|k: int|
                    old(self).files().len() <= k < final(self).files().len() ==> listed_from(
                        old(self).root(),
                        kept,
                        #[trigger] final(self).files()[k],
                    )
                &&& exists|order: Seq<ScanEntry>|
                    #[trigger] order.to_multiset() == kept.to_multiset() && sorted_by_name(order)
                        && scanned_as(
                        old(self).root(),
                        order,
                        old(self).files(),
                        final(self).files(),
                        entries@.len() > remaining,
                        r,
                    )
            }),
    {
        let ghost entries_arg = entries@;
        let remaining = MAX_PROJECT_ENTRIES - self.scanned;
        let limit_reached = entries.len() > remaining;
        let mut entries = entries;
        if limit_reached {
            entries.truncate(remaining);
        }
        self.scanned = self.scanned + entries.len();
        let ghost entries_kept = entries@;
        let order = sort_entries(entries);
        let ghost before = self.files();
        let (listed, directories, end) = walk_entries(self.root.as_str(), &order, self.files.len());
        let mut listed = listed;
        let ghost old_files = self.files@;
        self.files.append(&mut listed);
        proof {
            lemma_walk_count_bound(self.root@, order@, 0, old_files.len() as int);
            assert(self.files@.map_values(|f: ProjectFile| file_view(f)) =~= old_files.map_values(
                |f: ProjectFile| file_view(f),
            ) + walk(self.root@, order@, 0, old_files.len() as int).0.map_values(
                |x: (Seq<char>, ScanEntry)| listed_file(x.0, x.1),
            ));
            assert(self.files@.map_values(|f: ProjectFile| file_view(f)).len() == self.files@.len());
        }
        let r = match end {
            WalkEnd::Escaped => Err(ProjectError::NotUnderRoot),
            WalkEnd::Full => Ok(DirectoryScan { truncated: true, directories }),
            WalkEnd::Done => Ok(DirectoryScan { truncated: limit_reached, directories }),
        };
        assert(scanned_as(self.root@, order@, before, self.files(), limit_reached, r));
        assert(self.files().subrange(0, before.len() as int) =~= before);
        proof {
            let w = walk(self.root@, order@, 0, before.len() as int);
            lemma_walk_listed(self.root@, order@, 0, before.len() as int);
            assert forall|k: int| before.len() <= k < self.files().len() implies listed_from(
                self.root@,
                entries_kept,
                #[trigger] self.files()[k],
            ) by {
                let x = w.0[k - before.len()];
                assert(self.files()[k] == listed_file(x.0, x.1));
                lemma_listed_perm(self.root@, order@, entries_kept, self.files()[k]);
            }
            if r is Ok && !r->Ok_0.truncated {
                assert(w.2 == WalkEnd::Done);
                lemma_walk_complete(self.root@, order@, 0, before.len() as int);
                assert(entries_kept =~= kept_of(entries_arg, old(self).scanned()));
                assert forall|j: int|
                    0 <= j < entries_kept.len() && entry_effect(self.root@, #[trigger] entries_kept[j]) is List
                        implies self.files().contains(
                        listed_file(entry_effect(self.root@, entries_kept[j])->List_0, entries_kept[j]),
                    ) by {
                    broadcast use vstd::seq_lib::group_to_multiset_ensures;

                    let rel = entry_effect(self.root@, entries_kept[j])->List_0;
                    assert(entries_kept.contains(entries_kept[j]));
                    vstd::seq_lib::to_multiset_contains(entries_kept, entries_kept[j]);
                    vstd::seq_lib::to_multiset_contains(order@, entries_kept[j]);
                    let j2 = choose|j2: int| 0 <= j2 < order@.len() && order@[j2] == entries_kept[j];
                    assert(entry_effect(self.root@, order@[j2]) == EntryEffect::List(rel));
                    assert(w.0.contains((rel, order@[j2])));
                    let k = choose|k: int| 0 <= k < w.0.len() && w.0[k] == (rel, order@[j2]);
                    assert(self.files()[before.len() + k] == listed_file(rel, entries_kept[j]));
                }
            }
        }
        r
    }

    /// The state of the project when the walk is over.
    pub fn finish(self, truncated: bool) -> (r: ProjectState)
        requires
            self.wf(),
        ensures
            r.files@.len() <= MAX_PROJECT_FILES,
            forall|i: int| 0 <= i < r.files@.len() ==> (#[trigger] r.files@[i]).kind@ == "source"@,
            r.root@ == crate::project::display_path_spec(self.root()),
            r.truncated == truncated,
            r.files@.map_values(|f: ProjectFile| file_view(f)).to_multiset()
                == self.files().to_multiset(),
            files_sorted(r.files@),
    {
        let root = display_path(self.root.as_str());
        let ghost before = self.files();
        let files = sort_files(self.files);
        proof {
            broadcast use vstd::seq_lib::group_to_multiset_ensures;

            let after = files@.map_values(|f: ProjectFile| file_view(f));
            assert(after.len() == files@.len());
            assert(before.len() == self.files@.len());
            assert forall|i: int| 0 <= i < files@.len() implies (#[trigger] files@[i]).kind@
                == "source"@ by {
                assert(after[i] == file_view(files@[i]));
                assert(after.contains(after[i]));
                vstd::seq_lib::to_multiset_contains(after, after[i]);
                vstd::seq_lib::to_multiset_contains(before, after[i]);
                assert(before.contains(after[i]));
                let k = choose|k: int| 0 <= k < before.len() && before[k] == after[i];
                assert(before[k].2 == "source"@);
            }
            assert(after.to_multiset().len() == before.to_multiset().len());
        }
        ProjectState { root, files, truncated }
    }
}

/// What a directory scan did: the files it listed after those listed before,
/// and its answer.
pub open spec fn scanned_as(
    root: Seq<char>,
    order: Seq<ScanEntry>,
    before: Seq<(Seq<char>, Seq<char>, Seq<char>, u64)>,
    after: Seq<(Seq<char>, Seq<char>, Seq<char>, u64)>,
    limit_reached: bool,
    r: Result<DirectoryScan, ProjectError>,
) -> bool {
    let w = walk(root, order, 0, before.len() as int);
    &&& after == before + w.0.map_values(|x: (Seq<char>, ScanEntry)| listed_file(x.0, x.1))
    &&& match w.2 {
        WalkEnd::Escaped => r == Err::<DirectoryScan, ProjectError>(ProjectError::NotUnderRoot),
        WalkEnd::Full => r matches Ok(d) && d.truncated,
        WalkEnd::Done => r matches Ok(d) && d.truncated == limit_reached
            && d.directories@.map_values(|s: String| s@) == w.1,
    }
}

proof fn lemma_walk_count_bound(root: Seq<char>, es: Seq<ScanEntry>, i: int, count: int)
    requires
        0 <= count <= MAX_PROJECT_FILES,
    ensures
        count + walk(root, es, i, count).0.len() <= MAX_PROJECT_FILES,
    decreases es.len() - i,
{
    if 0 <= i < es.len() && count < MAX_PROJECT_FILES {
        match entry_effect(root, es[i]) {
            EntryEffect::Skip => lemma_walk_count_bound(root, es, i + 1, count),
            EntryEffect::Descend => lemma_walk_count_bound(root, es, i + 1, count),
            EntryEffect::List(_) => lemma_walk_count_bound(root, es, i + 1, count + 1),
            EntryEffect::Escape => {},
        }
    }
}

/// Walks sorted entries, listing files after `count` listed before.
fn walk_entries(root: &str, order: &Vec<ScanEntry>, count: usize) -> (r: (
    Vec<ProjectFile>,
    Vec<String>,
    WalkEnd,
))
    requires
        count <= MAX_PROJECT_FILES,
    ensures
        ({
            let w = walk(root@, order@, 0, count as int);
            &&& r.0@.map_values(|f: ProjectFile| file_view(f)) == w.0.map_values(
                |x: (Seq<char>, ScanEntry)| listed_file(x.0, x.1),
            )
            &&& r.1@.map_values(|s: String| s@) == w.1
            &&& r.2 == w.2
        }),
{
    let ghost whole = walk(root@, order@, 0, count as int);
    let ghost mut acc_f: Seq<(Seq<char>, ScanEntry)> = Seq::empty();
    let ghost mut acc_d: Seq<Seq<char>> = Seq::empty();
    let mut files: Vec<ProjectFile> = Vec::new();
    let mut dirs: Vec<String> = Vec::new();
    let mut c: usize = count;
    let n = order.len();
    let mut i: usize = 0;
    proof {
        lemma_walk_count_bound(root@, order@, 0, count as int);
    }
    while i < n
        invariant
            n == order@.len(),
            0 <= i <= n,
            count <= c <= MAX_PROJECT_FILES,
            c == count + acc_f.len(),
            whole == walk(root@, order@, 0, count as int),
            whole.0 == acc_f + walk(root@, order@, i as int, c as int).0,
            whole.1 == acc_d + walk(root@, order@, i as int, c as int).1,
            whole.2 == walk(root@, order@, i as int, c as int).2,
            files@.map_values(|f: ProjectFile| file_view(f)) == acc_f.map_values(
                |x: (Seq<char>, ScanEntry)| listed_file(x.0, x.1),
            ),
            dirs@.map_values(|s: String| s@) == acc_d,
        decreases n - i,
    {
        if c >= MAX_PROJECT_FILES {
            assert(whole.0 =~= acc_f);
            assert(whole.1 =~= acc_d);
            return (files, dirs, WalkEnd::Full);
        }
        let e = &order[i];
        let ghost w = walk(root@, order@, i as int, c as int);
        let ghost next = walk(root@, order@, i + 1, c as int);
        match e.kind {
            EntryKind::Directory => {
                if !ignored_project_directory(e.name.as_str()) && relative_project_path(
                    root,
                    e.canonical.as_str(),
                ).is_ok() {
                    let ghost d0 = dirs@;
                    dirs.push(e.path.clone());
                    proof {
                        assert(dirs@.map_values(|s: String| s@) =~= d0.map_values(|s: String| s@).push(
                            order@[i as int].path@,
                        ));
                        assert(w.1 =~= seq![order@[i as int].path@] + next.1);
                        acc_d = acc_d.push(order@[i as int].path@);
                        assert(whole.1 =~= acc_d + next.1);
                    }
                }
            },
            EntryKind::File => {
                if ensure_editable_file(e.path.as_str()).is_ok() {
                    match relative_project_path(root, e.path.as_str()) {
                        Ok(rel) => {
                            let ghost f0 = files@;
                            let ghost item = (rel@, order@[i as int]);
                            files.push(
                                ProjectFile {
                                    path: rel,
                                    name: e.name.clone(),
                                    kind: owned("source"),
                                    size_bytes: e.size_bytes,
                                },
                            );
                            proof {
                                let nx = walk(root@, order@, i + 1, c + 1);
                                assert(w.0 =~= seq![item] + nx.0);
                                assert(files@.map_values(|f: ProjectFile| file_view(f)) =~= f0.map_values(
                                    |f: ProjectFile| file_view(f),
                                ).push(listed_file(item.0, item.1)));
                                acc_f = acc_f.push(item);
                                assert(acc_f.map_values(|x: (Seq<char>, ScanEntry)| listed_file(x.0, x.1))
                                    =~= acc_f.drop_last().map_values(
                                    |x: (Seq<char>, ScanEntry)| listed_file(x.0, x.1),
                                ).push(listed_file(item.0, item.1)));
                                assert(whole.0 =~= acc_f + nx.0);
                                lemma_walk_count_bound(root@, order@, i as int, c as int);
                            }
                            c = c + 1;
                        },
                        Err(_) => {
                            assert(whole.0 =~= acc_f);
                            assert(whole.1 =~= acc_d);
                            return (files, dirs, WalkEnd::Escaped);
                        },
                    }
                }
            },
            _ => {},
        }
        i = i + 1;
    }
    assert(whole.0 =~= acc_f);
    assert(whole.1 =~= acc_d);
    (files, dirs, WalkEnd::Done)
}

pub open spec fn files_sorted(fs: Seq<ProjectFile>) -> bool {
    forall|i: int, j: int| 0 <= i < j < fs.len() ==> lex_le(fs[i].path@, fs[j].path@)
}

/// Sorts listed files by path.
fn sort_files(files: Vec<ProjectFile>) -> (r: Vec<ProjectFile>)
    ensures
        r@.map_values(|f: ProjectFile| file_view(f)).to_multiset() == files@.map_values(
            |f: ProjectFile| file_view(f),
        ).to_multiset(),
        files_sorted(r@),
{
    let mut rest = files;
    let mut out: Vec<ProjectFile> = Vec::new();
    let ghost all = rest@.map_values(|f: ProjectFile| file_view(f));
    proof {
        broadcast use vstd::seq_lib::group_to_multiset_ensures;
    }
    while rest.len() > 0
        invariant
            out@.map_values(|f: ProjectFile| file_view(f)).to_multiset().add(
                rest@.map_values(|f: ProjectFile| file_view(f)).to_multiset(),
            ) == all.to_multiset(),
            files_sorted(out@),
        decreases rest.len(),
    {
        let ghost before_rest = rest@;
        let x = rest.pop().unwrap();
        proof {
            assert(before_rest.map_values(|f: ProjectFile| file_view(f)) =~= rest@.map_values(
                |f: ProjectFile| file_view(f),
            ).push(file_view(x)));
            vstd::seq_lib::to_multiset_build(rest@.map_values(|f: ProjectFile| file_view(f)), file_view(x));
        }
        let key = chars_of(x.path.as_str());
        let n = out.len();
        let mut p: usize = 0;
        while p < n
            invariant_except_break
                n == out@.len(),
                0 <= p <= n,
                key@ == x.path@,
                forall|k: int| 0 <= k < p ==> lex_le((#[trigger] out@[k]).path@, key@),
            ensures
                0 <= p <= n,
                forall|k: int| 0 <= k < p ==> lex_le((#[trigger] out@[k]).path@, key@),
                p < n ==> !lex_le(out@[p as int].path@, key@),
            decreases n - p,
        {
            let k = chars_of(out[p].path.as_str());
            if !lex_le_exec(&k, &key) {
                break;
            }
            p = p + 1;
        }
        let ghost old_out = out@;
        out.insert(p, x);
        proof {
            assert(out@.map_values(|f: ProjectFile| file_view(f)) =~= old_out.map_values(
                |f: ProjectFile| file_view(f),
            ).insert(p as int, file_view(x)));
            vstd::seq_lib::to_multiset_insert(
                old_out.map_values(|f: ProjectFile| file_view(f)),
                p as int,
                file_view(x),
            );
            if p < n {
                lemma_lex_total(old_out[p as int].path@, key@);
            }
            assert forall|i: int, j: int| 0 <= i < j < out@.len() implies lex_le(
                out@[i].path@,
                out@[j].path@,
            ) by {
                if j < p {
                } else if j == p {
                    assert(out@[i] == old_out[i]);
                } else if i == p {
                    assert(out@[j] == old_out[j - 1]);
                    if j - 1 > p {
                        lemma_lex_transitive(x.path@, old_out[p as int].path@, old_out[j - 1].path@);
                    }
                } else if i < p {
                    assert(out@[i] == old_out[i] && out@[j] == old_out[j - 1]);
                } else {
                    assert(out@[i] == old_out[i - 1] && out@[j] == old_out[j - 1]);
                }
            }
            assert(out@.map_values(|f: ProjectFile| file_view(f)).to_multiset().add(
                rest@.map_values(|f: ProjectFile| file_view(f)).to_multiset(),
            ) =~= all.to_multiset());
        }
    }
    proof {
        assert(rest@.map_values(|f: ProjectFile| file_view(f)).to_multiset()
            =~= vstd::multiset::Multiset::empty());
    }
    out
}

// ---------------------------------------------------------------------------
// The whole walk.
// ---------------------------------------------------------------------------

/// What reading a directory gives: its first entries up to the limit, or
/// the reason it cannot be read.
pub open spec fn read_as(
    listing: Result<Seq<ScanEntry>, Seq<char>>,
    limit: usize,
    r: Result<Vec<ScanEntry>, String>,
) -> bool {
    match listing {
        Ok(all) => r matches Ok(v) && v@ == first_at_most(all, limit as nat),
        Err(m) => r matches Err(e) && e@ == m,
    }
}

/// Reads directories for a listing. A reader may describe the tree it reads
/// (`models`): then `listing` says what each directory holds, reading changes
/// nothing, and each read gives the directory's first entries. A reader that
/// does not, such as one over a live file system, promises nothing.
pub trait DirectoryReader {
    /// Whether this reader reads the fixed tree that `listing` describes.
    open spec fn models(&self) -> bool {
        false
    }

    /// The entries a directory holds, in the order the file system gives
    /// them, or why it cannot be read.
    open spec fn listing(&self, directory: Seq<char>) -> Result<Seq<ScanEntry>, Seq<char>> {
        Err(directory)
    }

    /// Reads at most `limit` entries of a directory.
    fn read_entries(&mut self, directory: &str, limit: usize) -> (r: Result<Vec<ScanEntry>, String>)
        ensures
            old(self).models() ==> {
                &&& final(self).models()
                &&& forall|d: Seq<char>| #[trigger] final(self).listing(d) == old(self).listing(d)
                &&& read_as(old(self).listing(directory@), limit, r)
            },
    ;
}

impl ScanEntry {
    pub fn copied(&self) -> (r: Self)
        ensures
            r == *self,
    {
        ScanEntry {
            name: self.name.clone(),
            path: self.path.clone(),
            kind: self.kind,
            size_bytes: self.size_bytes,
            canonical: self.canonical.clone(),
        }
    }
}

/// What the tree says of directory `d`: the first of `dirs` named `d`.
pub open spec fn tree_listing(
    dirs: Seq<(String, Result<Vec<ScanEntry>, String>)>,
    d: Seq<char>,
) -> Result<Seq<ScanEntry>, Seq<char>>
    decreases dirs.len(),
{
    if dirs.len() == 0 {
        Err("cannot read "@ + d)
    } else if dirs[0].0@ == d {
        match dirs[0].1 {
            Ok(v) => Ok(v@),
            Err(m) => Err(m@),
        }
    } else {
        tree_listing(dirs.drop_first(), d)
    }
}

/// A directory tree held in memory: each directory's entries, or why it
/// cannot be read; a directory it does not name cannot be read.
pub struct ListedTree {
    dirs: Vec<(String, Result<Vec<ScanEntry>, String>)>,
}

impl ListedTree {
    /// A tree of the given directories, each with what reading it gives.
    pub fn new(dirs: Vec<(String, Result<Vec<ScanEntry>, String>)>) -> (r: Self)
        ensures
            r.models(),
            forall|d: Seq<char>| #[trigger] r.listing(d) == tree_listing(dirs@, d),
    {
        ListedTree { dirs }
    }
}

fn copy_entries(v: &Vec<ScanEntry>, limit: usize) -> (r: Vec<ScanEntry>)
    ensures
        r@ == first_at_most(v@, limit as nat),
{
    let n = if v.len() <= limit {
        v.len()
    } else {
        limit
    };
    let mut out: Vec<ScanEntry> = Vec::new();
    let mut i: usize = 0;
    while i < n
        invariant
            n <= v@.len(),
            0 <= i <= n,
            out@ == v@.take(i as int),
        decreases n - i,
    {
        out.push(v[i].copied());
        proof {
            assert(out@ =~= v@.take(i + 1));
        }
        i = i + 1;
    }
    assert(out@ =~= first_at_most(v@, limit as nat));
    out
}

impl DirectoryReader for ListedTree {
    open spec fn models(&self) -> bool {
        true
    }

    closed spec fn listing(&self, directory: Seq<char>) -> Result<Seq<ScanEntry>, Seq<char>> {
        tree_listing(self.dirs@, directory)
    }

    fn read_entries(&mut self, directory: &str, limit: usize) -> (r: Result<Vec<ScanEntry>, String>) {
        let mut i: usize = 0;
        assert(self.dirs@.skip(0) =~= self.dirs@);
        while i < self.dirs.len()
            invariant
                0 <= i <= self.dirs@.len(),
                tree_listing(self.dirs@, directory@) == tree_listing(self.dirs@.skip(i as int), directory@),
            decreases self.dirs.len() - i,
        {
            proof {
                assert(self.dirs@.skip(i as int).drop_first() =~= self.dirs@.skip(i + 1));
            }
            if str_eq(self.dirs[i].0.as_str(), directory) {
                return match &self.dirs[i].1 {
                    Ok(v) => Ok(copy_entries(v, limit)),
                    Err(m) => Err(m.clone()),
                };
            }
            i = i + 1;
        }
        Err(concat("cannot read ", directory))
    }
}

/// The listing `b` keeps every file of `a`, in place, and may add more.
pub open spec fn extends(
    a: Seq<(Seq<char>, Seq<char>, Seq<char>, u64)>,
    b: Seq<(Seq<char>, Seq<char>, Seq<char>, u64)>,
) -> bool {
    a.len() <= b.len() && b.subrange(0, a.len() as int) == a
}

proof fn lemma_extends_trans(
    a: Seq<(Seq<char>, Seq<char>, Seq<char>, u64)>,
    b: Seq<(Seq<char>, Seq<char>, Seq<char>, u64)>,
    c: Seq<(Seq<char>, Seq<char>, Seq<char>, u64)>,
)
    requires
        extends(a, b),
        extends(b, c),
    ensures
        extends(a, c),
{
    assert(c.subrange(0, a.len() as int) =~= c.subrange(0, b.len() as int).subrange(0, a.len() as int));
}

/// An error of the walk: a directory the reader could not read, or an entry
/// that leads outside the root.
pub open spec fn walk_error(e: ProjectError) -> bool {
    e is ReadFailed || e is NotUnderRoot
}

/// The file `f` is how the project tree shows an editable entry, lying under
/// the root, of a directory the reader lists.
pub open spec fn sourced<R: DirectoryReader>(
    reader: R,
    root: Seq<char>,
    f: (Seq<char>, Seq<char>, Seq<char>, u64),
) -> bool {
    exists|d: Seq<char>|
        #![trigger reader.listing(d)]
        reader.listing(d) is Ok && listed_from(root, reader.listing(d)->Ok_0, f)
}

proof fn lemma_sourced_same<R: DirectoryReader>(
    a: R,
    b: R,
    root: Seq<char>,
    f: (Seq<char>, Seq<char>, Seq<char>, u64),
)
    requires
        forall|d: Seq<char>| #[trigger] b.listing(d) == a.listing(d),
        sourced(a, root, f),
    ensures
        sourced(b, root, f),
{
    let d = choose|d: Seq<char>|
        #![trigger a.listing(d)]
        a.listing(d) is Ok && listed_from(root, a.listing(d)->Ok_0, f);
    assert(b.listing(d) == a.listing(d));
}

/// The listing `fs` shows every editable entry of `es` that lies under the
/// root.
pub open spec fn lists_all(
    root: Seq<char>,
    es: Seq<ScanEntry>,
    fs: Seq<(Seq<char>, Seq<char>, Seq<char>, u64)>,
) -> bool {
    forall|j: int|
        0 <= j < es.len() && entry_effect(root, #[trigger] es[j]) is List ==> fs.contains(
            listed_file(entry_effect(root, es[j])->List_0, es[j]),
        )
}

proof fn lemma_lists_all_extends(
    root: Seq<char>,
    es: Seq<ScanEntry>,
    a: Seq<(Seq<char>, Seq<char>, Seq<char>, u64)>,
    b: Seq<(Seq<char>, Seq<char>, Seq<char>, u64)>,
)
    requires
        lists_all(root, es, a),
        extends(a, b),
    ensures
        lists_all(root, es, b),
{
    assert forall|j: int|
        0 <= j < es.len() && entry_effect(root, #[trigger] es[j]) is List implies b.contains(
            listed_file(entry_effect(root, es[j])->List_0, es[j]),
        ) by {
        let x = listed_file(entry_effect(root, es[j])->List_0, es[j]);
        let k = choose|k: int| 0 <= k < a.len() && a[k] == x;
        assert(b.subrange(0, a.len() as int)[k] == b[k]);
    }
}

/// The listing never walks into version control, tool state or dependency
/// caches: a directory entry named `.git`, `.rho`, `.Rproj.user`,
/// `.worktrees`, `target`, `renv` or `node_modules`, in any letter case, is
/// skipped, so no directory below it is reachable through it and none of its
/// files is listed.
pub proof fn law_ignored_directories_are_never_entered(root: Seq<char>, e: ScanEntry)
    requires
        e.kind == EntryKind::Directory,
        ({
            let n = lower_seq(e.name@);
            ||| n == ".git"@
            ||| n == ".rho"@
            ||| n == ".rproj.user"@
            ||| n == ".worktrees"@
            ||| n == "target"@
            ||| n == "renv"@
            ||| n == "node_modules"@
        }),
    ensures
        entry_effect(root, e) == EntryEffect::Skip,
{
    crate::project::law_tool_directories_are_ignored(e.name@);
}

/// Directory `d` lies `k` steps below `from` in the tree the reader lists:
/// each step goes into a directory entry that the walk descends into.
pub open spec fn reachable<R: DirectoryReader>(
    reader: R,
    root: Seq<char>,
    from: Seq<char>,
    d: Seq<char>,
    k: nat,
) -> bool
    decreases k,
{
    if k == 0 {
        d == from
    } else {
        match reader.listing(from) {
            Ok(es) => exists|j: int|
                #![trigger es[j]]
                0 <= j < es.len() && entry_effect(root, es[j]) == EntryEffect::Descend && reachable(
                    reader,
                    root,
                    es[j].path@,
                    d,
                    (k - 1) as nat,
                ),
            Err(_) => false,
        }
    }
}

/// A listing that can be read and holds no editable file outside the root.
pub open spec fn readable_listing(root: Seq<char>, l: Result<Seq<ScanEntry>, Seq<char>>) -> bool {
    &&& l is Ok
    &&& forall|j: int|
        0 <= j < l->Ok_0.len() ==> entry_effect(root, #[trigger] l->Ok_0[j])
            != EntryEffect::Escape
}

/// Every directory within reach of `from`, which lies at `depth`, down to the
/// depth bound, has a readable listing.
pub open spec fn readable_below<R: DirectoryReader>(
    reader: R,
    root: Seq<char>,
    from: Seq<char>,
    depth: int,
) -> bool {
    forall|d: Seq<char>, k: nat|
        k + depth <= MAX_PROJECT_DEPTH && #[trigger] reachable(reader, root, from, d, k)
            ==> readable_listing(root, reader.listing(d))
}

/// Every directory within reach of `from`, which lies at `depth`, down to the
/// depth bound, was read, and `files` lists every editable file it holds.
pub open spec fn complete_below<R: DirectoryReader>(
    reader: R,
    root: Seq<char>,
    from: Seq<char>,
    depth: int,
    files: Seq<(Seq<char>, Seq<char>, Seq<char>, u64)>,
) -> bool {
    forall|d: Seq<char>, k: nat|
        k + depth <= MAX_PROJECT_DEPTH && #[trigger] reachable(reader, root, from, d, k)
            ==> reader.listing(d) is Ok && lists_all(root, reader.listing(d)->Ok_0, files)
}

/// A path is that of a directory entry of `es` that the walk descends into.
pub open spec fn dir_entry(root: Seq<char>, es: Seq<ScanEntry>, p: Seq<char>) -> bool {
    exists|j: int|
        0 <= j < es.len() && entry_effect(root, #[trigger] es[j]) == EntryEffect::Descend
            && es[j].path@ == p
}

proof fn lemma_reachable_same<R: DirectoryReader>(
    a: R,
    b: R,
    root: Seq<char>,
    from: Seq<char>,
    d: Seq<char>,
    k: nat,
)
    requires
        forall|x: Seq<char>| #[trigger] a.listing(x) == b.listing(x),
    ensures
        reachable(a, root, from, d, k) == reachable(b, root, from, d, k),
    decreases k,
{
    if k > 0 {
        assert(a.listing(from) == b.listing(from));
        match a.listing(from) {
            Ok(es) => {
                assert forall|j: int| 0 <= j < es.len() implies reachable(
                    a,
                    root,
                    #[trigger] es[j].path@,
                    d,
                    (k - 1) as nat,
                ) == reachable(b, root, es[j].path@, d, (k - 1) as nat) by {
                    lemma_reachable_same(a, b, root, es[j].path@, d, (k - 1) as nat);
                }
            },
            Err(_) => {},
        }
    }
}

proof fn lemma_below_same<R: DirectoryReader>(
    a: R,
    b: R,
    root: Seq<char>,
    from: Seq<char>,
    depth: int,
    files: Seq<(Seq<char>, Seq<char>, Seq<char>, u64)>,
)
    requires
        forall|x: Seq<char>| #[trigger] a.listing(x) == b.listing(x),
    ensures
        readable_below(a, root, from, depth) == readable_below(b, root, from, depth),
        complete_below(a, root, from, depth, files) == complete_below(b, root, from, depth, files),
{
    if readable_below(a, root, from, depth) {
        assert forall|d: Seq<char>, k: nat|
            k + depth <= MAX_PROJECT_DEPTH && #[trigger] reachable(b, root, from, d, k) implies readable_listing(
            root,
            b.listing(d),
        ) by {
            lemma_reachable_same(a, b, root, from, d, k);
            assert(a.listing(d) == b.listing(d));
        }
    }
    if readable_below(b, root, from, depth) {
        assert forall|d: Seq<char>, k: nat|
            k + depth <= MAX_PROJECT_DEPTH && #[trigger] reachable(a, root, from, d, k) implies readable_listing(
            root,
            a.listing(d),
        ) by {
            lemma_reachable_same(a, b, root, from, d, k);
            assert(a.listing(d) == b.listing(d));
        }
    }
    if complete_below(a, root, from, depth, files) {
        assert forall|d: Seq<char>, k: nat|
            k + depth <= MAX_PROJECT_DEPTH && #[trigger] reachable(b, root, from, d, k) implies b.listing(
            d,
        ) is Ok && lists_all(root, b.listing(d)->Ok_0, files) by {
            lemma_reachable_same(a, b, root, from, d, k);
            assert(a.listing(d) == b.listing(d));
        }
    }
    if complete_below(b, root, from, depth, files) {
        assert forall|d: Seq<char>, k: nat|
            k + depth <= MAX_PROJECT_DEPTH && #[trigger] reachable(a, root, from, d, k) implies a.listing(
            d,
        ) is Ok && lists_all(root, a.listing(d)->Ok_0, files) by {
            lemma_reachable_same(a, b, root, from, d, k);
            assert(a.listing(d) == b.listing(d));
        }
    }
}

proof fn lemma_complete_extends<R: DirectoryReader>(
    reader: R,
    root: Seq<char>,
    from: Seq<char>,
    depth: int,
    a: Seq<(Seq<char>, Seq<char>, Seq<char>, u64)>,
    b: Seq<(Seq<char>, Seq<char>, Seq<char>, u64)>,
)
    requires
        complete_below(reader, root, from, depth, a),
        extends(a, b),
    ensures
        complete_below(reader, root, from, depth, b),
{
    assert forall|d: Seq<char>, k: nat|
        k + depth <= MAX_PROJECT_DEPTH && #[trigger] reachable(reader, root, from, d, k) implies reader.listing(
        d,
    ) is Ok && lists_all(root, reader.listing(d)->Ok_0, b) by {
        lemma_lists_all_extends(root, reader.listing(d)->Ok_0, a, b);
    }
}

/// The directories below one of them that the walk descends into are
/// readable where all below it are.
proof fn lemma_readable_child<R: DirectoryReader>(
    reader: R,
    root: Seq<char>,
    from: Seq<char>,
    depth: int,
    c: Seq<char>,
)
    requires
        readable_below(reader, root, from, depth),
        reader.listing(from) is Ok,
        dir_entry(root, reader.listing(from)->Ok_0, c),
    ensures
        readable_below(reader, root, c, depth + 1),
{
    let es = reader.listing(from)->Ok_0;
    let j = choose|j: int|
        0 <= j < es.len() && entry_effect(root, #[trigger] es[j]) == EntryEffect::Descend
            && es[j].path@ == c;
    assert forall|d: Seq<char>, k: nat|
        k + depth + 1 <= MAX_PROJECT_DEPTH && #[trigger] reachable(reader, root, c, d, k) implies readable_listing(
        root,
        reader.listing(d),
    ) by {
        assert(es[j].path@ == c);
        assert(reachable(reader, root, from, d, k + 1));
    }
}

/// A directory whose own files are listed, whose every subdirectory the walk
/// descends into is among `dirs`, and below each of which the listing is
/// complete, is complete below itself.
proof fn lemma_complete_parent<R: DirectoryReader>(
    reader: R,
    root: Seq<char>,
    from: Seq<char>,
    depth: int,
    dirs: Seq<Seq<char>>,
    files: Seq<(Seq<char>, Seq<char>, Seq<char>, u64)>,
)
    requires
        reader.listing(from) is Ok,
        lists_all(root, reader.listing(from)->Ok_0, files),
        forall|j: int|
            0 <= j < reader.listing(from)->Ok_0.len() && entry_effect(
                root,
                #[trigger] reader.listing(from)->Ok_0[j],
            ) == EntryEffect::Descend ==> dirs.contains(reader.listing(from)->Ok_0[j].path@),
        forall|t: int| 0 <= t < dirs.len() ==> complete_below(reader, root, #[trigger] dirs[t], depth + 1, files),
    ensures
        complete_below(reader, root, from, depth, files),
{
    let es = reader.listing(from)->Ok_0;
    assert forall|d: Seq<char>, k: nat|
        k + depth <= MAX_PROJECT_DEPTH && #[trigger] reachable(reader, root, from, d, k) implies reader.listing(
        d,
    ) is Ok && lists_all(root, reader.listing(d)->Ok_0, files) by {
        if k > 0 {
            let j = choose|j: int|
                #![trigger es[j]]
                0 <= j < es.len() && entry_effect(root, es[j]) == EntryEffect::Descend && reachable(
                    reader,
                    root,
                    es[j].path@,
                    d,
                    (k - 1) as nat,
                );
            assert(dirs.contains(es[j].path@));
            let t = choose|t: int| 0 <= t < dirs.len() && dirs[t] == es[j].path@;
            assert(complete_below(reader, root, dirs[t], depth + 1, files));
            assert(reachable(reader, root, dirs[t], d, (k - 1) as nat));
        }
    }
}

proof fn lemma_walk_dirs(root: Seq<char>, es: Seq<ScanEntry>, i: int, count: int)
    requires
        0 <= i,
    ensures
        forall|t: int|
            0 <= t < walk(root, es, i, count).1.len() ==> dir_entry(
                root,
                es,
                #[trigger] walk(root, es, i, count).1[t],
            ),
    decreases es.len() - i,
{
    if i < es.len() && count < MAX_PROJECT_FILES {
        match entry_effect(root, es[i]) {
            EntryEffect::Skip => {
                lemma_walk_dirs(root, es, i + 1, count);
                assert(walk(root, es, i, count) == walk(root, es, i + 1, count));
            },
            EntryEffect::Descend => {
                lemma_walk_dirs(root, es, i + 1, count);
                let w = walk(root, es, i + 1, count);
                let v = walk(root, es, i, count);
                assert forall|t: int| 0 <= t < v.1.len() implies dir_entry(root, es, #[trigger] v.1[t]) by {
                    if t == 0 {
                        assert(v.1[0] == es[i].path@);
                    } else {
                        assert(v.1[t] == w.1[t - 1]);
                    }
                }
            },
            EntryEffect::List(_) => {
                lemma_walk_dirs(root, es, i + 1, count + 1);
                assert(walk(root, es, i, count).1 == walk(root, es, i + 1, count + 1).1);
            },
            EntryEffect::Escape => {},
        }
    }
}

proof fn lemma_walk_done_dirs(root: Seq<char>, es: Seq<ScanEntry>, i: int, count: int)
    requires
        0 <= i,
        walk(root, es, i, count).2 == WalkEnd::Done,
    ensures
        forall|j: int|
            i <= j < es.len() && entry_effect(root, #[trigger] es[j]) == EntryEffect::Descend
                ==> walk(root, es, i, count).1.contains(es[j].path@),
    decreases es.len() - i,
{
    if i < es.len() {
        match entry_effect(root, es[i]) {
            EntryEffect::Skip => lemma_walk_done_dirs(root, es, i + 1, count),
            EntryEffect::Descend => {
                lemma_walk_done_dirs(root, es, i + 1, count);
                let w = walk(root, es, i + 1, count);
                let v = walk(root, es, i, count);
                assert(v.1 == seq![es[i].path@] + w.1);
                assert forall|j: int|
                    i <= j < es.len() && entry_effect(root, #[trigger] es[j]) == EntryEffect::Descend
                        implies v.1.contains(es[j].path@) by {
                    if j == i {
                        assert(v.1[0] == es[i].path@);
                    } else {
                        let t = choose|t: int| 0 <= t < w.1.len() && w.1[t] == es[j].path@;
                        assert(v.1[t + 1] == w.1[t]);
                    }
                }
            },
            EntryEffect::List(_) => lemma_walk_done_dirs(root, es, i + 1, count + 1),
            EntryEffect::Escape => {},
        }
    }
}

proof fn lemma_walk_no_escape(root: Seq<char>, es: Seq<ScanEntry>, i: int, count: int)
    requires
        0 <= i,
        forall|j: int| 0 <= j < es.len() ==> entry_effect(root, #[trigger] es[j]) != EntryEffect::Escape,
    ensures
        walk(root, es, i, count).2 != WalkEnd::Escaped,
    decreases es.len() - i,
{
    if i < es.len() && count < MAX_PROJECT_FILES {
        match entry_effect(root, es[i]) {
            EntryEffect::List(_) => lemma_walk_no_escape(root, es, i + 1, count + 1),
            _ => lemma_walk_no_escape(root, es, i + 1, count),
        }
    }
}

proof fn lemma_complete_perm<R: DirectoryReader>(
    reader: R,
    root: Seq<char>,
    from: Seq<char>,
    depth: int,
    a: Seq<(Seq<char>, Seq<char>, Seq<char>, u64)>,
    b: Seq<(Seq<char>, Seq<char>, Seq<char>, u64)>,
)
    requires
        complete_below(reader, root, from, depth, a),
        a.to_multiset() == b.to_multiset(),
    ensures
        complete_below(reader, root, from, depth, b),
{
    assert forall|d: Seq<char>, k: nat|
        k + depth <= MAX_PROJECT_DEPTH && #[trigger] reachable(reader, root, from, d, k) implies reader.listing(
        d,
    ) is Ok && lists_all(root, reader.listing(d)->Ok_0, b) by {
        let es = reader.listing(d)->Ok_0;
        assert forall|j: int|
            0 <= j < es.len() && entry_effect(root, #[trigger] es[j]) is List implies b.contains(
                listed_file(entry_effect(root, es[j])->List_0, es[j]),
            ) by {
            let x = listed_file(entry_effect(root, es[j])->List_0, es[j]);
            lemma_perm_contains(a, b, x);
        }
    }
}

proof fn lemma_perm_contains<A>(a: Seq<A>, b: Seq<A>, x: A)
    requires
        a.to_multiset() == b.to_multiset(),
        a.contains(x),
    ensures
        b.contains(x),
{
    vstd::seq_lib::to_multiset_contains(a, x);
    vstd::seq_lib::to_multiset_contains(b, x);
}

/// A directory listing that no bound cuts short and that leads nowhere: it
/// holds fewer entries than the file limit, none of them a directory to walk
/// into or a file outside the root.
pub open spec fn shallow_listing(root: Seq<char>, es: Seq<ScanEntry>) -> bool {
    &&& es.len() < MAX_PROJECT_FILES
    &&& forall|j: int|
        0 <= j < es.len() ==> (entry_effect(root, #[trigger] es[j]) is Skip || entry_effect(
            root,
            es[j],
        ) is List)
}

proof fn lemma_shallow_walk(root: Seq<char>, es: Seq<ScanEntry>, i: int, count: int)
    requires
        0 <= i <= es.len(),
        0 <= count,
        count + es.len() - i < MAX_PROJECT_FILES,
        forall|j: int|
            i <= j < es.len() ==> (entry_effect(root, #[trigger] es[j]) is Skip || entry_effect(
                root,
                es[j],
            ) is List),
    ensures
        walk(root, es, i, count).2 == WalkEnd::Done,
        walk(root, es, i, count).1.len() == 0,
    decreases es.len() - i,
{
    if i < es.len() {
        match entry_effect(root, es[i]) {
            EntryEffect::List(_) => lemma_shallow_walk(root, es, i + 1, count + 1),
            _ => lemma_shallow_walk(root, es, i + 1, count),
        }
    }
}

proof fn lemma_shallow_order(root: Seq<char>, kept: Seq<ScanEntry>, order: Seq<ScanEntry>)
    requires
        order.to_multiset() == kept.to_multiset(),
        shallow_listing(root, kept),
    ensures
        shallow_listing(root, order),
{
    broadcast use vstd::seq_lib::to_multiset_contains, vstd::seq_lib::to_multiset_len;

    vstd::seq_lib::to_multiset_len(order);
    vstd::seq_lib::to_multiset_len(kept);
    assert(order.len() == kept.len());
    assert forall|j: int| 0 <= j < order.len() implies (entry_effect(root, #[trigger] order[j]) is Skip
        || entry_effect(root, order[j]) is List) by {
        let x = order[j];
        assert(order.contains(x));
        assert(order.to_multiset().count(x) > 0);
        assert(kept.to_multiset().count(x) > 0);
        assert(kept.contains(x));
        let i = choose|i: int| 0 <= i < kept.len() && kept[i] == x;
        assert(entry_effect(root, kept[i]) is Skip || entry_effect(root, kept[i]) is List);
    }
}

/// Walks a directory at a depth and then the directories it leads to, in
/// order; the result says whether a bound cut the listing short. Too deep a
/// directory, or a spent entry budget, ends the walk as truncated without a
/// read; otherwise the listing only grows.
fn collect_project_files<R: DirectoryReader>(
    scan: &mut ProjectScan,
    reader: &mut R,
    directory: &str,
    depth: usize,
) -> (r: Result<bool, ProjectError>)
    requires
        old(scan).wf(),
        depth <= MAX_PROJECT_DEPTH + 1,
    ensures
        final(scan).wf(),
        final(scan).root() == old(scan).root(),
        final(scan).scanned() >= old(scan).scanned(),
        extends(old(scan).files(), final(scan).files()),
        (depth > MAX_PROJECT_DEPTH || old(scan).scanned() == MAX_PROJECT_ENTRIES) ==> r
            == Ok::<bool, ProjectError>(true) && *final(scan) == *old(scan),
        r matches Err(e) ==> walk_error(e),
        old(reader).models() ==> {
            &&& final(reader).models()
            &&& forall|d: Seq<char>| #[trigger] final(reader).listing(d) == old(reader).listing(d)
            &&& (depth <= MAX_PROJECT_DEPTH && old(scan).scanned() < MAX_PROJECT_ENTRIES
                && old(reader).listing(directory@) is Err) ==> (r matches Err(
                ProjectError::ReadFailed(m),
            ) && m@ == old(reader).listing(directory@)->Err_0)
            &&& forall|k: int|
                old(scan).files().len() <= k < final(scan).files().len() ==> sourced(
                    *old(reader),
                    old(scan).root(),
                    #[trigger] final(scan).files()[k],
                )
            &&& r == Ok::<bool, ProjectError>(false) ==> lists_all(
                old(scan).root(),
                old(reader).listing(directory@)->Ok_0,
                final(scan).files(),
            )
            &&& (depth <= MAX_PROJECT_DEPTH && old(scan).scanned() == 0 && old(scan).files().len()
                == 0 && old(reader).listing(directory@) is Ok && shallow_listing(
                old(scan).root(),
                old(reader).listing(directory@)->Ok_0,
            )) ==> r == Ok::<bool, ProjectError>(false)
            &&& r == Ok::<bool, ProjectError>(false) ==> complete_below(
                *old(reader),
                old(scan).root(),
                directory@,
                depth as int,
                final(scan).files(),
            )
            &&& readable_below(*old(reader), old(scan).root(), directory@, depth as int) ==> r is Ok
        },
    decreases MAX_PROJECT_DEPTH + 1 - depth,
{
    assert(scan.files().subrange(0, scan.files().len() as int) =~= scan.files());
    let budget = match scan.read_budget(depth) {
        None => {
            return Ok(true);
        },
        Some(b) => b,
    };
    proof {
        if old(reader).models() && readable_below(
            *old(reader),
            old(scan).root(),
            directory@,
            depth as int,
        ) {
            assert(reachable(*old(reader), old(scan).root(), directory@, directory@, 0));
        }
    }
    let entries = match reader.read_entries(directory, budget) {
        Ok(e) => e,
        Err(m) => {
            return Err(ProjectError::ReadFailed(m));
        },
    };
    let ghost before = scan.files();
    let ghost listing = old(reader).listing(directory@);
    let ghost read = entries@;
    let scanned = scan.scan_directory(entries);
    proof {
        if old(reader).models() {
            let all = listing->Ok_0;
            let remaining = MAX_PROJECT_ENTRIES - old(scan).scanned();
            let kept = if read.len() > remaining {
                read.take(remaining)
            } else {
                read
            };
            assert forall|k: int| before.len() <= k < scan.files().len() implies sourced(
                *old(reader),
                old(scan).root(),
                #[trigger] scan.files()[k],
            ) by {
                lemma_listed_prefix(old(scan).root(), kept, all, scan.files()[k]);
            }
            if scanned is Ok && !scanned->Ok_0.truncated {
                assert(read.len() <= remaining);
                assert(kept_of(read, old(scan).scanned()) =~= all);
            }
        }
    }
    let ghost shallow = old(reader).models() && old(scan).scanned() == 0 && old(scan).files().len()
        == 0 && old(reader).listing(directory@) is Ok && shallow_listing(
        old(scan).root(),
        old(reader).listing(directory@)->Ok_0,
    );
    proof {
        if shallow {
            let all = listing->Ok_0;
            assert(read == all);
            let order = choose|order: Seq<ScanEntry>|
                #[trigger] order.to_multiset() == read.to_multiset() && sorted_by_name(order)
                    && scanned_as(
                    old(scan).root(),
                    order,
                    before,
                    scan.files(),
                    read.len() > MAX_PROJECT_ENTRIES - old(scan).scanned(),
                    scanned,
                );
            lemma_shallow_order(old(scan).root(), read, order);
            lemma_shallow_walk(old(scan).root(), order, 0, 0);
            assert(scanned matches Ok(d) && !d.truncated && d.directories@.len() == 0);
        }
    }
    proof {
        if old(reader).models() {
            let root = old(scan).root();
            let all = listing->Ok_0;
            let remaining = MAX_PROJECT_ENTRIES - old(scan).scanned();
            let kept = if read.len() > remaining {
                read.take(remaining)
            } else {
                read
            };
            let order = choose|order: Seq<ScanEntry>|
                #[trigger] order.to_multiset() == kept.to_multiset() && sorted_by_name(order)
                    && scanned_as(root, order, before, scan.files(), read.len() > remaining, scanned);
            assert forall|j: int| 0 <= j < order.len() implies all.contains(#[trigger] order[j]) by {
                assert(order.contains(order[j]));
                lemma_perm_contains(order, kept, order[j]);
                let x = choose|x: int| 0 <= x < kept.len() && kept[x] == order[j];
                assert(kept[x] == all[x]);
            }
            let w = walk(root, order, 0, before.len() as int);
            if readable_below(*old(reader), root, directory@, depth as int) {
                assert(readable_listing(root, listing));
                assert forall|j: int| 0 <= j < order.len() implies entry_effect(
                    root,
                    #[trigger] order[j],
                ) != EntryEffect::Escape by {
                    let x = choose|x: int| 0 <= x < all.len() && all[x] == order[j];
                    assert(entry_effect(root, all[x]) != EntryEffect::Escape);
                }
                lemma_walk_no_escape(root, order, 0, before.len() as int);
                assert(scanned is Ok);
            }
            if scanned is Ok && !scanned->Ok_0.truncated {
                assert(w.2 == WalkEnd::Done);
                let dirs = scanned->Ok_0.directories@.map_values(|x: String| x@);
                assert(dirs == w.1);
                lemma_walk_dirs(root, order, 0, before.len() as int);
                assert forall|t: int| 0 <= t < dirs.len() implies dir_entry(root, all, #[trigger] dirs[t]) by {
                    assert(dir_entry(root, order, w.1[t]));
                    let j = choose|j: int|
                        0 <= j < order.len() && entry_effect(root, #[trigger] order[j])
                            == EntryEffect::Descend && order[j].path@ == w.1[t];
                    let x = choose|x: int| 0 <= x < all.len() && all[x] == order[j];
                    assert(entry_effect(root, all[x]) == EntryEffect::Descend);
                }
                assert(kept =~= all);
                lemma_walk_done_dirs(root, order, 0, before.len() as int);
                assert forall|j: int|
                    0 <= j < all.len() && entry_effect(root, #[trigger] all[j]) == EntryEffect::Descend
                        implies dirs.contains(all[j].path@) by {
                    assert(all.contains(all[j]));
                    lemma_perm_contains(kept, order, all[j]);
                    let x = choose|x: int| 0 <= x < order.len() && order[x] == all[j];
                    assert(entry_effect(root, order[x]) == EntryEffect::Descend);
                }
            }
        }
    }
    let result = match scanned {
        Ok(d) => d,
        Err(e) => {
            return Err(e);
        },
    };
    if result.truncated {
        return Ok(true);
    }
    let ghost dirs = result.directories@.map_values(|x: String| x@);
    let n = result.directories.len();
    let mut i: usize = 0;
    while i < n
        invariant
            shallow ==> n == 0,
            shallow == (old(reader).models() && old(scan).scanned() == 0 && old(scan).files().len()
                == 0 && old(reader).listing(directory@) is Ok && shallow_listing(
                old(scan).root(),
                old(reader).listing(directory@)->Ok_0,
            )),
            n == result.directories@.len(),
            0 <= i <= n,
            depth <= MAX_PROJECT_DEPTH,
            scan.wf(),
            scan.root() == old(scan).root(),
            scan.scanned() >= old(scan).scanned(),
            old(scan).scanned() < MAX_PROJECT_ENTRIES,
            extends(old(scan).files(), scan.files()),
            old(reader).models() ==> {
                &&& reader.models()
                &&& forall|d: Seq<char>| #[trigger] reader.listing(d) == old(reader).listing(d)
                &&& old(reader).listing(directory@) is Ok
                &&& forall|k: int|
                    old(scan).files().len() <= k < scan.files().len() ==> sourced(
                        *old(reader),
                        old(scan).root(),
                        #[trigger] scan.files()[k],
                    )
                &&& lists_all(old(scan).root(), old(reader).listing(directory@)->Ok_0, scan.files())
                &&& forall|t: int|
                    0 <= t < n ==> dir_entry(
                        old(scan).root(),
                        old(reader).listing(directory@)->Ok_0,
                        #[trigger] dirs[t],
                    )
                &&& forall|j: int|
                    0 <= j < old(reader).listing(directory@)->Ok_0.len() && entry_effect(
                        old(scan).root(),
                        #[trigger] old(reader).listing(directory@)->Ok_0[j],
                    ) == EntryEffect::Descend ==> dirs.contains(
                        old(reader).listing(directory@)->Ok_0[j].path@,
                    )
                &&& forall|t: int|
                    0 <= t < i ==> complete_below(
                        *old(reader),
                        old(scan).root(),
                        #[trigger] dirs[t],
                        depth + 1,
                        scan.files(),
                    )
            },
            dirs == result.directories@.map_values(|x: String| x@),
        decreases n - i,
    {
        let ghost mid = scan.files();
        let ghost mid_reader = *reader;
        proof {
            if old(reader).models() {
                assert(dirs[i as int] == result.directories@[i as int]@);
                lemma_below_same(*old(reader), mid_reader, old(scan).root(), dirs[i as int], depth + 1, mid);
                if readable_below(*old(reader), old(scan).root(), directory@, depth as int) {
                    lemma_readable_child(*old(reader), old(scan).root(), directory@, depth as int, dirs[i as int]);
                }
            }
        }
        let step = collect_project_files(scan, reader, result.directories[i].as_str(), depth + 1);
        proof {
            lemma_extends_trans(old(scan).files(), mid, scan.files());
            if old(reader).models() {
                lemma_below_same(*old(reader), mid_reader, old(scan).root(), dirs[i as int], depth + 1, scan.files());
                assert forall|t: int| 0 <= t < i implies complete_below(
                    *old(reader),
                    old(scan).root(),
                    #[trigger] dirs[t],
                    depth + 1,
                    scan.files(),
                ) by {
                    lemma_complete_extends(*old(reader), old(scan).root(), dirs[t], depth + 1, mid, scan.files());
                }
                lemma_lists_all_extends(
                    old(scan).root(),
                    old(reader).listing(directory@)->Ok_0,
                    mid,
                    scan.files(),
                );
                assert forall|k: int| old(scan).files().len() <= k < scan.files().len() implies sourced(
                    *old(reader),
                    old(scan).root(),
                    #[trigger] scan.files()[k],
                ) by {
                    if k < mid.len() {
                        assert(scan.files().subrange(0, mid.len() as int)[k] == scan.files()[k]);
                    } else {
                        lemma_sourced_same(mid_reader, *old(reader), old(scan).root(), scan.files()[k]);
                    }
                }
            }
        }
        match step {
            Err(e) => {
                return Err(e);
            },
            Ok(true) => {
                return Ok(true);
            },
            Ok(false) => {},
        }
        i = i + 1;
    }
    proof {
        if old(reader).models() {
            lemma_complete_parent(*old(reader), old(scan).root(), directory@, depth as int, dirs, scan.files());
        }
    }
    Ok(false)
}

/// Lists a project's editable files, reading its directories through the
/// reader. Whatever the reader gives, the listing holds at most 2 000 files,
/// all shown as source and sorted by path, under the root as the user sees it.
/// With a reader that describes its tree, the listing succeeds whenever every
/// directory within the depth bound can be read and holds no file outside the
/// root, and, unless it is cut short, holds every editable file of every
/// directory within the depth bound.
pub fn list_project_files<R: DirectoryReader>(root: &str, reader: &mut R) -> (r: Result<
    ProjectState,
    ProjectError,
>)
    ensures
        r matches Err(e) ==> walk_error(e),
        old(reader).models() ==> {
            &&& final(reader).models()
            &&& forall|d: Seq<char>| #[trigger] final(reader).listing(d) == old(reader).listing(d)
            &&& old(reader).listing(root@) is Err ==> (r matches Err(ProjectError::ReadFailed(m))
                && m@ == old(reader).listing(root@)->Err_0)
            &&& r matches Ok(state) ==> forall|i: int|
                0 <= i < state.files@.len() ==> sourced(
                    *old(reader),
                    root@,
                    file_view(#[trigger] state.files@[i]),
                )
            &&& (r is Ok && !r->Ok_0.truncated) ==> lists_all(
                root@,
                old(reader).listing(root@)->Ok_0,
                r->Ok_0.files@.map_values(|f: ProjectFile| file_view(f)),
            )
            &&& (old(reader).listing(root@) is Ok && shallow_listing(
                root@,
                old(reader).listing(root@)->Ok_0,
            )) ==> (r is Ok && !r->Ok_0.truncated)
            &&& (r is Ok && !r->Ok_0.truncated) ==> complete_below(
                *old(reader),
                root@,
                root@,
                0,
                r->Ok_0.files@.map_values(|f: ProjectFile| file_view(f)),
            )
            &&& readable_below(*old(reader), root@, root@, 0) ==> r is Ok
        },
        r matches Ok(state) ==> {
            &&& state.root@ == crate::project::display_path_spec(root@)
            &&& state.files@.len() <= MAX_PROJECT_FILES
            &&& forall|i: int| 0 <= i < state.files@.len() ==> (#[trigger] state.files@[i]).kind@
                == "source"@
            &&& files_sorted(state.files@)
        },
{
    let mut scan = ProjectScan::new(root);
    let truncated = match collect_project_files(&mut scan, reader, root, 0) {
        Ok(t) => t,
        Err(e) => {
            return Err(e);
        },
    };
    let ghost found = scan.files();
    let state = scan.finish(truncated);
    proof {
        if old(reader).models() {
            let shown = state.files@.map_values(|f: ProjectFile| file_view(f));
            assert forall|i: int| 0 <= i < state.files@.len() implies sourced(
                *old(reader),
                root@,
                file_view(#[trigger] state.files@[i]),
            ) by {
                assert(shown[i] == file_view(state.files@[i]));
                assert(shown.contains(shown[i]));
                vstd::seq_lib::to_multiset_contains(shown, shown[i]);
                vstd::seq_lib::to_multiset_contains(found, shown[i]);
                let k = choose|k: int| 0 <= k < found.len() && found[k] == shown[i];
                assert(sourced(*old(reader), root@, found[k]));
            }
            if !truncated {
                lemma_complete_perm(*old(reader), root@, root@, 0, found, shown);
                let all = old(reader).listing(root@)->Ok_0;
                assert forall|j: int|
                    0 <= j < all.len() && entry_effect(root@, #[trigger] all[j]) is List implies shown.contains(
                        listed_file(entry_effect(root@, all[j])->List_0, all[j]),
                    ) by {
                    let x = listed_file(entry_effect(root@, all[j])->List_0, all[j]);
                    assert(found.contains(x));
                    vstd::seq_lib::to_multiset_contains(found, x);
                    vstd::seq_lib::to_multiset_contains(shown, x);
                }
            }
        }
    }
    Ok(state)
}

} // verus!
