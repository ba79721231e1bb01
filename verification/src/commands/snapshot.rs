//! What changed in the workspace during a turn: which files are looked at, how
//! two looks are compared, and how the difference is told.

use crate::text::{
    contains, dec, decimal, digit_run, group_contains, has, in_order, join, joined, law_join_holds,
    law_in_order, law_last_line, law_replace, leading_digits, lemma_contains_trans, lemma_lists_in_order, lemma_lists_insert, line_list, lines, lists, ordered_texts,
    parse_unsigned, parsed, pieces_on, place, replace_char, replaced, same, sorted, split, text_le,
    to_chars, trim, trimmed,
};
use vstd::prelude::*;

verus! {

// ---------------------------------------------------------------- files

/// Directories that hold builds, dependencies, caches or version control.
pub open spec fn known_cache(name: Seq<char>) -> bool {
    ||| name == ".git"@
    ||| name == ".hg"@
    ||| name == ".svn"@
    ||| name == "node_modules"@
    ||| name == "target"@
    ||| name == "dist"@
    ||| name == "build"@
    ||| name == "out"@
    ||| name == ".next"@
    ||| name == ".nuxt"@
    ||| name == ".turbo"@
    ||| name == ".cache"@
    ||| name == ".venv"@
    ||| name == "venv"@
    ||| name == "__pycache__"@
    ||| name == ".idea"@
    ||| name == ".vscode"@
    ||| name == "vendor"@
    ||| name == ".cargo"@
    ||| name == ".gradle"@
    ||| name == ".terraform"@
}

/// Directories that are never looked into: those, and every hidden one.
pub open spec fn skipped(name: Seq<char>) -> bool {
    known_cache(name) || (name.len() > 0 && name[0] == '.')
}

pub fn snapshot_skip_dir(name: &str) -> (r: bool)
    ensures
        r == skipped(name@),
{
    let c = to_chars(name);
    if c.len() > 0 && c[0] == '.' {
        return true;
    }
    let r = same(name, "node_modules") || same(name, "target") || same(name, "dist") || same(
        name,
        "build",
    ) || same(name, "out") || same(name, "venv") || same(name, "__pycache__") || same(
        name,
        "vendor",
    );
    proof {
        reveal_strlit(".git");
        reveal_strlit(".hg");
        reveal_strlit(".svn");
        reveal_strlit(".next");
        reveal_strlit(".nuxt");
        reveal_strlit(".turbo");
        reveal_strlit(".cache");
        reveal_strlit(".venv");
        reveal_strlit(".idea");
        reveal_strlit(".vscode");
        reveal_strlit(".cargo");
        reveal_strlit(".gradle");
        reveal_strlit(".terraform");
    }
    r
}

/// The files of a workspace and when each was last written, in seconds.
pub struct Snapshot {
    paths: Vec<String>,
    times: Vec<u64>,
}

impl View for Snapshot {
    type V = Map<Seq<char>, u64>;

    closed spec fn view(&self) -> Map<Seq<char>, u64> {
        let p = self.paths.deep_view();
        Map::new(|k: Seq<char>| p.contains(k), |k: Seq<char>| self.times@[p.index_of(k)])
    }
}

impl Snapshot {
    #[verifier::type_invariant]
    spec fn ordered(self) -> bool {
        &&& sorted(self.paths.deep_view())
        &&& self.paths.deep_view().no_duplicates()
        &&& self.paths@.len() == self.times@.len()
    }

    pub fn new() -> (r: Snapshot)
        ensures
            r@ == Map::<Seq<char>, u64>::empty(),
    {
        let r = Snapshot { paths: Vec::new(), times: Vec::new() };
        assert(r@ =~= Map::empty());
        r
    }

    /// Notes a file; a later note of the same file replaces an earlier one.
    pub fn note(&mut self, path: &str, mtime: u64)
        ensures
            final(self)@ == old(self)@.insert(path@, mtime),
    {
        proof {
            use_type_invariant(&*self);
        }
        let ghost m = self@;
        let mut whole = Snapshot::new();
        std::mem::swap(&mut whole, self);
        let mut paths = whole.paths;
        let mut times = whole.times;
        let ghost p = paths.deep_view();
        let ghost t = times@;
        let k: usize = place(&paths, path);
        proof {
            let set = p.to_set();
            assert(lists(p, set));
            lemma_lists_insert(p, set, k as int, path@);
            if k < p.len() {
                assert(p[k as int] == paths@[k as int]@);
            }
        }
        if k < paths.len() && same(paths[k].as_str(), path) {
            times.set(k, mtime);
        } else {
            paths.insert(k, path.to_owned());
            times.insert(k, mtime);
            proof {
                assert(paths.deep_view() =~= p.insert(k as int, path@));
                if p.contains(path@) {
                    let w = p.insert(k as int, path@);
                    let i = choose|i: int| 0 <= i < p.len() && p[i] == path@;
                    let j = if i < k {
                        i
                    } else {
                        i + 1
                    };
                    assert(w[j] == w[k as int]);
                }
            }
        }
        let ghost q = paths.deep_view();
        let ghost u = times@;
        *self = Snapshot { paths, times };
        proof {
            lemma_snapshot_insert(p, t, q, u, k as int, path@, mtime);
            assert(self@ =~= m.insert(path@, mtime));
        }
    }

    /// When a file was last written, if it is there.
    pub fn get(&self, path: &str) -> (r: Option<u64>)
        ensures
            match r {
                Some(t) => self@.dom().contains(path@) && self@[path@] == t,
                None => !self@.dom().contains(path@),
            },
    {
        proof {
            use_type_invariant(self);
        }
        let ghost p = self.paths.deep_view();
        let k: usize = place(&self.paths, path);
        proof {
            if k < p.len() {
                assert(p[k as int] == self.paths@[k as int]@);
            }
            if p.contains(path@) {
                let i = choose|i: int| 0 <= i < p.len() && p[i] == path@;
                if i > k {
                    assert(text_le(p[k as int], p[i]));
                    crate::text::lemma_text_le_antisymmetric(p[k as int], path@);
                }
                assert(i == k);
            }
        }
        if k < self.paths.len() && same(self.paths[k].as_str(), path) {
            assert(p.contains(path@));
            assert(p.index_of(path@) == k);
            Some(self.times[k])
        } else {
            None
        }
    }

    /// The number of files.
    pub fn len(&self) -> (r: usize)
        ensures
            r == self.count(),
    {
        self.paths.len()
    }

    pub closed spec fn count(&self) -> nat {
        self.paths@.len()
    }
}

proof fn lemma_snapshot_insert(
    p: Seq<Seq<char>>,
    t: Seq<u64>,
    q: Seq<Seq<char>>,
    u: Seq<u64>,
    k: int,
    x: Seq<char>,
    v: u64,
)
    requires
        p.no_duplicates(),
        q.no_duplicates(),
        p.len() == t.len(),
        0 <= k <= p.len(),
        (k < p.len() && p[k] == x && q == p && u == t.update(k, v)) || (!p.contains(x) && q
            == p.insert(k, x) && u == t.insert(k, v)),
    ensures
        forall|s: Seq<char>| #[trigger] q.contains(s) <==> p.contains(s) || s == x,
        forall|s: Seq<char>| #[trigger]
            q.contains(s) ==> u[q.index_of(s)] == if s == x {
                v
            } else {
                t[p.index_of(s)]
            },
{
    assert forall|s: Seq<char>| #[trigger] q.contains(s) <==> p.contains(s) || s == x by {
        if q.contains(s) {
            let i = q.index_of(s);
            if q == p {
                assert(p[i] == s);
            } else if i < k {
                assert(p[i] == s);
            } else if i > k {
                assert(p[i - 1] == s);
            }
        }
        if p.contains(s) {
            let i = p.index_of(s);
            if q == p {
                assert(q[i] == s);
            } else if i < k {
                assert(q[i] == s);
            } else {
                assert(q[i + 1] == s);
            }
        }
        if s == x {
            assert(q[k] == x);
        }
    }
    assert forall|s: Seq<char>| #[trigger] q.contains(s) implies u[q.index_of(s)] == if s == x {
        v
    } else {
        t[p.index_of(s)]
    } by {
        let i = q.index_of(s);
        if s == x {
            assert(q[k] == x);
            assert(i == k);
        } else {
            assert(p.contains(s));
            let j = p.index_of(s);
            if q == p {
                assert(i == j);
            } else if j < k {
                assert(q[j] == s);
                assert(i == j);
            } else {
                assert(q[j + 1] == s);
                assert(i == j + 1);
            }
        }
    }
}

/// How many entries are looked at before the walk gives up.
pub const SNAPSHOT_MAX: usize = 20000;

/// A walk through a workspace.
pub struct Walk {
    pub files: Snapshot,
    pub seen: usize,
}

/// One entry of a directory.
#[derive(Debug, Clone, Copy, PartialEq, Eq, Structural)]
pub enum EntryKind {
    Dir,
    /// A file, with the time of its last write where that is known.
    File { mtime: Option<u64> },
    /// Neither, or something that could not be read.
    Other,
}

/// What the walk does after an entry.
#[derive(Debug, Clone, Copy, PartialEq, Eq, Structural)]
pub enum WalkStep {
    /// Enough was seen.
    Stop,
    Next,
    /// Look into the directory later.
    Descend,
}

pub struct WalkView {
    pub files: Map<Seq<char>, u64>,
    pub seen: nat,
}

impl View for Walk {
    type V = WalkView;

    open spec fn view(&self) -> WalkView {
        WalkView { files: self.files@, seen: self.seen as nat }
    }
}

/// The walk after an entry, and what it does next. Past the limit nothing more
/// is looked at.
pub open spec fn visited(w: WalkView, kind: EntryKind, name: Seq<char>, path: Seq<char>) -> (
    WalkView,
    WalkStep,
) {
    if w.seen > SNAPSHOT_MAX {
        (w, WalkStep::Stop)
    } else {
        let on = WalkView { seen: w.seen + 1, ..w };
        match kind {
            EntryKind::Dir => if skipped(name) {
                (on, WalkStep::Next)
            } else {
                (on, WalkStep::Descend)
            },
            EntryKind::File { mtime } => {
                let time = match mtime {
                    Some(t) => t,
                    None => 0,
                };
                let files = w.files.insert(replace_char(path, '\\', "/"@), time);
                (WalkView { files, ..on }, WalkStep::Next)
            },
            EntryKind::Other => (on, WalkStep::Next),
        }
    }
}

/// The files noted were all looked at, and not many more than the limit.
pub open spec fn walk_bounded(w: WalkView) -> bool {
    w.files.dom().finite() && w.files.len() <= w.seen <= SNAPSHOT_MAX + 1
}

/// However large a workspace is, a walk through it stays within its limit.
pub proof fn law_walk_bounded(w: WalkView, kind: EntryKind, name: Seq<char>, path: Seq<char>)
    ensures
        walk_bounded(WalkView { files: Map::empty(), seen: 0 }),
        walk_bounded(w) ==> walk_bounded(visited(w, kind, name, path).0),
        walk_bounded(w) && w.seen > SNAPSHOT_MAX ==> visited(w, kind, name, path).1
            == WalkStep::Stop,
{
    let k = replace_char(path, '\\', "/"@);
    assert forall|t: u64| walk_bounded(w) implies (#[trigger] w.files.insert(k, t)).dom().finite()
        && w.files.insert(k, t).len() <= w.files.len() + 1 by {
        assert(w.files.insert(k, t).dom() =~= w.files.dom().insert(k));
    }
}

impl Walk {
    pub fn new() -> (r: Walk)
        ensures
            r@ == (WalkView { files: Map::empty(), seen: 0 }),
    {
        Walk { files: Snapshot::new(), seen: 0 }
    }

    /// Takes in one entry: `name` is its own name, `path` the one below the
    /// workspace.
    pub fn visit(&mut self, kind: EntryKind, name: &str, path: &str) -> (r: WalkStep)
        ensures
            (final(self)@, r) == visited(old(self)@, kind, name@, path@),
    {
        if self.seen > SNAPSHOT_MAX {
            return WalkStep::Stop;
        }
        self.seen = self.seen + 1;
        match kind {
            EntryKind::Dir => {
                if snapshot_skip_dir(name) {
                    WalkStep::Next
                } else {
                    WalkStep::Descend
                }
            },
            EntryKind::File { mtime } => {
                let p = replaced(path, '\\', "/");
                let t: u64 = match mtime {
                    Some(t) => t,
                    None => 0,
                };
                self.files.note(p.as_str(), t);
                WalkStep::Next
            },
            EntryKind::Other => WalkStep::Next,
        }
    }
}

// ---------------------------------------------------------------- comparison

#[derive(Debug, Clone, PartialEq, Eq)]
pub struct WorkspaceDiff {
    pub created: Vec<String>,
    pub modified: Vec<String>,
}

impl Default for WorkspaceDiff {
    fn default() -> (r: WorkspaceDiff)
        ensures
            r.created@.len() == 0,
            r.modified@.len() == 0,
    {
        WorkspaceDiff { created: Vec::new(), modified: Vec::new() }
    }
}

/// The files that are there and were not.
pub open spec fn created_files(before: Map<Seq<char>, u64>, after: Map<Seq<char>, u64>) -> Set<
    Seq<char>,
> {
    Set::new(|k: Seq<char>| after.dom().contains(k) && !before.dom().contains(k))
}

/// The files that were there and were written later.
pub open spec fn modified_files(before: Map<Seq<char>, u64>, after: Map<Seq<char>, u64>) -> Set<
    Seq<char>,
> {
    Set::new(
        |k: Seq<char>| after.dom().contains(k) && before.dom().contains(k) && after[k] > before[k],
    )
}

/// Compares two looks at a workspace. Each list is in order and names each
/// file once.
pub fn diff_snapshots(before: &Snapshot, after: &Snapshot) -> (r: WorkspaceDiff)
    ensures
        lists(r.created.deep_view(), created_files(before@, after@)),
        r.created.deep_view() == in_order(created_files(before@, after@)),
        lists(r.modified.deep_view(), modified_files(before@, after@)),
        r.modified.deep_view() == in_order(modified_files(before@, after@)),
{
    proof {
        use_type_invariant(after);
    }
    let ghost p = after.paths.deep_view();
    let mut created: Vec<String> = Vec::new();
    let mut modified: Vec<String> = Vec::new();
    let mut i: usize = 0;
    while i < after.paths.len()
        invariant
            i <= after.paths@.len(),
            after.paths@.len() == after.times@.len(),
            p == after.paths.deep_view(),
            sorted(p),
            p.no_duplicates(),
            picks(created.deep_view(), p.take(i as int), created_files(before@, after@)),
            picks(modified.deep_view(), p.take(i as int), modified_files(before@, after@)),
        decreases after.paths@.len() - i,
    {
        let ghost x = p[i as int];
        let ghost c = created.deep_view();
        let ghost m = modified.deep_view();
        proof {
            assert(x == after.paths@[i as int]@);
            assert(p.contains(x));
            assert(p.index_of(x) == i);
            assert(after@[x] == after.times@[i as int]);
            lemma_picks_step(c, p, i as int, created_files(before@, after@));
            lemma_picks_step(m, p, i as int, modified_files(before@, after@));
        }
        match before.get(after.paths[i].as_str()) {
            None => {
                created.push(after.paths[i].clone());
                assert(created.deep_view() =~= c.push(x));
            },
            Some(t) => {
                if after.times[i] > t {
                    modified.push(after.paths[i].clone());
                    assert(modified.deep_view() =~= m.push(x));
                }
            },
        }
        i = i + 1;
    }
    proof {
        assert(p.take(p.len() as int) =~= p);
        lemma_picks_lists(created.deep_view(), p, created_files(before@, after@));
        lemma_picks_lists(modified.deep_view(), p, modified_files(before@, after@));
        lemma_lists_in_order(created.deep_view(), created_files(before@, after@));
        lemma_lists_in_order(modified.deep_view(), modified_files(before@, after@));
    }
    WorkspaceDiff { created, modified }
}

/// `v` holds the texts of `p` that are in `set`, in the order of `p`.
spec fn picks(v: Seq<Seq<char>>, p: Seq<Seq<char>>, set: Set<Seq<char>>) -> bool {
    &&& sorted(v)
    &&& v.no_duplicates()
    &&& forall|t: Seq<char>| #[trigger] v.contains(t) <==> p.contains(t) && set.contains(t)
}

proof fn lemma_picks_step(v: Seq<Seq<char>>, p: Seq<Seq<char>>, i: int, set: Set<Seq<char>>)
    requires
        0 <= i < p.len(),
        sorted(p),
        p.no_duplicates(),
        picks(v, p.take(i), set),
    ensures
        set.contains(p[i]) ==> picks(v.push(p[i]), p.take(i + 1), set),
        !set.contains(p[i]) ==> picks(v, p.take(i + 1), set),
{
    let x = p[i];
    let a = p.take(i);
    let b = p.take(i + 1);
    assert(b =~= a.push(x));
    assert forall|t: Seq<char>| #[trigger] b.contains(t) <==> a.contains(t) || t == x by {
        if b.contains(t) {
            let j = choose|j: int| 0 <= j < b.len() && b[j] == t;
            if j < i {
                assert(a[j] == t);
            }
        }
        if a.contains(t) {
            let j = choose|j: int| 0 <= j < a.len() && a[j] == t;
            assert(b[j] == t);
        }
        if t == x {
            assert(b[i] == x);
        }
    }
    assert(!a.contains(x)) by {
        if a.contains(x) {
            let j = choose|j: int| 0 <= j < a.len() && a[j] == x;
            assert(p[j] == x);
        }
    }
    if set.contains(x) {
        let w = v.push(x);
        assert(!v.contains(x));
        assert forall|j: int| 0 <= j < v.len() implies text_le(#[trigger] v[j], x) by {
            assert(v.contains(v[j]));
            assert(a.contains(v[j]));
            let k = choose|k: int| 0 <= k < a.len() && a[k] == v[j];
            assert(text_le(p[k], p[i]));
        }
        assert forall|j: int, k: int| 0 <= j < k < w.len() implies text_le(
            #[trigger] w[j],
            #[trigger] w[k],
        ) by {
            if k < v.len() {
                assert(w[j] == v[j] && w[k] == v[k]);
            } else {
                assert(w[j] == v[j]);
            }
        }
        assert forall|t: Seq<char>| #[trigger] w.contains(t) <==> b.contains(t) && set.contains(t) by {
            if w.contains(t) {
                let j = choose|j: int| 0 <= j < w.len() && w[j] == t;
                if j < v.len() {
                    assert(v[j] == t);
                    assert(v.contains(t));
                }
            }
            if v.contains(t) {
                let j = choose|j: int| 0 <= j < v.len() && v[j] == t;
                assert(w[j] == t);
            }
            if t == x {
                assert(w[v.len() as int] == x);
            }
        }
        assert(w.no_duplicates()) by {
            assert forall|j: int, k: int| 0 <= j < w.len() && 0 <= k < w.len() && j != k implies w[j]
                != w[k] by {
                if j < v.len() {
                    assert(v.contains(v[j]));
                }
                if k < v.len() {
                    assert(v.contains(v[k]));
                }
            }
        }
    }
}

proof fn lemma_picks_lists(v: Seq<Seq<char>>, p: Seq<Seq<char>>, set: Set<Seq<char>>)
    requires
        picks(v, p, set),
        forall|t: Seq<char>| set.contains(t) ==> #[trigger] p.contains(t),
    ensures
        lists(v, set),
{
    assert forall|t: Seq<char>| #[trigger] v.contains(t) <==> set.contains(t) by {
        if set.contains(t) {
            assert(p.contains(t));
        }
    }
}

/// A workspace that did not change shows no difference.
pub proof fn law_no_change_no_difference(m: Map<Seq<char>, u64>, v: Seq<Seq<char>>)
    requires
        lists(v, created_files(m, m)) || lists(v, modified_files(m, m)),
    ensures
        v.len() == 0,
{
    if v.len() > 0 {
        assert(v.contains(v[0]));
    }
}

/// A file is told of once at most: as new or as written to.
pub proof fn law_told_once(
    before: Map<Seq<char>, u64>,
    after: Map<Seq<char>, u64>,
    created: Seq<Seq<char>>,
    modified: Seq<Seq<char>>,
    path: Seq<char>,
)
    requires
        lists(created, created_files(before, after)),
        lists(modified, modified_files(before, after)),
    ensures
        !(created.contains(path) && modified.contains(path)),
        created.contains(path) || modified.contains(path) ==> after.dom().contains(path),
        created.no_duplicates(),
        modified.no_duplicates(),
{
}

// ---------------------------------------------------------------- git

pub open spec fn first_of(v: Seq<Seq<char>>) -> Seq<char> {
    if v.len() == 0 {
        Seq::empty()
    } else {
        v[0]
    }
}

pub open spec fn last_of(v: Seq<Seq<char>>) -> Seq<char> {
    if v.len() == 0 {
        Seq::empty()
    } else {
        v.last()
    }
}

/// The insertions and the deletions that the segments of a summary count;
/// `None` where a number is out of range.
pub open spec fn stat_counts(segments: Seq<Seq<char>>) -> Option<(Option<nat>, Option<nat>)>
    decreases segments.len(),
{
    if segments.len() == 0 {
        Some((None, None))
    } else {
        match stat_counts(segments.drop_last()) {
            None => None,
            Some((ins, del)) => {
                let t = trim(segments.last());
                let num = leading_digits(t);
                if num.len() == 0 {
                    Some((ins, del))
                } else {
                    match parse_unsigned(num, u64::MAX as nat) {
                        None => None,
                        Some(n) => if contains(t, "insertion"@) {
                            Some((Some(n), del))
                        } else if contains(t, "deletion"@) {
                            Some((ins, Some(n)))
                        } else {
                            Some((ins, del))
                        },
                    }
                }
            },
        }
    }
}

pub open spec fn stat_text(ins: Option<nat>, del: Option<nat>) -> Option<Seq<char>> {
    match (ins, del) {
        (None, None) => None,
        (Some(i), None) => Some("+"@ + dec(i)),
        (None, Some(d)) => Some("−"@ + dec(d)),
        (Some(i), Some(d)) => Some("+"@ + dec(i) + " "@ + ("−"@ + dec(d))),
    }
}

/// The insertions and deletions in the last line of `git diff --stat`.
pub open spec fn stat_summary(stat: Seq<char>) -> Option<Seq<char>> {
    match stat_counts(split(last_of(lines(stat)), |c: char| c == ',')) {
        Some((ins, del)) => stat_text(ins, del),
        None => None,
    }
}

spec fn as_nat(n: Option<u64>) -> Option<nat> {
    match n {
        Some(x) => Some(x as nat),
        None => None,
    }
}

proof fn lemma_stat_fails(segments: Seq<Seq<char>>, i: int)
    requires
        0 <= i <= segments.len(),
        stat_counts(segments.take(i)) is None,
    ensures
        stat_counts(segments) is None,
    decreases segments.len() - i,
{
    if i == segments.len() {
        assert(segments.take(i) =~= segments);
    } else {
        assert(segments.take(i + 1).drop_last() =~= segments.take(i));
        lemma_stat_fails(segments, i + 1);
    }
}

/// What a turn left of a comparison: nothing where no file and no diff of git
/// changed.
pub fn turn_diff(wd: WorkspaceDiff, git_stat: &Option<String>) -> (r: Option<WorkspaceDiff>)
    ensures
        r == if wd.created@.len() == 0 && wd.modified@.len() == 0 && *git_stat is None {
            None
        } else {
            Some(wd)
        },
{
    if wd.created.len() == 0 && wd.modified.len() == 0 && git_stat.is_none() {
        None
    } else {
        Some(wd)
    }
}

/// What git told of the changes: nothing where it failed or said nothing.
pub fn git_diff_stat(success: bool, stdout: &str) -> (r: Option<String>)
    ensures
        if success && trim(stdout@).len() > 0 {
            r matches Some(s) && s@ == trim(stdout@)
        } else {
            r is None
        },
{
    if !success {
        return None;
    }
    let s = trimmed(stdout);
    if s.as_str().is_empty() {
        None
    } else {
        Some(s)
    }
}

/// Reads the insertions and deletions out of `git diff --stat`.
pub fn git_stat_summary(stat: &str) -> (r: Option<String>)
    ensures
        match r {
            Some(s) => stat_summary(stat@) == Some(s@),
            None => stat_summary(stat@) is None,
        },
{
    let ls = line_list(stat);
    let last = if ls.len() == 0 {
        String::new()
    } else {
        ls[ls.len() - 1].clone()
    };
    let segs = pieces_on(last.as_str(), ',');
    let ghost all = segs.deep_view();
    let mut ins: Option<u64> = None;
    let mut del: Option<u64> = None;
    let mut i: usize = 0;
    assert(last@ == last_of(lines(stat@)));
    while i < segs.len()
        invariant
            i <= segs@.len(),
            all == segs.deep_view(),
            all == split(last_of(lines(stat@)), |c: char| c == ','),
            stat_counts(all.take(i as int)) == Some((as_nat(ins), as_nat(del))),
        decreases segs@.len() - i,
    {
        proof {
            assert(all.take(i + 1).drop_last() =~= all.take(i as int));
            assert(all.take(i + 1).last() == segs@[i as int]@);
        }
        let t = trimmed(segs[i].as_str());
        let num = digit_run(t.as_str());
        if !num.as_str().is_empty() {
            match parsed(num.as_str(), u64::MAX) {
                Some(n) => {
                    if has(t.as_str(), "insertion") {
                        ins = Some(n);
                    } else if has(t.as_str(), "deletion") {
                        del = Some(n);
                    }
                },
                None => {
                    proof {
                        lemma_stat_fails(all, i + 1);
                    }
                    return None;
                },
            }
        }
        i = i + 1;
    }
    assert(all.take(all.len() as int) =~= all);
    match (ins, del) {
        (None, None) => None,
        (Some(n), None) => {
            let mut s = "+".to_owned();
            let d = decimal(n);
            s.append(d.as_str());
            Some(s)
        },
        (None, Some(n)) => {
            let mut s = "−".to_owned();
            let d = decimal(n);
            s.append(d.as_str());
            Some(s)
        },
        (Some(n), Some(m)) => {
            let mut s = "+".to_owned();
            let d = decimal(n);
            s.append(d.as_str());
            s.append(" ");
            let mut x = "−".to_owned();
            let e = decimal(m);
            x.append(e.as_str());
            s.append(x.as_str());
            Some(s)
        },
    }
}

/// At most `n` characters: a longer text ends in an ellipsis.
pub open spec fn truncated(s: Seq<char>, n: int) -> Seq<char> {
    if s.len() <= n {
        s
    } else {
        s.take(
            if n > 0 {
                n - 1
            } else {
                0
            },
        ) + "…"@
    }
}

pub fn trunc_chars(s: &str, n: usize) -> (r: String)
    ensures
        r@ == truncated(s@, n as int),
{
    let c = to_chars(s);
    if c.len() <= n {
        return s.to_owned();
    }
    let m: usize = if n > 0 {
        n - 1
    } else {
        0
    };
    let mut out = crate::text::from_chars(c.as_slice(), 0, m);
    out.append("…");
    out
}

// ---------------------------------------------------------------- notice

/// How many files a notice names.
pub const NOTICE_FILES: usize = 5;

pub open spec fn files_text(names: Seq<Seq<char>>) -> Seq<char> {
    if names.len() > NOTICE_FILES {
        "editou: "@ + (join(names.take(NOTICE_FILES as int), ", "@) + " (+"@ + dec(
            (names.len() - NOTICE_FILES) as nat,
        ) + ")"@)
    } else {
        "editou: "@ + join(names, ", "@)
    }
}

/// The files of a difference, told in one line.
pub open spec fn files_part(created: Seq<Seq<char>>, modified: Seq<Seq<char>>) -> Seq<Seq<char>> {
    if created.len() + modified.len() == 0 {
        Seq::empty()
    } else {
        seq![files_text(in_order((created + modified).to_set()))]
    }
}

/// What git says of the workspace, told in one line: its summary, or its first
/// line where there is none.
pub open spec fn git_part(stat: Option<Seq<char>>) -> Seq<Seq<char>> {
    match stat {
        None => Seq::empty(),
        Some(g) => match stat_summary(g) {
            Some(sum) => seq!["git: "@ + sum],
            None => {
                let first = trim(first_of(lines(g)));
                if first.len() == 0 {
                    Seq::empty()
                } else {
                    seq!["git: "@ + truncated(first, 48)]
                }
            },
        },
    }
}

pub open spec fn diff_parts(wd: Option<WorkspaceDiff>, stat: Option<Seq<char>>) -> Seq<Seq<char>> {
    (match wd {
        Some(d) => files_part(d.created.deep_view(), d.modified.deep_view()),
        None => Seq::empty(),
    }) + git_part(stat)
}

/// What is told of the changes after a turn, if there are any.
pub open spec fn diff_notice(wd: Option<WorkspaceDiff>, stat: Option<Seq<char>>) -> Option<Seq<char>> {
    let parts = diff_parts(wd, stat);
    if parts.len() == 0 {
        None
    } else {
        Some(join(parts, " — "@))
    }
}

fn both(a: &Vec<String>, b: &Vec<String>) -> (r: Vec<String>)
    ensures
        r.deep_view() == a.deep_view() + b.deep_view(),
{
    let mut out: Vec<String> = Vec::new();
    let mut i: usize = 0;
    while i < a.len()
        invariant
            i <= a@.len(),
            out.deep_view() == a.deep_view().take(i as int),
        decreases a@.len() - i,
    {
        let ghost before = out.deep_view();
        out.push(a[i].clone());
        assert(out.deep_view() =~= before.push(a@[i as int]@));
        assert(a.deep_view().take(i + 1) =~= a.deep_view().take(i as int).push(a@[i as int]@));
        i = i + 1;
    }
    assert(a.deep_view().take(a@.len() as int) =~= a.deep_view());
    let mut j: usize = 0;
    assert(a.deep_view() + b.deep_view().take(0) =~= a.deep_view());
    while j < b.len()
        invariant
            j <= b@.len(),
            out.deep_view() == a.deep_view() + b.deep_view().take(j as int),
        decreases b@.len() - j,
    {
        let ghost before = out.deep_view();
        out.push(b[j].clone());
        assert(out.deep_view() =~= before.push(b@[j as int]@));
        assert(b.deep_view().take(j + 1) =~= b.deep_view().take(j as int).push(b@[j as int]@));
        j = j + 1;
    }
    assert(b.deep_view().take(b@.len() as int) =~= b.deep_view());
    out
}

fn files_line(wd: &WorkspaceDiff) -> (r: Option<String>)
    ensures
        match r {
            Some(s) => files_part(wd.created.deep_view(), wd.modified.deep_view()) == seq![s@],
            None => files_part(wd.created.deep_view(), wd.modified.deep_view())
                == Seq::<Seq<char>>::empty(),
        },
{
    if wd.created.len() == 0 && wd.modified.len() == 0 {
        return None;
    }
    let all = both(&wd.created, &wd.modified);
    let mut names = ordered_texts(&all);
    let n: usize = names.len();
    let mut s = "editou: ".to_owned();
    if n > NOTICE_FILES {
        let ghost whole = names.deep_view();
        names.truncate(NOTICE_FILES);
        assert(names.deep_view() =~= whole.take(NOTICE_FILES as int));
        let mut list = joined(&names, ", ");
        list.append(" (+");
        let d = decimal((n - NOTICE_FILES) as u64);
        list.append(d.as_str());
        list.append(")");
        s.append(list.as_str());
    } else {
        let list = joined(&names, ", ");
        s.append(list.as_str());
    }
    Some(s)
}

fn git_line(stat: &str) -> (r: Option<String>)
    ensures
        match r {
            Some(s) => git_part(Some(stat@)) == seq![s@],
            None => git_part(Some(stat@)) == Seq::<Seq<char>>::empty(),
        },
{
    match git_stat_summary(stat) {
        Some(sum) => {
            let mut s = "git: ".to_owned();
            s.append(sum.as_str());
            Some(s)
        },
        None => {
            let ls = line_list(stat);
            let first = if ls.len() == 0 {
                String::new()
            } else {
                ls[0].clone()
            };
            assert(first@ == first_of(lines(stat@)));
            let t = trimmed(first.as_str());
            if t.as_str().is_empty() {
                return None;
            }
            let mut s = "git: ".to_owned();
            let short = trunc_chars(t.as_str(), 48);
            s.append(short.as_str());
            Some(s)
        },
    }
}

/// Tells the changes after a turn.
pub fn format_diff_notice(wd: Option<&WorkspaceDiff>, git_stat: Option<&str>) -> (r: Option<String>)
    ensures
        match r {
            Some(s) => diff_notice(
                match wd {
                    Some(d) => Some(*d),
                    None => None,
                },
                match git_stat {
                    Some(g) => Some(g@),
                    None => None,
                },
            ) == Some(s@),
            None => diff_notice(
                match wd {
                    Some(d) => Some(*d),
                    None => None,
                },
                match git_stat {
                    Some(g) => Some(g@),
                    None => None,
                },
            ) is None,
        },
{
    let a = match wd {
        Some(d) => files_line(d),
        None => None,
    };
    let b = match git_stat {
        Some(g) => git_line(g),
        None => None,
    };
    let ghost parts = diff_parts(
        match wd {
            Some(d) => Some(*d),
            None => None,
        },
        match git_stat {
            Some(g) => Some(g@),
            None => None,
        },
    );
    match (a, b) {
        (None, None) => {
            assert(parts =~= Seq::empty());
            None
        },
        (Some(x), None) => {
            assert(parts =~= seq![x@]);
            Some(x)
        },
        (None, Some(y)) => {
            assert(parts =~= seq![y@]);
            Some(y)
        },
        (Some(x), Some(y)) => {
            let mut s = x;
            let ghost first = s@;
            s.append(" — ");
            s.append(y.as_str());
            proof {
                assert(parts =~= seq![first, y@]);
                assert(parts.drop_last() =~= seq![first]);
                assert(join(parts.drop_last(), " — "@) == first);
            }
            Some(s)
        },
    }
}

// ---------------------------------------------------------------- laws

/// A file that came to be is told as created, and as nothing else.
pub proof fn law_added_file_is_created(before: Map<Seq<char>, u64>, path: Seq<char>, time: u64)
    requires
        !before.dom().contains(path),
    ensures
        created_files(before, before.insert(path, time)) == set![path],
        modified_files(before, before.insert(path, time)) == Set::<Seq<char>>::empty(),
{
    assert(created_files(before, before.insert(path, time)) =~= set![path]);
    assert(modified_files(before, before.insert(path, time)) =~= Set::empty());
}

/// A file written to later is told as modified, and as nothing else.
pub proof fn law_written_file_is_modified(before: Map<Seq<char>, u64>, path: Seq<char>, time: u64)
    requires
        before.dom().contains(path),
        time > before[path],
    ensures
        modified_files(before, before.insert(path, time)) == set![path],
        created_files(before, before.insert(path, time)) == Set::<Seq<char>>::empty(),
{
    assert(modified_files(before, before.insert(path, time)) =~= set![path]);
    assert(created_files(before, before.insert(path, time)) =~= Set::empty());
}

/// A file that is gone is not told.
pub proof fn law_removed_file_is_not_told(before: Map<Seq<char>, u64>, path: Seq<char>)
    ensures
        created_files(before, before.remove(path)) == Set::<Seq<char>>::empty(),
        modified_files(before, before.remove(path)) == Set::<Seq<char>>::empty(),
{
    assert(created_files(before, before.remove(path)) =~= Set::empty());
    assert(modified_files(before, before.remove(path)) =~= Set::empty());
}

/// A file that is met is recorded under its path with its time, and nothing that
/// was recorded changes; a folder is entered unless it is to be skipped.
pub proof fn law_visit(w: WalkView, name: Seq<char>, path: Seq<char>, time: u64, other: Seq<char>)
    requires
        w.seen <= SNAPSHOT_MAX,
        !path.contains('\\'),
    ensures
        ({
            let on = visited(w, EntryKind::File { mtime: Some(time) }, name, path).0;
            &&& on.files.dom().contains(path) && on.files[path] == time
            &&& other != path && w.files.dom().contains(other) ==> on.files.dom().contains(other)
                && on.files[other] == w.files[other]
            &&& other != path && !w.files.dom().contains(other) ==> !on.files.dom().contains(other)
        }),
        visited(w, EntryKind::Dir, name, path).0.files == w.files,
        visited(w, EntryKind::Dir, name, path).1 == WalkStep::Descend <==> !skipped(name),
        visited(w, EntryKind::Other, name, path).0.files == w.files,
{
    law_replace(path, Seq::empty(), '\\', "/"@);
}

/// What is hidden is skipped, and so are the folders that tools fill.
pub proof fn law_skipped(name: Seq<char>)
    ensures
        name.len() > 0 && name[0] == '.' ==> skipped(name),
        skipped("node_modules"@),
        skipped("target"@),
        skipped("__pycache__"@),
        name == "src"@ ==> !skipped(name),
{
    reveal_strlit("src");
    assert("src"@.len() == 3 && "src"@[0] == 's');
    reveal_strlit(".hg");
    reveal_strlit("out");
    assert(".hg"@[0] == '.' && "out"@[0] == 'o');
    reveal_strlit(".git");
    assert(".git"@.len() == 4);
    reveal_strlit(".svn");
    assert(".svn"@.len() == 4);
    reveal_strlit("node_modules");
    assert("node_modules"@.len() == 12);
    reveal_strlit("target");
    assert("target"@.len() == 6);
    reveal_strlit("dist");
    assert("dist"@.len() == 4);
    reveal_strlit("build");
    assert("build"@.len() == 5);
    reveal_strlit(".next");
    assert(".next"@.len() == 5);
    reveal_strlit(".nuxt");
    assert(".nuxt"@.len() == 5);
    reveal_strlit(".turbo");
    assert(".turbo"@.len() == 6);
    reveal_strlit(".cache");
    assert(".cache"@.len() == 6);
    reveal_strlit(".venv");
    assert(".venv"@.len() == 5);
    reveal_strlit("venv");
    assert("venv"@.len() == 4);
    reveal_strlit("__pycache__");
    assert("__pycache__"@.len() == 11);
    reveal_strlit(".idea");
    assert(".idea"@.len() == 5);
    reveal_strlit(".vscode");
    assert(".vscode"@.len() == 7);
    reveal_strlit("vendor");
    assert("vendor"@.len() == 6);
    reveal_strlit(".cargo");
    assert(".cargo"@.len() == 6);
    reveal_strlit(".gradle");
    assert(".gradle"@.len() == 7);
    reveal_strlit(".terraform");
    assert(".terraform"@.len() == 10);
}

/// What is told of a change names the files, all of them where they are few.
pub proof fn law_notice_names_the_files(names: Seq<Seq<char>>, i: int)
    requires
        0 <= i < names.len(),
        i < NOTICE_FILES,
    ensures
        contains(files_text(names), names[i]),
        names.len() > NOTICE_FILES ==> contains(
            files_text(names),
            "(+"@ + dec((names.len() - NOTICE_FILES) as nat) + ")"@,
        ),
{
    broadcast use group_contains;

    let all = files_text(names);
    if names.len() > NOTICE_FILES {
        let few = names.take(NOTICE_FILES as int);
        let more = dec((names.len() - NOTICE_FILES) as nat);
        law_join_holds(few, ", "@, i);
        assert(few[i] == names[i]);
        assert(contains(all, join(few, ", "@)));
        lemma_contains_trans(all, join(few, ", "@), names[i]);
        reveal_strlit(" (+");
        reveal_strlit("(+");
        reveal_strlit(" ");
        assert(" (+"@ =~= " "@ + "(+"@);
        assert(all =~= "editou: "@ + join(few, ", "@) + " "@ + ("(+"@ + more + ")"@));
    } else {
        law_join_holds(names, ", "@, i);
        assert(contains(all, join(names, ", "@)));
        lemma_contains_trans(all, join(names, ", "@), names[i]);
    }
}

/// The summary of git tells what was added behind a plus and what was taken away
/// behind a minus.
pub proof fn law_stat_text(ins: nat, del: nat)
    ensures
        stat_text(Some(ins), None) == Some("+"@ + dec(ins)),
        stat_text(None, Some(del)) == Some("−"@ + dec(del)),
        stat_text(Some(ins), Some(del)) matches Some(t) && contains(t, "+"@ + dec(ins)) && contains(
            t,
            "−"@ + dec(del),
        ),
        stat_text(None, None) is None,
{
    broadcast use group_contains;

}

/// A text that is too long is cut to the length that is asked for, and is told
/// as cut; any other stays as it is.
pub proof fn law_truncated(s: Seq<char>, n: nat)
    ensures
        s.len() <= n ==> truncated(s, n as int) == s,
        s.len() > n && n > 0 ==> truncated(s, n as int).len() == n && truncated(
            s,
            n as int,
        ).last() == '…' && truncated(s, n as int).drop_last().is_prefix_of(s),
{
    reveal_strlit("…");
    if s.len() > n && n > 0 {
        assert(truncated(s, n as int).drop_last() =~= s.take(n - 1));
    }
}

/// Both the files and the summary of git are told where there are both.
pub proof fn law_notice_holds(wd: Option<WorkspaceDiff>, stat: Option<Seq<char>>, i: int)
    requires
        0 <= i < diff_parts(wd, stat).len(),
    ensures
        diff_notice(wd, stat) matches Some(t) && contains(t, diff_parts(wd, stat)[i]),
{
    law_join_holds(diff_parts(wd, stat), " — "@, i);
}

/// The numbers of a summary: what was inserted and what was deleted, each read
/// from the segment that names it.
pub proof fn law_stat_counts(
    segments: Seq<Seq<char>>,
    t: Seq<char>,
    n: nat,
    ins: Option<nat>,
    del: Option<nat>,
)
    requires
        stat_counts(segments) == Some((ins, del)),
        leading_digits(trim(t)).len() > 0,
        parse_unsigned(leading_digits(trim(t)), u64::MAX as nat) == Some(n),
    ensures
        contains(trim(t), "insertion"@) ==> stat_counts(segments.push(t)) == Some((Some(n), del)),
        !contains(trim(t), "insertion"@) && contains(trim(t), "deletion"@) ==> stat_counts(
            segments.push(t),
        ) == Some((ins, Some(n))),
        !contains(trim(t), "insertion"@) && !contains(trim(t), "deletion"@) ==> stat_counts(
            segments.push(t),
        ) == Some((ins, del)),
{
    assert(segments.push(t).drop_last() =~= segments);
}

/// The summary is read from the last line, whatever stands before it.
pub proof fn law_summary_is_the_last_line(a: Seq<char>, line: Seq<char>)
    requires
        line.len() > 0,
        !line.contains('\n'),
    ensures
        stat_summary(a.push('\n') + line) == stat_summary(line),
{
    law_last_line(a, line);
    assert(last_of(lines(line)) == line);
}

/// It makes no difference to the files that are told whether they came to be or
/// were written to.
pub proof fn law_files_told_alike(created: Seq<Seq<char>>, modified: Seq<Seq<char>>)
    ensures
        files_part(created, modified) == files_part(modified, created),
        files_part(created + modified, Seq::empty()) == files_part(created, modified),
        created.len() + modified.len() > 0 <==> files_part(created, modified).len() == 1,
{
    let a = (created + modified).to_set();
    let b = (modified + created).to_set();
    assert forall|x: Seq<char>| a.contains(x) <==> b.contains(x) by {
        lemma_in_both(created, modified, x);
        lemma_in_both(modified, created, x);
    }
    assert(a =~= b);
    assert(created + modified + Seq::<Seq<char>>::empty() =~= created + modified);
}

proof fn lemma_in_both(a: Seq<Seq<char>>, b: Seq<Seq<char>>, x: Seq<char>)
    ensures
        (a + b).to_set().contains(x) <==> a.contains(x) || b.contains(x),
{
    let all = a + b;
    if a.contains(x) {
        let i = choose|i: int| 0 <= i < a.len() && a[i] == x;
        assert(all[i] == x);
    }
    if b.contains(x) {
        let i = choose|i: int| 0 <= i < b.len() && b[i] == x;
        assert(all[a.len() + i] == x);
    }
    if all.contains(x) {
        let i = choose|i: int| 0 <= i < all.len() && all[i] == x;
        if i < a.len() {
            assert(a[i] == x);
        } else {
            assert(b[i - a.len()] == x);
        }
    }
}

/// Every file that came to be or was written to is among those that are told,
/// and no other.
pub proof fn law_files_part_tells_all(created: Seq<Seq<char>>, modified: Seq<Seq<char>>, path: Seq<char>)
    requires
        created.contains(path) || modified.contains(path),
    ensures
        exists|names: Seq<Seq<char>>|
            files_part(created, modified) == seq![#[trigger] files_text(names)] && names.contains(path)
                && (forall|t: Seq<char>| #[trigger]
                names.contains(t) <==> created.contains(t) || modified.contains(t)),
{
    let all = created + modified;
    let names = in_order(all.to_set());
    law_in_order(all);
    lemma_in_both(created, modified, path);
    assert(all.contains(path));
    assert(all.len() > 0);
    assert forall|t: Seq<char>| #[trigger] names.contains(t) <==> created.contains(t)
        || modified.contains(t) by {
        lemma_in_both(created, modified, t);
        assert(all.to_set().contains(t) <==> all.contains(t));
    }
    assert(files_part(created, modified) == seq![files_text(names)]);
}

} // verus!
