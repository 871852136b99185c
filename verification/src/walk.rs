use vstd::prelude::*;
use std::collections::VecDeque;
use oxc_resolver::{FileSystemOs, ResolverGeneric};
use crate::graph::{answers_for, extract_imports, import_base_dir, resolve_imports, resolved_of, std_path_parent};
use crate::options::oxc_source_type_for_path;
use crate::parse::oxc_parse;

verus! {

/// The text of each string in `v`, in order.
pub open spec fn texts(v: Seq<String>) -> Seq<Seq<char>> {
    v.map_values(|s: String| s@)
}

/// Whether `v` holds a string with the text `s`.
pub fn contains_text(v: &Vec<String>, s: &String) -> (found: bool)
    ensures
        found == texts(v@).contains(s@),
{
    let n = v.len();
    let mut i: usize = 0;
    while i < n
        invariant
            n == v@.len(),
            i <= n,
            forall|j: int| 0 <= j < i ==> v@[j]@ != s@,
        decreases n - i,
    {
        if v[i].eq(s) {
            assert(texts(v@)[i as int] == s@);
            return true;
        }
        i = i + 1;
    }
    assert forall|j: int| 0 <= j < texts(v@).len() implies texts(v@)[j] != s@ by {
        assert(texts(v@)[j] == v@[j]@);
    }
    false
}

/// A breadth-first walk over the import graph of an entry file.
///
/// The walk hands out each file once (`next_file`); the caller reads it,
/// resolves its imports and hands the resolved paths back (`add_imports`).
/// Files already visited are not queued again. When `next_file` returns
/// `None`, the visited files are the entry and everything reachable from
/// it through the imports that were handed back.
pub struct FileWalk {
    entry: Ghost<Seq<char>>,
    visited: Vec<String>,
    queue: VecDeque<String>,
    pending: Option<String>,
    imports: Ghost<Map<Seq<char>, Seq<Seq<char>>>>,
    sources: Ghost<Map<Seq<char>, Seq<char>>>,
}

impl FileWalk {
    /// The file the walk started from.
    pub closed spec fn entry(&self) -> Seq<char> {
        self.entry@
    }

    /// The files handed out so far, in order.
    pub closed spec fn visited(&self) -> Seq<Seq<char>> {
        texts(self.visited@)
    }

    /// The files waiting to be looked at, in order (some may have been
    /// visited since they were queued; they are skipped).
    pub closed spec fn queued(&self) -> Seq<Seq<char>> {
        self.queue@.map_values(|s: String| s@)
    }

    /// The file last handed out, whose imports are still to come.
    pub closed spec fn pending(&self) -> Option<Seq<char>> {
        match self.pending {
            Some(p) => Some(p@),
            None => None,
        }
    }

    /// For each visited file whose imports have been handed back: those
    /// imports, resolved, in order.
    pub closed spec fn imports(&self) -> Map<Seq<char>, Seq<Seq<char>>> {
        self.imports@
    }

    /// For each visited file whose text was handed to `visit`: that text.
    pub closed spec fn sources(&self) -> Map<Seq<char>, Seq<char>> {
        self.sources@
    }

    /// Every file whose imports were handed back had them found by the
    /// resolver `r`: they are the resolver's answers, in order, for the
    /// file's import specifiers from the file's directory.
    pub open spec fn follows_resolver(&self, r: ResolverGeneric<FileSystemOs>) -> bool {
        forall|f: Seq<char>| #[trigger] self.imports().dom().contains(f) ==> self.sources().dom().contains(f)
            && resolved_imports_of(r, f, self.sources()[f], self.imports()[f])
    }

    /// A file the walk knows of: visited or queued.
    pub open spec fn known(&self, f: Seq<char>) -> bool {
        self.visited().contains(f) || self.queued().contains(f)
    }

    /// Nothing is queued and no file waits for its imports.
    pub open spec fn done(&self) -> bool {
        self.queued().len() == 0 && self.pending() is None
    }

    /// The walk's invariant.
    pub open spec fn wf(&self) -> bool {
        &&& self.visited().no_duplicates()
        &&& (self.pending() matches Some(p) ==> self.visited().contains(p)
            && !self.imports().dom().contains(p))
        &&& forall|f: Seq<char>| #[trigger] self.visited().contains(f) && self.pending() != Some(f)
            ==> self.imports().dom().contains(f)
        &&& forall|f: Seq<char>| #[trigger] self.imports().dom().contains(f) ==> self.visited().contains(f)
        &&& forall|f: Seq<char>, i: int| self.imports().dom().contains(f) && 0 <= i < self.imports()[f].len()
            ==> self.known(#[trigger] self.imports()[f][i])
        &&& forall|x: Seq<char>| #[trigger] self.known(x) ==> x == self.entry() || exists|f: Seq<char>|
            self.imports().dom().contains(f) && #[trigger] self.imports()[f].contains(x)
        &&& self.known(self.entry())
        &&& (self.visited().len() == 0 ==> self.queued() == seq![self.entry()])
        &&& (self.visited().len() > 0 ==> self.visited()[0] == self.entry())
        &&& forall|i: int| 0 < i < self.visited().len() ==> #[trigger] imported_before(self.visited(), self.imports(), i)
    }

    /// A walk that starts at `entry`.
    pub fn new(entry: String) -> (w: Self)
        ensures
            w.wf(),
            w.entry() == entry@,
            w.visited() == Seq::<Seq<char>>::empty(),
            w.queued() == seq![entry@],
            w.pending() is None,
            w.imports().is_empty(),
            w.sources().is_empty(),
    {
        let ghost e = entry@;
        let mut queue = VecDeque::new();
        queue.push_back(entry);
        let w = FileWalk {
            entry: Ghost(e),
            visited: Vec::new(),
            queue,
            pending: None,
            imports: Ghost(Map::empty()),
            sources: Ghost(Map::empty()),
        };
        assert(w.queued() =~= seq![e]);
        assert(w.visited() =~= Seq::<Seq<char>>::empty());
        assert(w.queued()[0] == e);
        w
    }

    /// Whether the file last handed out still waits for its imports.
    pub fn awaits_imports(&self) -> (b: bool)
        ensures
            b == self.pending() is Some,
    {
        self.pending.is_some()
    }

    /// Hand out the next file not yet visited, or `None` when the walk is
    /// over. Queued files that were visited meanwhile are dropped.
    pub fn next_file(&mut self) -> (r: Option<String>)
        requires
            old(self).wf(),
            old(self).pending() is None,
        ensures
            final(self).wf(),
            final(self).entry() == old(self).entry(),
            final(self).imports() == old(self).imports(),
            final(self).sources() == old(self).sources(),
            forall|x: Seq<char>| final(self).known(x) == old(self).known(x),
            match r {
                Some(f) => final(self).visited() == old(self).visited().push(f@)
                    && !old(self).visited().contains(f@)
                    && old(self).queued().contains(f@)
                    && final(self).pending() == Some(f@),
                None => final(self).done() && final(self).visited() == old(self).visited(),
            },
    {
        loop
            invariant
                self.wf(),
                self.pending() is None,
                self.entry() == old(self).entry(),
                self.imports() == old(self).imports(),
                self.sources() == old(self).sources(),
                self.visited() == old(self).visited(),
                forall|x: Seq<char>| self.known(x) == old(self).known(x),
                forall|x: Seq<char>| self.queued().contains(x) ==> old(self).queued().contains(x),
            decreases self.queue@.len(),
        {
            let ghost q0 = self.queued();
            let ghost s0 = *self;
            match self.queue.pop_front() {
                None => {
                    assert(self.queued() =~= q0);
                    assert forall|x: Seq<char>| #[trigger] self.known(x) == s0.known(x) by {}
                    return None;
                },
                Some(path) => {
                    proof {
                        assert(q0 =~= seq![path@] + self.queued());
                        assert(q0[0] == path@);
                        assert forall|x: Seq<char>| self.queued().contains(x) implies q0.contains(x) by {
                            let k = choose|k: int| 0 <= k < self.queued().len() && self.queued()[k] == x;
                            assert(q0[k + 1] == x);
                        }
                    }
                    if contains_text(&self.visited, &path) {
                        proof {
                            assert forall|x: Seq<char>| #[trigger] self.known(x) == old(self).known(x) by {
                                if q0.contains(x) && !self.queued().contains(x) {
                                    let k = choose|k: int| 0 <= k < q0.len() && q0[k] == x;
                                    if k > 0 {
                                        assert(self.queued()[k - 1] == x);
                                    }
                                }
                            }
                        }
                    } else {
                        let ghost v0 = self.visited();
                        self.visited.push(path.clone());
                        self.pending = Some(path.clone());
                        proof {
                            assert(self.visited() =~= v0.push(path@));
                            assert(self.visited()[v0.len() as int] == path@);
                            assert forall|x: Seq<char>| #[trigger] self.visited().contains(x)
                                <==> (v0.contains(x) || x == path@) by {
                                if self.visited().contains(x) {
                                    let k = choose|k: int| 0 <= k < self.visited().len() && self.visited()[k] == x;
                                    if k < v0.len() {
                                        assert(v0[k] == x);
                                    }
                                }
                                if v0.contains(x) {
                                    let k = choose|k: int| 0 <= k < v0.len() && v0[k] == x;
                                    assert(self.visited()[k] == x);
                                }
                            }
                            assert forall|x: Seq<char>| #[trigger] self.known(x) == old(self).known(x) by {
                                if q0.contains(x) && !self.queued().contains(x) {
                                    let k = choose|k: int| 0 <= k < q0.len() && q0[k] == x;
                                    if k > 0 {
                                        assert(self.queued()[k - 1] == x);
                                    }
                                }
                            }
                            assert(old(self).queued().contains(path@));
                            let n = v0.len() as int;
                            let nv = self.visited();
                            if n == 0 {
                                assert(q0 == seq![s0.entry()]);
                                assert(path@ == s0.entry());
                            } else {
                                assert(nv[0] == v0[0]);
                            }
                            assert forall|i: int| 0 < i < nv.len() implies #[trigger] imported_before(nv, self.imports(), i) by {
                                if i < n {
                                    assert(imported_before(v0, s0.imports(), i));
                                    let j = choose|j: int| 0 <= j < i && s0.imports().dom().contains(v0[j])
                                        && #[trigger] s0.imports()[v0[j]].contains(v0[i]);
                                    assert(nv[j] == v0[j] && nv[i] == v0[i]);
                                } else {
                                    assert(i == n);
                                    assert(v0.contains(v0[0]));
                                    assert(path@ != s0.entry());
                                    assert(s0.known(path@));
                                    let f = choose|f: Seq<char>| s0.imports().dom().contains(f)
                                        && #[trigger] s0.imports()[f].contains(path@);
                                    assert(v0.contains(f));
                                    let j = choose|j: int| 0 <= j < v0.len() && v0[j] == f;
                                    assert(nv[j] == f);
                                }
                            }
                        }
                        return Some(path);
                    }
                },
            }
        }
    }

    /// Hand back the resolved imports of the file last handed out. Each
    /// one not yet visited joins the queue, in order.
    pub fn add_imports(&mut self, resolved: Vec<String>)
        requires
            old(self).wf(),
            old(self).pending() is Some,
        ensures
            final(self).wf(),
            final(self).entry() == old(self).entry(),
            final(self).visited() == old(self).visited(),
            final(self).pending() is None,
            final(self).imports() == old(self).imports().insert(old(self).pending()->0, texts(resolved@)),
            final(self).queued() == old(self).queued() + texts(resolved@).filter(unvisited(old(self).visited())),
            final(self).sources() == old(self).sources(),
    {
        let ghost v = self.visited();
        let ghost q0 = self.queued();
        let ghost rs = texts(resolved@);
        let ghost pred = unvisited(v);
        let n = resolved.len();
        let mut i: usize = 0;
        while i < n
            invariant
                n == resolved@.len(),
                rs == texts(resolved@),
                pred == unvisited(v),
                i <= n,
                self.visited() == v,
                self.entry() == old(self).entry(),
                self.pending() == old(self).pending(),
                self.imports() == old(self).imports(),
                self.sources() == old(self).sources(),
                self.queued() == q0 + rs.take(i as int).filter(pred),
            decreases n - i,
        {
            proof {
                assert(rs.take(i + 1) =~= rs.take(i as int).push(rs[i as int]));
                rs.take(i as int).lemma_filter_push(rs[i as int], pred);
                assert(rs[i as int] == resolved@[i as int]@);
            }
            if !contains_text(&self.visited, &resolved[i]) {
                let ghost before = self.queued();
                self.queue.push_back(resolved[i].clone());
                assert(self.queued() =~= before.push(rs[i as int]));
            }
            i = i + 1;
        }
        let ghost f = self.pending()->0;
        let ghost e0 = self.imports();
        let ghost fresh = rs.filter(pred);
        proof {
            assert(rs.take(n as int) =~= rs);
        }
        self.imports = Ghost(e0.insert(f, rs));
        self.pending = None;
        proof {
            assert(self.queued() == q0 + fresh);
            let old_w = *old(self);
            assert forall|x: Seq<char>| old_w.known(x) implies #[trigger] self.known(x) by {
                if q0.contains(x) {
                    let k = choose|k: int| 0 <= k < q0.len() && q0[k] == x;
                    assert(self.queued()[k] == x);
                }
            }
            assert forall|x: Seq<char>| #[trigger] fresh.contains(x) implies self.known(x)
                && rs.contains(x) && !v.contains(x) by {
                let k = choose|k: int| 0 <= k < fresh.len() && fresh[k] == x;
                assert(self.queued()[q0.len() + k] == x);
                rs.lemma_filter_pred(pred, k);
                rs.lemma_filter_contains_rev(pred, x);
            }
            assert forall|g: Seq<char>, j: int| self.imports().dom().contains(g) && 0 <= j < self.imports()[g].len()
                implies self.known(#[trigger] self.imports()[g][j]) by {
                if g == f {
                    let x = rs[j];
                    if !v.contains(x) {
                        rs.lemma_filter_contains(pred, j);
                        assert(fresh.contains(x));
                    }
                } else {
                    assert(old_w.known(old_w.imports()[g][j]));
                }
            }
            assert forall|x: Seq<char>| #[trigger] self.known(x) implies x == self.entry() || exists|g: Seq<char>|
                self.imports().dom().contains(g) && #[trigger] self.imports()[g].contains(x) by {
                if old_w.known(x) {
                    if x != self.entry() {
                        let g = choose|g: Seq<char>| old_w.imports().dom().contains(g)
                            && #[trigger] old_w.imports()[g].contains(x);
                        assert(g != f);
                        assert(self.imports()[g] == old_w.imports()[g]);
                        assert(self.imports()[g].contains(x));
                    }
                } else {
                    assert(!q0.contains(x));
                    if self.queued().contains(x) {
                        let k = choose|k: int| 0 <= k < self.queued().len() && self.queued()[k] == x;
                        assert(k >= q0.len());
                        assert(fresh[k - q0.len()] == x);
                        assert(fresh.contains(x));
                    }
                    assert(rs.contains(x));
                    assert(self.imports()[f] == rs);
                }
            }
            assert(old_w.known(old_w.entry()));
            assert(v.contains(f));
            assert forall|i: int| 0 < i < v.len() implies #[trigger] imported_before(v, self.imports(), i) by {
                assert(imported_before(v, old_w.imports(), i));
                let j = choose|j: int| 0 <= j < i && old_w.imports().dom().contains(v[j])
                    && #[trigger] old_w.imports()[v[j]].contains(v[i]);
                assert(v[j] != f);
                assert(self.imports()[v[j]] == old_w.imports()[v[j]]);
            }
        }
    }
}

impl FileWalk {
    /// Take the text of the file last handed out, find its imports
    /// (`extract_imports`), resolve them from its directory with `resolver`
    /// (`resolve_imports`) and hand the resolved paths back (`add_imports`).
    pub fn visit(&mut self, resolver: &ResolverGeneric<FileSystemOs>, source: &str)
        requires
            old(self).wf(),
            old(self).pending() is Some,
        ensures
            final(self).wf(),
            final(self).entry() == old(self).entry(),
            final(self).visited() == old(self).visited(),
            final(self).pending() is None,
            exists|found: Seq<Seq<char>>| #[trigger] resolved_imports_of(*resolver, old(self).pending()->0, source@, found)
                && final(self).imports() == old(self).imports().insert(old(self).pending()->0, found)
                && final(self).queued() == old(self).queued() + found.filter(unvisited(old(self).visited())),
            final(self).sources() == old(self).sources().insert(old(self).pending()->0, source@),
            old(self).follows_resolver(*resolver) ==> final(self).follows_resolver(*resolver),
            exists|outcomes: Seq<Option<Seq<char>>>| #![trigger resolved_of(outcomes)]
                answers_for(*resolver, match std_path_parent(old(self).pending()->0) {
                    Some(p) => p,
                    None => seq!['.'],
                }, import_texts(old(self).pending()->0, source@), outcomes)
                && final(self).imports()[old(self).pending()->0] == resolved_of(outcomes),
    {
        let path: String = match &self.pending {
            Some(p) => p.clone(),
            None => String::new(),
        };
        let ghost f = path@;
        let specs = extract_imports(path.as_str(), source);
        let dir = import_base_dir(path.as_str());
        let resolved = resolve_imports(resolver, dir.as_str(), &specs);
        let ghost found = texts(resolved@);
        let ghost outcomes = choose|outcomes: Seq<Option<Seq<char>>>| #[trigger] answers_for(*resolver, dir@, specs.deep_view(), outcomes)
            && resolved.deep_view() == resolved_of(outcomes);
        proof {
            assert(found =~= resolved.deep_view());
            assert(dir@ == base_dir_text(f));
            assert(specs.deep_view() == import_texts(f, source@));
            assert(answers_for(*resolver, base_dir_text(f), import_texts(f, source@), outcomes));
            assert(resolved_imports_of(*resolver, f, source@, found));
        }
        let ghost old_w = *self;
        self.add_imports(resolved);
        let ghost mid = *self;
        self.sources = Ghost(self.sources@.insert(f, source@));
        proof {
            assert(self.visited() == mid.visited() && self.queued() == mid.queued());
            assert(self.imports() == mid.imports() && self.pending() == mid.pending());
            assert(forall|x: Seq<char>| #[trigger] self.known(x) == mid.known(x));
            assert(resolved_imports_of(*resolver, f, source@, found));
            assert(dir@ == match std_path_parent(f) {
                Some(p) => p,
                None => seq!['.'],
            });
            assert(self.imports()[f] == found);
            assert(found == resolved_of(outcomes));
            if old_w.follows_resolver(*resolver) {
                assert forall|g: Seq<char>| #[trigger] self.imports().dom().contains(g) implies self.sources().dom().contains(g)
                    && resolved_imports_of(*resolver, g, self.sources()[g], self.imports()[g]) by {
                    if g != f {
                        assert(old_w.imports().dom().contains(g));
                    }
                }
            }
        }
    }
}

impl FileWalk {
    /// The files the walk handed out, in order.
    pub fn into_files(self) -> (files: Vec<String>)
        ensures
            texts(files@) == self.visited(),
    {
        self.visited
    }
}

/// A finished walk is closed under imports: it holds the entry, every
/// visited file had its imports handed back, and every import of a visited
/// file was visited too.
pub proof fn lemma_finished_walk_closed(w: FileWalk)
    requires
        w.wf(),
        w.done(),
    ensures
        w.visited().contains(w.entry()),
        forall|f: Seq<char>| #[trigger] w.visited().contains(f) ==> w.imports().dom().contains(f),
        forall|f: Seq<char>, x: Seq<char>| w.visited().contains(f) && #[trigger] w.imports()[f].contains(x)
            ==> w.visited().contains(x),
{
    assert forall|f: Seq<char>, x: Seq<char>| w.visited().contains(f) && #[trigger] w.imports()[f].contains(x)
        implies w.visited().contains(x) by {
        let i = choose|i: int| 0 <= i < w.imports()[f].len() && w.imports()[f][i] == x;
        assert(w.known(w.imports()[f][i]));
    }
}

/// Whether `x` is reachable from `entry` in at most `n` import steps.
pub open spec fn reachable_within(imports: Map<Seq<char>, Seq<Seq<char>>>, entry: Seq<char>, x: Seq<char>, n: nat) -> bool
    decreases n,
{
    x == entry || (n > 0 && exists|f: Seq<char>| imports.dom().contains(f) && #[trigger] imports[f].contains(x)
        && reachable_within(imports, entry, f, (n - 1) as nat))
}

/// Reachable in `n` steps is reachable in any more.
pub proof fn lemma_reachable_within_monotone(imports: Map<Seq<char>, Seq<Seq<char>>>, entry: Seq<char>, x: Seq<char>, n: nat, m: nat)
    requires
        reachable_within(imports, entry, x, n),
        n <= m,
    ensures
        reachable_within(imports, entry, x, m),
    decreases n,
{
    if x != entry {
        let f = choose|f: Seq<char>| imports.dom().contains(f) && #[trigger] imports[f].contains(x)
            && reachable_within(imports, entry, f, (n - 1) as nat);
        lemma_reachable_within_monotone(imports, entry, f, (n - 1) as nat, (m - 1) as nat);
    }
}

/// The walk only ever takes in files it was led to: it starts at the entry,
/// each later file was imported by a file visited before it, so every
/// visited file is reachable from the entry through the imports handed
/// back, and none is visited twice.
pub proof fn lemma_walk_visits_only_reachable(w: FileWalk)
    requires
        w.wf(),
    ensures
        w.visited().no_duplicates(),
        w.visited().len() > 0 ==> w.visited()[0] == w.entry(),
        forall|i: int| 0 < i < w.visited().len() ==> #[trigger] imported_before(w.visited(), w.imports(), i),
        forall|i: int| 0 <= i < w.visited().len() ==> reachable_within(w.imports(), w.entry(), #[trigger] w.visited()[i], i as nat),
{
    assert forall|i: int| 0 <= i < w.visited().len() implies reachable_within(w.imports(), w.entry(), #[trigger] w.visited()[i], i as nat) by {
        lemma_visited_reachable(w, i);
    }
}

/// The `i`-th visited file is reachable from the entry in at most `i` steps.
proof fn lemma_visited_reachable(w: FileWalk, i: int)
    requires
        w.wf(),
        0 <= i < w.visited().len(),
    ensures
        reachable_within(w.imports(), w.entry(), w.visited()[i], i as nat),
    decreases i,
{
    let v = w.visited();
    if i > 0 && v[i] != w.entry() {
        assert(imported_before(v, w.imports(), i));
        let j = choose|j: int| 0 <= j < i && w.imports().dom().contains(v[j]) && #[trigger] w.imports()[v[j]].contains(v[i]);
        lemma_visited_reachable(w, j);
        lemma_reachable_within_monotone(w.imports(), w.entry(), v[j], j as nat, (i - 1) as nat);
        assert(w.imports()[v[j]].contains(v[i]));
    }
}

/// The directory the imports of `path` resolve from: its parent, or `.`.
pub open spec fn base_dir_text(path: Seq<char>) -> Seq<char> {
    match std_path_parent(path) {
        Some(p) => p,
        None => seq!['.'],
    }
}

/// The import specifiers of the module at `path` whose text is `source`.
pub open spec fn import_texts(path: Seq<char>, source: Seq<char>) -> Seq<Seq<char>> {
    oxc_parse(source, oxc_source_type_for_path(path)).1.filter_map(|o: Option<Seq<char>>| o)
}

/// That `found` are the paths the resolver `r` found, in order, for the
/// imports of `path` (whose text is `source`) from its directory.
pub open spec fn resolved_imports_of(r: ResolverGeneric<FileSystemOs>, path: Seq<char>, source: Seq<char>, found: Seq<Seq<char>>) -> bool {
    exists|outcomes: Seq<Option<Seq<char>>>| #[trigger] answers_for(r, base_dir_text(path), import_texts(path, source), outcomes)
        && found == resolved_of(outcomes)
}

/// Whether the `i`-th visited file was imported by a file visited before it.
pub open spec fn imported_before(visited: Seq<Seq<char>>, imports: Map<Seq<char>, Seq<Seq<char>>>, i: int) -> bool {
    exists|j: int| 0 <= j < i && imports.dom().contains(visited[j]) && #[trigger] imports[visited[j]].contains(visited[i])
}

/// A finished walk driven by `visit` with the resolver `r` holds the entry
/// and, for each visited file, the paths the resolver found for its
/// imports from its directory; each of those was visited too, and each
/// visited file is reachable from the entry through them.
pub proof fn lemma_walk_follows_resolution(w: FileWalk, r: ResolverGeneric<FileSystemOs>)
    requires
        w.wf(),
        w.done(),
        w.follows_resolver(r),
    ensures
        w.visited().contains(w.entry()),
        forall|f: Seq<char>| #[trigger] w.visited().contains(f) ==> w.sources().dom().contains(f)
            && resolved_imports_of(r, f, w.sources()[f], w.imports()[f]),
        forall|f: Seq<char>, x: Seq<char>| w.visited().contains(f) && #[trigger] w.imports()[f].contains(x)
            ==> w.visited().contains(x),
        forall|i: int| 0 <= i < w.visited().len() ==> reachable_within(w.imports(), w.entry(), #[trigger] w.visited()[i], i as nat),
{
    lemma_finished_walk_closed(w);
    lemma_walk_visits_only_reachable(w);
    assert forall|f: Seq<char>| #[trigger] w.visited().contains(f) implies w.sources().dom().contains(f)
        && resolved_imports_of(r, f, w.sources()[f], w.imports()[f]) by {
        assert(w.imports().dom().contains(f));
    }
}

/// The walk ends: where every import handed back lies in a finite set of
/// files that holds the entry, the walk visits at most that many files, so
/// at most that many calls of `next_file` hand one out.
pub proof fn lemma_walk_bounded(w: FileWalk, files: Set<Seq<char>>)
    requires
        w.wf(),
        files.finite(),
        files.contains(w.entry()),
        forall|f: Seq<char>, x: Seq<char>| w.imports().dom().contains(f) && #[trigger] w.imports()[f].contains(x)
            ==> files.contains(x),
    ensures
        w.visited().len() <= files.len(),
{
    let v = w.visited();
    lemma_walk_visits_only_reachable(w);
    assert forall|x: Seq<char>| v.to_set().contains(x) implies files.contains(x) by {
        let i = choose|i: int| 0 <= i < v.len() && v[i] == x;
        if i > 0 {
            assert(imported_before(v, w.imports(), i));
        }
    }
    v.unique_seq_to_set();
    vstd::set_lib::lemma_len_subset(v.to_set(), files);
}

/// Imports are resolved from the importing file's directory: for every
/// file whose imports a walk driven by `r` handed back, they are the found
/// ones among the resolver's answers, one per import specifier of the
/// file's text (in order), each asked from the file's parent directory
/// (`.` where the path has no parent), never from the file's own path.
pub proof fn law_imports_resolved_from_parent_dir(w: FileWalk, r: ResolverGeneric<FileSystemOs>, f: Seq<char>)
    requires
        w.follows_resolver(r),
        w.imports().dom().contains(f),
    ensures
        exists|outcomes: Seq<Option<Seq<char>>>| #![trigger resolved_of(outcomes)]
            answers_for(r, match std_path_parent(f) {
                Some(p) => p,
                None => seq!['.'],
            }, import_texts(f, w.sources()[f]), outcomes)
            && w.imports()[f] == resolved_of(outcomes),
{
    assert(resolved_imports_of(r, f, w.sources()[f], w.imports()[f]));
    let outcomes = choose|outcomes: Seq<Option<Seq<char>>>| #[trigger] answers_for(r, base_dir_text(f), import_texts(f, w.sources()[f]), outcomes)
        && w.imports()[f] == resolved_of(outcomes);
    assert(w.imports()[f] == resolved_of(outcomes));
}

/// Whether a file is outside `visited`.
pub open spec fn unvisited(visited: Seq<Seq<char>>) -> spec_fn(Seq<char>) -> bool {
    |x: Seq<char>| !visited.contains(x)
}

} // verus!
