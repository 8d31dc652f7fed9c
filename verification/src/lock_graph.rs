//! The lock graph: the packages that `yar.lock` pins, each with the child
//! edges it records, checked against the roots that the manifests declare.
//!
//! Reading manifests from disk is not done here: the roots come in as plain
//! values.
use vstd::prelude::*;

use crate::text::{debug_quoted, name_views, names_sorted, owned, quote, sort_names, str_eq};

verus! {

/// Where a dependency comes from: a git repository at a tag, revision or
/// branch, or a local path.
#[derive(Debug)]
pub struct Dependency {
    pub git: String,
    pub tag: String,
    pub rev: String,
    pub branch: String,
    pub path: String,
}

/// The value of a dependency source.
pub struct DependencyView {
    pub git: Seq<char>,
    pub tag: Seq<char>,
    pub rev: Seq<char>,
    pub branch: Seq<char>,
    pub path: Seq<char>,
}

impl View for Dependency {
    type V = DependencyView;

    open spec fn view(&self) -> DependencyView {
        DependencyView {
            git: self.git@,
            tag: self.tag@,
            rev: self.rev@,
            branch: self.branch@,
            path: self.path@,
        }
    }
}

impl Dependency {
    /// Whether this is a local path dependency.
    pub fn is_local(&self) -> (b: bool)
        ensures
            b == (self.path@.len() > 0),
    {
        self.path.unicode_len() > 0
    }

    /// Whether two sources are the same, field by field.
    pub fn same_source(&self, other: &Dependency) -> (b: bool)
        ensures
            b == (self@ == other@),
    {
        str_eq(self.git.as_str(), other.git.as_str()) && str_eq(self.tag.as_str(), other.tag.as_str())
            && str_eq(self.rev.as_str(), other.rev.as_str()) && str_eq(
            self.branch.as_str(),
            other.branch.as_str(),
        ) && str_eq(self.path.as_str(), other.path.as_str())
    }

    /// A copy of the source.
    pub fn duplicate(&self) -> (d: Dependency)
        ensures
            d@ == self@,
    {
        Dependency {
            git: self.git.clone(),
            tag: self.tag.clone(),
            rev: self.rev.clone(),
            branch: self.branch.clone(),
            path: self.path.clone(),
        }
    }
}

/// A named requirement on a package: a manifest root or a recorded child edge.
#[derive(Debug)]
pub struct LockDependency {
    pub name: String,
    pub source: Dependency,
}

/// The value of a requirement.
pub struct LockDependencyView {
    pub name: Seq<char>,
    pub source: DependencyView,
}

impl View for LockDependency {
    type V = LockDependencyView;

    open spec fn view(&self) -> LockDependencyView {
        LockDependencyView { name: self.name@, source: self.source@ }
    }
}

impl LockDependency {
    /// A copy of the requirement.
    pub fn duplicate(&self) -> (d: LockDependency)
        ensures
            d@ == self@,
    {
        LockDependency { name: self.name.clone(), source: self.source.duplicate() }
    }
}

/// The views of a sequence of requirements.
pub open spec fn dependency_views(ds: Seq<LockDependency>) -> Seq<LockDependencyView> {
    ds.map_values(|d: LockDependency| d@)
}

/// One pinned package: its name, its source, the commit and content hash it
/// is pinned to, and its child edges.
#[derive(Debug)]
pub struct LockEntry {
    pub name: String,
    pub source: Dependency,
    pub commit: String,
    pub hash: String,
    pub dependencies: Vec<LockDependency>,
}

/// The value of a pinned package.
pub struct LockEntryView {
    pub name: Seq<char>,
    pub source: DependencyView,
    pub commit: Seq<char>,
    pub hash: Seq<char>,
    pub dependencies: Seq<LockDependencyView>,
}

impl View for LockEntry {
    type V = LockEntryView;

    open spec fn view(&self) -> LockEntryView {
        LockEntryView {
            name: self.name@,
            source: self.source@,
            commit: self.commit@,
            hash: self.hash@,
            dependencies: dependency_views(self.dependencies@),
        }
    }
}

impl LockEntry {
    /// A copy of the entry.
    pub fn duplicate(&self) -> (e: LockEntry)
        ensures
            e@ == self@,
    {
        let mut deps: Vec<LockDependency> = Vec::new();
        let mut i: usize = 0;
        while i < self.dependencies.len()
            invariant
                i <= self.dependencies@.len(),
                dependency_views(deps@) == dependency_views(self.dependencies@).subrange(0, i as int),
            decreases self.dependencies.len() - i,
        {
            let d = self.dependencies[i].duplicate();
            let ghost before = deps@;
            deps.push(d);
            proof {
                assert(deps@ == before.push(d));
                assert(dependency_views(deps@) =~= dependency_views(before).push(d@));
                assert(dependency_views(self.dependencies@)[i as int] == self.dependencies@[i as int]@);
                assert(dependency_views(self.dependencies@).subrange(0, i + 1) =~= dependency_views(
                    self.dependencies@,
                ).subrange(0, i as int).push(dependency_views(self.dependencies@)[i as int]));
            }
            i = i + 1;
        }
        proof {
            assert(dependency_views(self.dependencies@).subrange(0, i as int) =~= dependency_views(
                self.dependencies@,
            ));
        }
        LockEntry {
            name: self.name.clone(),
            source: self.source.duplicate(),
            commit: self.commit.clone(),
            hash: self.hash.clone(),
            dependencies: deps,
        }
    }
}

/// The views of a sequence of entries.
pub open spec fn entry_views(es: Seq<LockEntry>) -> Seq<LockEntryView> {
    es.map_values(|e: LockEntry| e@)
}

/// How a source is spelled in messages: `path "p"`, or the repository with
/// its tag, revision or branch, the first of them that is set.
pub open spec fn source_text(d: DependencyView) -> Seq<char> {
    if d.path.len() > 0 {
        "path "@ + debug_quoted(d.path)
    } else if d.tag.len() > 0 {
        d.git + " tag "@ + debug_quoted(d.tag)
    } else if d.rev.len() > 0 {
        d.git + " rev "@ + debug_quoted(d.rev)
    } else {
        d.git + " branch "@ + debug_quoted(d.branch)
    }
}

/// Spells a source for a message.
pub fn format_dependency_source(d: &Dependency) -> (s: String)
    ensures
        s@ == source_text(d@),
{
    if d.is_local() {
        let mut s = owned("path ");
        let quoted = quote(d.path.as_str());
        s.append(quoted.as_str());
        return s;
    }
    let (word, value) = if d.tag.unicode_len() > 0 {
        (" tag ", &d.tag)
    } else if d.rev.unicode_len() > 0 {
        (" rev ", &d.rev)
    } else {
        (" branch ", &d.branch)
    };
    let mut s = d.git.clone();
    s.append(word);
    let quoted = quote(value.as_str());
    s.append(quoted.as_str());
    s
}

/// Whether no two entries share a name, and no entry records two edges of one name.
pub open spec fn lock_entries_distinct(es: Seq<LockEntryView>) -> bool {
    &&& forall|a: int, b: int| 0 <= a < b < es.len() ==> (#[trigger] es[a]).name != (#[trigger] es[b]).name
    &&& forall|i: int, a: int, b: int|
        0 <= i < es.len() && 0 <= a < b < es[i].dependencies.len() ==> (#[trigger] es[i].dependencies[a]).name
            != (#[trigger] es[i].dependencies[b]).name
}

/// Whether some entry is named `n`.
pub open spec fn has_entry(es: Seq<LockEntryView>, n: Seq<char>) -> bool {
    exists|i: int| 0 <= i < es.len() && (#[trigger] es[i]).name == n
}

/// The entry named `n`, where there is one.
pub open spec fn entry_named(es: Seq<LockEntryView>, n: Seq<char>) -> LockEntryView {
    es[choose|i: int| 0 <= i < es.len() && (#[trigger] es[i]).name == n]
}

/// Whether the requirement `d` is met: an entry of its name pins its source.
pub open spec fn requirement_met(es: Seq<LockEntryView>, d: LockDependencyView) -> bool {
    has_entry(es, d.name) && entry_named(es, d.name).source == d.source
}

/// Whether the entry named `u` records an edge to `v`.
pub open spec fn has_edge(es: Seq<LockEntryView>, u: Seq<char>, v: Seq<char>) -> bool {
    exists|j: int|
        0 <= j < entry_named(es, u).dependencies.len() && (#[trigger] entry_named(es, u).dependencies[j]).name == v
}

/// Whether some root is named `n`.
pub open spec fn is_root_name(roots: Seq<LockDependencyView>, n: Seq<char>) -> bool {
    exists|r: int| 0 <= r < roots.len() && (#[trigger] roots[r]).name == n
}

/// Whether `order` lists exactly the packages that the roots require, each
/// once and after every package it requires: every root and every edge of a
/// listed package is met by a pinned entry of the same source listed earlier,
/// and every listed package is a root or the target of an edge of a package
/// listed later. Such an order exists exactly when the required part of the
/// graph is complete, consistent and free of cycles.
pub open spec fn lock_order(
    roots: Seq<LockDependencyView>,
    es: Seq<LockEntryView>,
    order: Seq<Seq<char>>,
) -> bool {
    &&& order.no_duplicates()
    &&& forall|a: int| 0 <= a < order.len() ==> has_entry(es, #[trigger] order[a])
    &&& forall|r: int|
        0 <= r < roots.len() ==> requirement_met(es, #[trigger] roots[r]) && order.contains(roots[r].name)
    &&& forall|a: int, j: int|
        0 <= a < order.len() && 0 <= j < entry_named(es, order[a]).dependencies.len() ==> requirement_met(
            es,
            #[trigger] entry_named(es, order[a]).dependencies[j],
        ) && exists|b: int| 0 <= b < a && order[b] == entry_named(es, order[a]).dependencies[j].name
    &&& forall|a: int|
        0 <= a < order.len() ==> is_root_name(roots, #[trigger] order[a]) || exists|b: int|
            a < b < order.len() && has_edge(es, order[b], order[a])
}

/// Whether the lock entries, taken from the roots, form a complete and
/// consistent graph without cycles.
pub open spec fn lock_graph_closed(roots: Seq<LockDependencyView>, es: Seq<LockEntryView>) -> bool {
    &&& lock_entries_distinct(es)
    &&& exists|order: Seq<Seq<char>>| lock_order(roots, es, order)
}

/// The state of the walk: the finished packages `f`, in finishing order, and
/// the packages on the path being walked `s`, each with an entry, none twice;
/// the finished packages ordered as `lock_order` asks, each a root or the
/// target of an edge of a later finished package or of one on the path; and
/// the path running from a root along recorded edges.
pub open spec fn walk_state(
    roots: Seq<LockDependencyView>,
    es: Seq<LockEntryView>,
    f: Seq<Seq<char>>,
    s: Seq<Seq<char>>,
) -> bool {
    &&& (f + s).no_duplicates()
    &&& forall|k: int| 0 <= k < (f + s).len() ==> has_entry(es, #[trigger] (f + s)[k])
    &&& forall|a: int, j: int|
        0 <= a < f.len() && 0 <= j < entry_named(es, f[a]).dependencies.len() ==> requirement_met(
            es,
            #[trigger] entry_named(es, f[a]).dependencies[j],
        ) && exists|b: int| 0 <= b < a && f[b] == entry_named(es, f[a]).dependencies[j].name
    &&& forall|a: int|
        0 <= a < f.len() ==> is_root_name(roots, #[trigger] f[a]) || (exists|b: int|
            a < b < f.len() && has_edge(es, f[b], f[a])) || (exists|k: int|
            0 <= k < s.len() && has_edge(es, s[k], f[a]))
    &&& s.len() > 0 ==> is_root_name(roots, s[0])
    &&& forall|k: int| 0 < k < s.len() ==> has_edge(es, s[k - 1], #[trigger] s[k])
}

/// Whether `d` is required where the walk stands: by a root when the path is
/// empty, else by an edge of the last package on the path.
pub open spec fn required_here(
    roots: Seq<LockDependencyView>,
    es: Seq<LockEntryView>,
    s: Seq<Seq<char>>,
    d: LockDependencyView,
) -> bool {
    if s.len() == 0 {
        roots.contains(d)
    } else {
        entry_named(es, s.last()).dependencies.contains(d)
    }
}

/// A sequence of distinct names of entries is no longer than the entries.
proof fn lemma_names_bounded(x: Seq<Seq<char>>, es: Seq<LockEntryView>)
    requires
        x.no_duplicates(),
        forall|k: int| 0 <= k < x.len() ==> has_entry(es, #[trigger] x[k]),
    ensures
        x.len() <= es.len(),
{
    let names = es.map_values(|e: LockEntryView| e.name);
    assert forall|n: Seq<char>| x.to_set().contains(n) implies names.to_set().contains(n) by {
        let k = choose|k: int| 0 <= k < x.len() && x[k] == n;
        assert(has_entry(es, x[k]));
        let i = choose|i: int| 0 <= i < es.len() && (#[trigger] es[i]).name == x[k];
        assert(names[i] == n);
    }
    x.unique_seq_to_set();
    names.lemma_cardinality_of_set();
    vstd::seq_lib::seq_to_set_is_finite(names);
    vstd::set_lib::lemma_len_subset(x.to_set(), names.to_set());
}

/// The first entry named `name`.
fn find_entry(entries: &Vec<LockEntry>, name: &str) -> (r: Option<usize>)
    ensures
        r matches Some(i) ==> i < entries@.len() && entries@[i as int].name@ == name@,
        r is None ==> !has_entry(entry_views(entries@), name@),
{
    let mut i: usize = 0;
    while i < entries.len()
        invariant
            i <= entries@.len(),
            forall|k: int| 0 <= k < i ==> entries@[k].name@ != name@,
        decreases entries.len() - i,
    {
        if str_eq(entries[i].name.as_str(), name) {
            return Some(i);
        }
        i = i + 1;
    }
    proof {
        assert forall|k: int| 0 <= k < entries@.len() implies (#[trigger] entry_views(entries@)[k]).name != name@ by {
            assert(entry_views(entries@)[k] == entries@[k]@);
        }
    }
    None
}

/// The first position of `name` in `v`.
fn position_of(v: &Vec<String>, name: &str) -> (r: Option<usize>)
    ensures
        r matches Some(i) ==> i < v@.len() && v@[i as int]@ == name@,
        r is None ==> !name_views(v@).contains(name@),
{
    let mut i: usize = 0;
    while i < v.len()
        invariant
            i <= v@.len(),
            forall|k: int| 0 <= k < i ==> v@[k]@ != name@,
        decreases v.len() - i,
    {
        if str_eq(v[i].as_str(), name) {
            return Some(i);
        }
        i = i + 1;
    }
    proof {
        assert forall|k: int| 0 <= k < v@.len() implies name_views(v@)[k] != name@ by {
            assert(name_views(v@)[k] == v@[k]@);
        }
    }
    None
}

/// The texts of `parts` with `sep` between each two.
pub open spec fn joined_with(parts: Seq<Seq<char>>, sep: Seq<char>) -> Seq<char>
    decreases parts.len(),
{
    if parts.len() == 0 {
        Seq::empty()
    } else if parts.len() == 1 {
        parts[0]
    } else {
        joined_with(parts.drop_last(), sep) + sep + parts.last()
    }
}

/// Joins texts with a separator.
pub fn join_with(parts: &Vec<String>, sep: &str) -> (s: String)
    ensures
        s@ == joined_with(name_views(parts@), sep@),
{
    let mut out = String::new();
    let mut i: usize = 0;
    while i < parts.len()
        invariant
            i <= parts@.len(),
            out@ == joined_with(name_views(parts@).subrange(0, i as int), sep@),
        decreases parts.len() - i,
    {
        proof {
            let sub = name_views(parts@).subrange(0, i + 1);
            assert(sub.drop_last() =~= name_views(parts@).subrange(0, i as int));
            assert(sub.last() == parts@[i as int]@);
        }
        if i > 0 {
            out.append(sep);
        }
        out.append(parts[i].as_str());
        proof {
            let sub = name_views(parts@).subrange(0, i + 1);
            if i == 0 {
                assert(out@ =~= sub[0]);
            }
        }
        i = i + 1;
    }
    proof {
        assert(name_views(parts@).subrange(0, i as int) =~= name_views(parts@));
    }
    out
}

/// The message for a package that the graph requires and the lock lacks.
pub open spec fn missing_message(alias: Seq<char>) -> Seq<char> {
    "yar.lock: missing package "@ + debug_quoted(alias) + " required by the dependency graph"@
}

/// The message for an entry whose source differs from what the graph requires.
pub open spec fn mismatch_message(alias: Seq<char>, have: DependencyView, want: DependencyView) -> Seq<char> {
    "yar.lock: package "@ + debug_quoted(alias) + " has "@ + source_text(have)
        + ", but the dependency graph requires "@ + source_text(want)
}

/// The message for a cycle through the given packages.
pub open spec fn cycle_message(path: Seq<Seq<char>>) -> Seq<char> {
    "yar.lock: dependency cycle: "@ + joined_with(path, " -> "@)
}

/// Whether `m` is one of the messages of the walk: a missing package, a
/// source mismatch, or a cycle.
pub open spec fn walk_error_message(m: Seq<char>) -> bool {
    ||| exists|n: Seq<char>| m == missing_message(n)
    ||| exists|n: Seq<char>, have: DependencyView, want: DependencyView| m == mismatch_message(n, have, want)
    ||| exists|path: Seq<Seq<char>>| m == cycle_message(path)
}

/// The position of `x` in `order`.
pub open spec fn position_in(order: Seq<Seq<char>>, x: Seq<char>) -> int {
    choose|i: int| 0 <= i < order.len() && order[i] == x
}

/// Along an edge of a listed package the order steps back: the target is
/// listed, before its source.
proof fn lemma_edge_steps_back(
    rs: Seq<LockDependencyView>,
    es: Seq<LockEntryView>,
    order: Seq<Seq<char>>,
    u: Seq<char>,
    v: Seq<char>,
)
    requires
        lock_order(rs, es, order),
        order.contains(u),
        has_edge(es, u, v),
    ensures
        order.contains(v),
        position_in(order, v) < position_in(order, u),
        0 <= position_in(order, v),
{
    let a = position_in(order, u);
    let j = choose|j: int|
        0 <= j < entry_named(es, u).dependencies.len() && (#[trigger] entry_named(es, u).dependencies[j]).name == v;
    assert(order[a] == u);
    assert(requirement_met(es, entry_named(es, order[a]).dependencies[j]));
    let b = choose|b: int| 0 <= b < a && order[b] == entry_named(es, order[a]).dependencies[j].name;
    assert(order[b] == v);
    let c = position_in(order, v);
    assert(order[c] == v);
    if c != b {
        if c < b {
            assert(order[c] != order[b]);
        } else {
            assert(order[b] != order[c]);
        }
    }
}

/// Every package on the walked path is listed in any order of the graph.
proof fn lemma_path_listed(
    rs: Seq<LockDependencyView>,
    es: Seq<LockEntryView>,
    order: Seq<Seq<char>>,
    s: Seq<Seq<char>>,
    k: int,
)
    requires
        lock_order(rs, es, order),
        s.len() > 0 ==> is_root_name(rs, s[0]),
        forall|t: int| 0 < t < s.len() ==> has_edge(es, s[t - 1], #[trigger] s[t]),
        0 <= k < s.len(),
    ensures
        order.contains(s[k]),
    decreases k,
{
    if k == 0 {
        let r = choose|r: int| 0 <= r < rs.len() && (#[trigger] rs[r]).name == s[0];
        assert(order.contains(rs[r].name));
    } else {
        lemma_path_listed(rs, es, order, s, k - 1);
        lemma_edge_steps_back(rs, es, order, s[k - 1], s[k]);
    }
}

/// A requirement that the walk meets is met in any order of the graph.
proof fn lemma_required_met(
    rs: Seq<LockDependencyView>,
    es: Seq<LockEntryView>,
    order: Seq<Seq<char>>,
    s: Seq<Seq<char>>,
    d: LockDependencyView,
)
    requires
        lock_order(rs, es, order),
        s.len() > 0 ==> is_root_name(rs, s[0]),
        forall|t: int| 0 < t < s.len() ==> has_edge(es, s[t - 1], #[trigger] s[t]),
        required_here(rs, es, s, d),
    ensures
        requirement_met(es, d),
        order.contains(d.name),
{
    if s.len() == 0 {
        let r = choose|r: int| 0 <= r < rs.len() && rs[r] == d;
        assert(requirement_met(es, rs[r]));
    } else {
        lemma_path_listed(rs, es, order, s, s.len() - 1);
        let a = position_in(order, s.last());
        assert(order[a] == s.last());
        let deps = entry_named(es, s.last()).dependencies;
        let j = choose|j: int| 0 <= j < deps.len() && deps[j] == d;
        assert(requirement_met(es, entry_named(es, order[a]).dependencies[j]));
        let b = choose|b: int| 0 <= b < a && order[b] == entry_named(es, order[a]).dependencies[j].name;
        assert(order[b] == d.name);
    }
}

/// Positions fall along the walked path from `start`.
proof fn lemma_path_descends(
    rs: Seq<LockDependencyView>,
    es: Seq<LockEntryView>,
    order: Seq<Seq<char>>,
    s: Seq<Seq<char>>,
    start: int,
    k: int,
)
    requires
        lock_order(rs, es, order),
        s.len() > 0 ==> is_root_name(rs, s[0]),
        forall|t: int| 0 < t < s.len() ==> has_edge(es, s[t - 1], #[trigger] s[t]),
        0 <= start <= k < s.len(),
    ensures
        position_in(order, s[k]) <= position_in(order, s[start]) - (k - start),
    decreases k - start,
{
    if k > start {
        lemma_path_descends(rs, es, order, s, start, k - 1);
        lemma_path_listed(rs, es, order, s, k - 1);
        lemma_edge_steps_back(rs, es, order, s[k - 1], s[k]);
    }
}

/// A requirement that leads back onto the walked path rules out every order.
proof fn lemma_cycle_unordered(
    rs: Seq<LockDependencyView>,
    es: Seq<LockEntryView>,
    order: Seq<Seq<char>>,
    s: Seq<Seq<char>>,
    start: int,
    d: LockDependencyView,
)
    requires
        s.len() > 0 ==> is_root_name(rs, s[0]),
        forall|t: int| 0 < t < s.len() ==> has_edge(es, s[t - 1], #[trigger] s[t]),
        required_here(rs, es, s, d),
        0 <= start < s.len(),
        s[start] == d.name,
    ensures
        !lock_order(rs, es, order),
{
    if lock_order(rs, es, order) {
        let last = s.len() - 1;
        lemma_path_descends(rs, es, order, s, start, last);
        lemma_path_listed(rs, es, order, s, last);
        let deps = entry_named(es, s.last()).dependencies;
        let j = choose|j: int| 0 <= j < deps.len() && deps[j] == d;
        assert(has_edge(es, s[last], d.name)) by {
            assert(entry_named(es, s[last]).dependencies[j].name == d.name);
        }
        lemma_edge_steps_back(rs, es, order, s[last], d.name);
    }
}

/// Finishing the last package on the path keeps the walk's state.
proof fn lemma_finish_package(
    roots: Seq<LockDependencyView>,
    es: Seq<LockEntryView>,
    f1: Seq<Seq<char>>,
    s0: Seq<Seq<char>>,
    alias: Seq<char>,
)
    requires
        walk_state(roots, es, f1, s0.push(alias)),
        forall|jj: int|
            0 <= jj < entry_named(es, alias).dependencies.len() ==> requirement_met(
                es,
                #[trigger] entry_named(es, alias).dependencies[jj],
            ) && f1.contains(entry_named(es, alias).dependencies[jj].name),
    ensures
        walk_state(roots, es, f1.push(alias), s0),
{
    let s1 = s0.push(alias);
    let f2 = f1.push(alias);
    // distinctness and entries: the same names as `f1 + s1`, reordered
    let m1 = f1 + s1;
    assert(m1.no_duplicates());
    assert(m1.len() == f1.len() + s0.len() + 1);
    assert(m1[m1.len() - 1] == alias);
    assert forall|x: int, y: int| 0 <= x < y < (f2 + s0).len() implies (f2 + s0)[x] != (f2 + s0)[y] by {
        let mx = if x < f1.len() { x } else if x == f1.len() { m1.len() - 1 } else { x - 1 };
        let my = if y < f1.len() { y } else if y == f1.len() { m1.len() - 1 } else { y - 1 };
        assert((f2 + s0)[x] == m1[mx]);
        assert((f2 + s0)[y] == m1[my]);
        assert(mx != my);
    }
    assert((f2 + s0).no_duplicates());
    assert forall|k: int| 0 <= k < (f2 + s0).len() implies has_entry(es, #[trigger] (f2 + s0)[k]) by {
        let m1 = f1 + s1;
        if k < f1.len() {
            assert((f2 + s0)[k] == m1[k]);
        } else if k == f1.len() {
            assert((f2 + s0)[k] == m1[m1.len() - 1]);
        } else {
            assert((f2 + s0)[k] == m1[k - 1]);
        }
    }
    assert forall|a: int, jj: int|
        0 <= a < f2.len() && 0 <= jj < entry_named(es, f2[a]).dependencies.len() implies requirement_met(
        es,
        #[trigger] entry_named(es, f2[a]).dependencies[jj],
    ) && exists|b: int| 0 <= b < a && f2[b] == entry_named(es, f2[a]).dependencies[jj].name by {
        if a < f1.len() {
            assert(f2[a] == f1[a]);
            let b = choose|b: int| 0 <= b < a && f1[b] == entry_named(es, f1[a]).dependencies[jj].name;
            assert(f2[b] == f1[b]);
        } else {
            assert(f2[a] == alias);
            let t = choose|t: int| 0 <= t < f1.len() && f1[t] == entry_named(es, alias).dependencies[jj].name;
            assert(f2[t] == f1[t]);
        }
    }
    assert forall|a: int|
        0 <= a < f2.len() implies is_root_name(roots, #[trigger] f2[a]) || (exists|b: int|
        a < b < f2.len() && has_edge(es, f2[b], f2[a])) || (exists|k: int|
        0 <= k < s0.len() && has_edge(es, s0[k], f2[a])) by {
        if a < f1.len() {
            assert(f2[a] == f1[a]);
            if !is_root_name(roots, f1[a]) {
                if exists|b: int| a < b < f1.len() && has_edge(es, f1[b], f1[a]) {
                    let b = choose|b: int| a < b < f1.len() && has_edge(es, f1[b], f1[a]);
                    assert(f2[b] == f1[b]);
                } else {
                    let k = choose|k: int| 0 <= k < s1.len() && has_edge(es, s1[k], f1[a]);
                    if k < s0.len() {
                        assert(s1[k] == s0[k]);
                    } else {
                        assert(s1[k] == alias);
                        assert(f2[f1.len() as int] == alias);
                    }
                }
            }
        } else {
            assert(f2[a] == alias);
            if s0.len() == 0 {
                assert(s1[0] == alias);
            } else {
                let k = s0.len() as int;
                assert(has_edge(es, s1[k - 1], s1[k]));
                assert(s1[k - 1] == s0[k - 1]);
            }
        }
    }
    assert forall|k: int| 0 < k < s0.len() implies has_edge(es, s0[k - 1], #[trigger] s0[k]) by {
        assert(has_edge(es, s1[k - 1], s1[k]));
        assert(s1[k - 1] == s0[k - 1]);
        assert(s1[k] == s0[k]);
    }
    if s0.len() > 0 {
        assert(s1[0] == s0[0]);
    }
    
}

/// Walks the graph from the requirement `alias` with source `expected`:
/// checks that an entry pins it, reports a cycle when the package is already
/// on the path, and otherwise walks its edges in order and finishes it.
#[verifier::spinoff_prover]
#[verifier::rlimit(50)]
fn visit(
    alias: &str,
    expected: &Dependency,
    entries: &Vec<LockEntry>,
    roots: Ghost<Seq<LockDependencyView>>,
    finished: &mut Vec<String>,
    stack: &mut Vec<String>,
) -> (r: Result<(), String>)
    requires
        lock_entries_distinct(entry_views(entries@)),
        walk_state(roots@, entry_views(entries@), name_views(old(finished)@), name_views(old(stack)@)),
        required_here(
            roots@,
            entry_views(entries@),
            name_views(old(stack)@),
            LockDependencyView { name: alias@, source: expected@ },
        ),
    ensures
        r is Ok ==> {
            &&& name_views(final(stack)@) == name_views(old(stack)@)
            &&& name_views(old(finished)@).is_prefix_of(name_views(final(finished)@))
            &&& name_views(final(finished)@).contains(alias@)
            &&& requirement_met(entry_views(entries@), LockDependencyView { name: alias@, source: expected@ })
            &&& walk_state(roots@, entry_views(entries@), name_views(final(finished)@), name_views(final(stack)@))
        },
        r is Err ==> forall|order: Seq<Seq<char>>| !lock_order(roots@, entry_views(entries@), order),
        r matches Err(m) ==> walk_error_message(m@),
    decreases entries@.len() - old(finished)@.len() - old(stack)@.len(),
{
    let ghost es = entry_views(entries@);
    let ghost f0 = name_views(finished@);
    let ghost s0 = name_views(stack@);
    let idx = match find_entry(entries, alias) {
        Some(i) => i,
        None => {
            let mut m = owned("yar.lock: missing package ");
            let quoted = quote(alias);
            m.append(quoted.as_str());
            m.append(" required by the dependency graph");
            proof {
                assert(m@ =~= missing_message(alias@));
                let d = LockDependencyView { name: alias@, source: expected@ };
                assert forall|order: Seq<Seq<char>>| !lock_order(roots@, es, order) by {
                    if lock_order(roots@, es, order) {
                        lemma_required_met(roots@, es, order, s0, d);
                    }
                }
            }
            return Err(m);
        },
    };
    let entry = &entries[idx];
    proof {
        assert(es[idx as int] == entry@);
        assert(has_entry(es, alias@));
        assert(entry_named(es, alias@) == entry@);
    }
    if !entry.source.same_source(expected) {
        let mut m = owned("yar.lock: package ");
        let quoted = quote(alias);
        m.append(quoted.as_str());
        m.append(" has ");
        let have = format_dependency_source(&entry.source);
        m.append(have.as_str());
        m.append(", but the dependency graph requires ");
        let want = format_dependency_source(expected);
        m.append(want.as_str());
        proof {
            assert(m@ =~= mismatch_message(alias@, entry.source@, expected@));
            let d = LockDependencyView { name: alias@, source: expected@ };
            assert forall|order: Seq<Seq<char>>| !lock_order(roots@, es, order) by {
                if lock_order(roots@, es, order) {
                    lemma_required_met(roots@, es, order, s0, d);
                }
            }
        }
        return Err(m);
    }
    match position_of(stack, alias) {
        Some(start) => {
            let mut path: Vec<String> = Vec::new();
            let mut k: usize = start;
            while k < stack.len()
                invariant
                    start <= k <= stack@.len(),
                decreases stack.len() - k,
            {
                path.push(stack[k].clone());
                k = k + 1;
            }
            path.push(owned(alias));
            let mut m = owned("yar.lock: dependency cycle: ");
            let text = join_with(&path, " -> ");
            m.append(text.as_str());
            proof {
                assert(m@ =~= cycle_message(name_views(path@)));
                let d = LockDependencyView { name: alias@, source: expected@ };
                assert(s0[start as int] == alias@);
                assert forall|order: Seq<Seq<char>>| !lock_order(roots@, es, order) by {
                    lemma_cycle_unordered(roots@, es, order, s0, start as int, d);
                }
            }
            return Err(m);
        },
        None => {},
    }
    match position_of(finished, alias) {
        Some(at) => {
            proof {
                assert(f0[at as int] == alias@);
                assert(name_views(finished@).is_prefix_of(name_views(finished@)));
            }
            return Ok(());
        },
        None => {},
    }
    proof {
        assert(!(f0 + s0).contains(alias@)) by {
            if (f0 + s0).contains(alias@) {
                let k = choose|k: int| 0 <= k < (f0 + s0).len() && (f0 + s0)[k] == alias@;
                if k < f0.len() {
                    assert(f0[k] == alias@);
                } else {
                    assert(s0[k - f0.len()] == alias@);
                }
            }
        }
    }
    stack.push(owned(alias));
    let ghost s1 = name_views(stack@);
    proof {
        assert(s1 =~= s0.push(alias@));
        assert(f0 + s1 =~= (f0 + s0).push(alias@));
        assert(walk_state(roots@, es, f0, s1)) by {
            assert forall|x: int, y: int| 0 <= x < y < (f0 + s1).len() implies (f0 + s1)[x] != (f0 + s1)[y] by {
                if y < (f0 + s0).len() {
                    assert((f0 + s1)[x] == (f0 + s0)[x]);
                    assert((f0 + s1)[y] == (f0 + s0)[y]);
                } else {
                    assert((f0 + s1)[x] == (f0 + s0)[x]);
                    assert((f0 + s1)[y] == alias@);
                }
            }
            assert forall|k: int| 0 <= k < (f0 + s1).len() implies has_entry(es, #[trigger] (f0 + s1)[k]) by {
                if k < (f0 + s0).len() {
                    assert((f0 + s1)[k] == (f0 + s0)[k]);
                }
            }
            assert forall|a: int|
                0 <= a < f0.len() implies is_root_name(roots@, #[trigger] f0[a]) || (exists|b: int|
                a < b < f0.len() && has_edge(es, f0[b], f0[a])) || (exists|k: int|
                0 <= k < s1.len() && has_edge(es, s1[k], f0[a])) by {
                if !is_root_name(roots@, f0[a]) && !(exists|b: int| a < b < f0.len() && has_edge(es, f0[b], f0[a])) {
                    let k = choose|k: int| 0 <= k < s0.len() && has_edge(es, s0[k], f0[a]);
                    assert(s1[k] == s0[k]);
                }
            }
            if s0.len() == 0 {
                let r = choose|r: int| 0 <= r < roots@.len() && roots@[r] == LockDependencyView { name: alias@, source: expected@ };
                assert(roots@[r].name == s1[0]);
            } else {
                assert(s1[0] == s0[0]);
            }
            assert forall|k: int| 0 < k < s1.len() implies has_edge(es, s1[k - 1], #[trigger] s1[k]) by {
                if k < s0.len() {
                    assert(s1[k - 1] == s0[k - 1]);
                    assert(s1[k] == s0[k]);
                } else {
                    let deps = entry_named(es, s0.last()).dependencies;
                    let j = choose|j: int| 0 <= j < deps.len() && deps[j] == LockDependencyView { name: alias@, source: expected@ };
                    assert(s1[k - 1] == s0.last());
                    assert(entry_named(es, s0.last()).dependencies[j].name == s1[k]);
                }
            }
        }
    }
    proof {
        lemma_names_bounded(f0 + s1, es);
        assert(f0.is_prefix_of(f0));
    }
    let mut j: usize = 0;
    while j < entry.dependencies.len()
        invariant
            lock_entries_distinct(es),
            es == entry_views(entries@),
            entry_named(es, alias@) == entry@,
            j <= entry.dependencies@.len(),
            name_views(stack@) == s1,
            s1 == s0.push(alias@),
            f0 == name_views(old(finished)@),
            s0 == name_views(old(stack)@),
            f0.is_prefix_of(name_views(finished@)),
            walk_state(roots@, es, name_views(finished@), s1),
            finished@.len() + s1.len() <= entries@.len(),
            forall|jj: int|
                0 <= jj < j ==> requirement_met(es, #[trigger] entry@.dependencies[jj]) && name_views(finished@).contains(
                    entry@.dependencies[jj].name,
                ),
        decreases entry.dependencies.len() - j,
    {
        let dep = &entry.dependencies[j];
        let ghost fj = name_views(finished@);
        proof {
            assert(entry@.dependencies[j as int] == dep@);
            assert(s1.last() == alias@);
            assert(entry_named(es, s1.last()).dependencies.contains(dep@));
            lemma_names_bounded(fj + s1, es);
            assert(fj.len() == finished@.len());
            assert(s1.len() == stack@.len());
            assert(f0.len() <= fj.len());
            assert(f0.len() == old(finished)@.len());
            assert(s0.len() == old(stack)@.len());
        }
        let result = visit(dep.name.as_str(), &dep.source, entries, roots, finished, stack);
        match result {
            Ok(()) => {},
            Err(m) => {
                return Err(m);
            },
        }
        proof {
            let fk = name_views(finished@);
            assert forall|jj: int| 0 <= jj < j + 1 implies requirement_met(es, #[trigger] entry@.dependencies[jj])
                && fk.contains(entry@.dependencies[jj].name) by {
                if jj < j {
                    let t = choose|t: int| 0 <= t < fj.len() && fj[t] == entry@.dependencies[jj].name;
                    assert(fk[t] == fj[t]);
                }
            }
            lemma_names_bounded(fk + s1, es);
        }
        j = j + 1;
    }
    let ghost f1 = name_views(finished@);
    let ghost stack_before_pop = stack@;
    stack.pop();
    proof {
        assert(stack@ =~= stack_before_pop.drop_last());
        assert(name_views(stack@) =~= name_views(stack_before_pop).drop_last());
        assert(s1.drop_last() =~= s0);
    }
    finished.push(owned(alias));
    let ghost f2 = name_views(finished@);
    proof {
        assert(name_views(stack@) =~= s0);
        assert(f2 =~= f1.push(alias@));
        assert(f0.is_prefix_of(f2));
        lemma_finish_package(roots@, es, f1, s0, alias@);
        assert(f2.contains(alias@)) by {
            assert(f2[f1.len() as int] == alias@);
        }
    }
    Ok(())
}

/// Checks that no two entries share a name and that no entry records two
/// edges of one name.
pub fn validate_lock_entries(entries: &Vec<LockEntry>) -> (r: Result<(), String>)
    ensures
        r is Ok <==> lock_entries_distinct(entry_views(entries@)),
{
    let ghost es = entry_views(entries@);
    let mut i: usize = 0;
    while i < entries.len()
        invariant
            i <= entries@.len(),
            es == entry_views(entries@),
            forall|a: int, b: int| 0 <= a < b < i ==> (#[trigger] es[a]).name != (#[trigger] es[b]).name,
            forall|t: int, a: int, b: int|
                0 <= t < i && 0 <= a < b < es[t].dependencies.len() ==> (#[trigger] es[t].dependencies[a]).name
                    != (#[trigger] es[t].dependencies[b]).name,
        decreases entries.len() - i,
    {
        let entry = &entries[i];
        proof {
            assert(es[i as int] == entry@);
        }
        let mut k: usize = 0;
        while k < i
            invariant
                k <= i < entries@.len(),
                es == entry_views(entries@),
                es[i as int] == entry@,
                forall|a: int| 0 <= a < k ==> es[a].name != entry@.name,
            decreases i - k,
        {
            if str_eq(entries[k].name.as_str(), entry.name.as_str()) {
                proof {
                    assert(es[k as int] == entries@[k as int]@);
                    assert(es[k as int].name == es[i as int].name);
                }
                let mut m = owned("yar.lock: duplicate package entry ");
                let quoted = quote(entry.name.as_str());
                m.append(quoted.as_str());
                return Err(m);
            }
            proof {
                assert(es[k as int] == entries@[k as int]@);
            }
            k = k + 1;
        }
        let mut a: usize = 0;
        while a < entry.dependencies.len()
            invariant
                a <= entry.dependencies@.len(),
                i < entries@.len(),
                es == entry_views(entries@),
                es[i as int] == entry@,
                forall|x: int, y: int| 0 <= x < y < a ==> (#[trigger] entry@.dependencies[x]).name
                    != (#[trigger] entry@.dependencies[y]).name,
            decreases entry.dependencies.len() - a,
        {
            let mut b: usize = 0;
            while b < a
                invariant
                    b <= a < entry.dependencies@.len(),
                    i < entries@.len(),
                    es == entry_views(entries@),
                    es[i as int] == entry@,
                    forall|x: int| 0 <= x < b ==> entry@.dependencies[x].name != entry@.dependencies[a as int].name,
                decreases a - b,
            {
                proof {
                    assert(entry@.dependencies[b as int] == entry.dependencies@[b as int]@);
                    assert(entry@.dependencies[a as int] == entry.dependencies@[a as int]@);
                }
                if str_eq(entry.dependencies[b].name.as_str(), entry.dependencies[a].name.as_str()) {
                    proof {
                        assert(es[i as int].dependencies[b as int].name == es[i as int].dependencies[a as int].name);
                    }
                    let mut m = owned("yar.lock: package ");
                    let quoted = quote(entry.name.as_str());
                    m.append(quoted.as_str());
                    m.append(" records dependency ");
                    let dep = quote(entry.dependencies[a].name.as_str());
                    m.append(dep.as_str());
                    m.append(" twice");
                    return Err(m);
                }
                b = b + 1;
            }
            a = a + 1;
        }
        i = i + 1;
    }
    Ok(())
}

proof fn lemma_entry_named_unique(es: Seq<LockEntryView>, i: int)
    requires
        lock_entries_distinct(es),
        0 <= i < es.len(),
    ensures
        entry_named(es, es[i].name) == es[i],
{
    assert(has_entry(es, es[i].name));
    let c = choose|c: int| 0 <= c < es.len() && (#[trigger] es[c]).name == es[i].name;
    if c < i {
        assert(es[c].name != es[i].name);
    } else if c > i {
        assert(es[i].name != es[c].name);
    }
}

proof fn lemma_listed_has_entry(
    rs: Seq<LockDependencyView>,
    es: Seq<LockEntryView>,
    order: Seq<Seq<char>>,
    n: Seq<char>,
)
    requires
        lock_order(rs, es, order),
        order.contains(n),
    ensures
        has_entry(es, n),
        entry_named(es, n).name == n,
{
    let a = choose|a: int| 0 <= a < order.len() && order[a] == n;
    assert(has_entry(es, order[a]));
}

/// Whether `out` holds, in ascending name order, the entry of each name of
/// `order` and nothing else: as many entries as names, each the entry of a
/// listed name, no name twice.
pub open spec fn lists_entries(es: Seq<LockEntryView>, order: Seq<Seq<char>>, out: Seq<LockEntryView>) -> bool {
    &&& out.len() == order.len()
    &&& forall|a: int, b: int|
        0 <= a < b < out.len() ==> crate::text::chars_le((#[trigger] out[a]).name, (#[trigger] out[b]).name)
    &&& forall|k: int| 0 <= k < out.len() ==> #[trigger] out[k] == entry_named(es, out[k].name) && order.contains(out[k].name)
    &&& forall|a: int, b: int| 0 <= a < b < out.len() ==> (#[trigger] out[a]).name != (#[trigger] out[b]).name
}

/// The entries that the roots require, in ascending name order, after checking
/// that every root and every edge met on the way is pinned with the same
/// source and that no cycle is met.
pub fn reachable_lock_entries(roots: &Vec<LockDependency>, entries: &Vec<LockEntry>) -> (r: Result<
    Vec<LockEntry>,
    String,
>)
    ensures
        r is Ok <==> lock_graph_closed(dependency_views(roots@), entry_views(entries@)),
        lock_entries_distinct(entry_views(entries@)) ==> (r matches Err(m) ==> walk_error_message(m@)),
        r matches Ok(v) ==> exists|
            order: Seq<Seq<char>>,
        |
            lock_order(dependency_views(roots@), entry_views(entries@), order) && lists_entries(
                entry_views(entries@),
                order,
                entry_views(v@),
            ),
{
    match validate_lock_entries(entries) {
        Ok(()) => {},
        Err(m) => {
            return Err(m);
        },
    }
    let ghost es = entry_views(entries@);
    let ghost rs = dependency_views(roots@);
    let mut finished: Vec<String> = Vec::new();
    let mut stack: Vec<String> = Vec::new();
    proof {
        assert(name_views(finished@) + name_views(stack@) =~= Seq::<Seq<char>>::empty());
    }
    let mut i: usize = 0;
    while i < roots.len()
        invariant
            i <= roots@.len(),
            es == entry_views(entries@),
            rs == dependency_views(roots@),
            lock_entries_distinct(es),
            name_views(stack@) == Seq::<Seq<char>>::empty(),
            walk_state(rs, es, name_views(finished@), name_views(stack@)),
            forall|t: int|
                0 <= t < i ==> requirement_met(es, #[trigger] rs[t]) && name_views(finished@).contains(rs[t].name),
        decreases roots.len() - i,
    {
        let root = &roots[i];
        let ghost fi = name_views(finished@);
        proof {
            assert(rs[i as int] == root@);
            assert(rs.contains(LockDependencyView { name: root.name@, source: root.source@ }));
        }
        match visit(root.name.as_str(), &root.source, entries, Ghost(rs), &mut finished, &mut stack) {
            Ok(()) => {},
            Err(m) => {
                return Err(m);
            },
        }
        proof {
            let fk = name_views(finished@);
            assert forall|t: int| 0 <= t < i + 1 implies requirement_met(es, #[trigger] rs[t]) && fk.contains(rs[t].name) by {
                if t < i {
                    let x = choose|x: int| 0 <= x < fi.len() && fi[x] == rs[t].name;
                    assert(fk[x] == fi[x]);
                }
            }
        }
        i = i + 1;
    }
    let ghost order = name_views(finished@);
    proof {
        let st = name_views(stack@);
        assert(order + st =~= order);
        assert(order.no_duplicates());
        assert forall|a: int| 0 <= a < order.len() implies has_entry(es, #[trigger] order[a]) by {
            assert((order + st)[a] == order[a]);
        }
        assert forall|a: int|
            0 <= a < order.len() implies is_root_name(rs, #[trigger] order[a]) || exists|b: int|
                a < b < order.len() && has_edge(es, order[b], order[a]) by {
            assert(!(exists|k: int| 0 <= k < st.len() && has_edge(es, st[k], order[a])));
        }
        assert forall|r: int| 0 <= r < rs.len() implies requirement_met(es, #[trigger] rs[r]) && order.contains(
            rs[r].name,
        ) by {}
        assert forall|a: int, j: int|
            0 <= a < order.len() && 0 <= j < entry_named(es, order[a]).dependencies.len() implies requirement_met(
            es,
            #[trigger] entry_named(es, order[a]).dependencies[j],
        ) && exists|b: int| 0 <= b < a && order[b] == entry_named(es, order[a]).dependencies[j].name by {
            assert(walk_state(rs, es, order, st));
        }
        assert(lock_order(rs, es, order));
    }
    let mut names: Vec<String> = Vec::new();
    let mut k: usize = 0;
    while k < finished.len()
        invariant
            k <= finished@.len(),
            name_views(names@) == name_views(finished@).subrange(0, k as int),
        decreases finished.len() - k,
    {
        let ghost before = names@;
        names.push(finished[k].clone());
        proof {
            assert(name_views(names@) =~= name_views(before).push(finished@[k as int]@));
            assert(name_views(finished@).subrange(0, k + 1) =~= name_views(finished@).subrange(0, k as int).push(
                finished@[k as int]@,
            ));
        }
        k = k + 1;
    }
    proof {
        assert(name_views(finished@).subrange(0, k as int) =~= name_views(finished@));
    }
    let ghost unsorted = names@;
    sort_names(&mut names);
    let ghost sorted = names@;
    proof {
        assert(sorted.len() == unsorted.len());
        assert(name_views(unsorted).len() == order.len());
        assert(name_views(unsorted) == order);
        assert(name_views(sorted).no_duplicates());
    }
    let mut out: Vec<LockEntry> = Vec::new();
    let mut t: usize = 0;
    while t < names.len()
        invariant
            t <= names@.len(),
            names@ == sorted,
            sorted.len() == order.len(),
            name_views(sorted).no_duplicates(),
            names_sorted(sorted),
            es == entry_views(entries@),
            lock_entries_distinct(es),
            lock_order(rs, es, order),
            forall|n: Seq<char>| name_views(sorted).contains(n) <==> order.contains(n),
            out@.len() == t,
            forall|x: int| 0 <= x < t ==> #[trigger] entry_views(out@)[x] == entry_named(es, sorted[x]@),
        decreases names.len() - t,
    {
        proof {
            assert(name_views(sorted)[t as int] == sorted[t as int]@);
            assert(name_views(sorted).contains(sorted[t as int]@));
            lemma_listed_has_entry(rs, es, order, sorted[t as int]@);
        }
        let found = find_entry(entries, names[t].as_str());
        let idx = match found {
            Some(i) => i,
            None => {
                return Err(owned("yar.lock: internal walk error"));
            },
        };
        let e = entries[idx].duplicate();
        let ghost before = out@;
        out.push(e);
        proof {
            assert(es[idx as int] == entries@[idx as int]@);
            assert(has_entry(es, sorted[t as int]@));
            lemma_entry_named_unique(es, idx as int);
            assert(es[idx as int] == entry_named(es, sorted[t as int]@));
            assert forall|x: int| 0 <= x < t + 1 implies #[trigger] entry_views(out@)[x] == entry_named(es, sorted[x]@) by {
                if x < t {
                    assert(entry_views(out@)[x] == out@[x]@);
                    assert(out@[x] == before[x]);
                    assert(entry_views(before)[x] == before[x]@);
                } else {
                    assert(entry_views(out@)[x] == out@[x]@);
                }
            }
        }
        t = t + 1;
    }
    proof {
        let ov = entry_views(out@);
        assert forall|x: int| 0 <= x < ov.len() implies ov[x].name == sorted[x]@ by {
            let n = sorted[x]@;
            assert(name_views(sorted)[x] == n);
            assert(name_views(sorted).contains(n));
            lemma_listed_has_entry(rs, es, order, n);
        }
        assert(ov.len() == order.len());
        assert(lists_entries(es, order, ov)) by {
            assert forall|a: int, b: int| 0 <= a < b < ov.len() implies crate::text::chars_le(
                (#[trigger] ov[a]).name,
                (#[trigger] ov[b]).name,
            ) by {
                assert(names_sorted(sorted));
                assert(crate::text::chars_le(sorted[a]@, sorted[b]@));
            }
            assert forall|x: int| 0 <= x < ov.len() implies #[trigger] ov[x] == entry_named(es, ov[x].name)
                && order.contains(ov[x].name) by {
                assert(name_views(sorted)[x] == sorted[x]@);
                assert(name_views(sorted).contains(sorted[x]@));
            }
            assert forall|a: int, b: int| 0 <= a < b < ov.len() implies (#[trigger] ov[a]).name != (#[trigger] ov[b]).name by {
                assert(name_views(sorted)[a] == sorted[a]@);
                assert(name_views(sorted)[b] == sorted[b]@);
            }
        }
    }
    Ok(out)
}

/// A sequence of distinct values each found in `y` is no longer than `y`.
proof fn lemma_distinct_within<A>(x: Seq<A>, y: Seq<A>)
    requires
        x.no_duplicates(),
        forall|k: int| 0 <= k < x.len() ==> y.contains(#[trigger] x[k]),
    ensures
        x.len() <= y.len(),
{
    assert forall|n: A| x.to_set().contains(n) implies y.to_set().contains(n) by {
        let k = choose|k: int| 0 <= k < x.len() && x[k] == n;
        assert(y.contains(x[k]));
    }
    x.unique_seq_to_set();
    y.lemma_cardinality_of_set();
    vstd::seq_lib::seq_to_set_is_finite(y);
    vstd::set_lib::lemma_len_subset(x.to_set(), y.to_set());
}

/// Every package of one order of the graph is in every other.
proof fn lemma_orders_agree(
    rs: Seq<LockDependencyView>,
    es: Seq<LockEntryView>,
    order: Seq<Seq<char>>,
    other: Seq<Seq<char>>,
    a: int,
)
    requires
        lock_order(rs, es, order),
        lock_order(rs, es, other),
        0 <= a < order.len(),
    ensures
        other.contains(order[a]),
    decreases order.len() - a,
{
    if !is_root_name(rs, order[a]) {
        let b = choose|b: int| a < b < order.len() && has_edge(es, order[b], order[a]);
        lemma_orders_agree(rs, es, order, other, b);
        lemma_edge_steps_back(rs, es, other, order[b], order[a]);
    } else {
        let r = choose|r: int| 0 <= r < rs.len() && (#[trigger] rs[r]).name == order[a];
        assert(other.contains(rs[r].name));
    }
}

/// The roots that the manifests give the lock graph: the git dependencies of
/// the root manifest and of its live local path dependencies, and the names
/// of those local path dependencies.
#[derive(Debug)]
pub struct EffectiveRoots {
    pub git: Vec<LockDependency>,
    pub local: Vec<String>,
}

/// Whether the roots need a lock file: some git dependency is declared.
pub fn requires_lock(roots: &EffectiveRoots) -> (b: bool)
    ensures
        b == (roots.git@.len() > 0),
{
    roots.git.len() > 0
}

/// Whether no entry is named like a local path dependency.
pub open spec fn no_local_clash(local: Seq<Seq<char>>, es: Seq<LockEntryView>) -> bool {
    forall|i: int| 0 <= i < es.len() ==> !local.contains(#[trigger] es[i].name)
}

/// Reports the first entry named like a local path dependency.
fn check_local_aliases(roots: &EffectiveRoots, entries: &Vec<LockEntry>) -> (r: Result<(), String>)
    ensures
        r is Ok <==> no_local_clash(name_views(roots.local@), entry_views(entries@)),
{
    let ghost es = entry_views(entries@);
    let mut i: usize = 0;
    while i < entries.len()
        invariant
            i <= entries@.len(),
            es == entry_views(entries@),
            forall|t: int| 0 <= t < i ==> !name_views(roots.local@).contains(#[trigger] es[t].name),
        decreases entries.len() - i,
    {
        proof {
            assert(es[i as int] == entries@[i as int]@);
        }
        let at = position_of(&roots.local, entries[i].name.as_str());
        if at.is_some() {
            proof {
                let x = at->0 as int;
                assert(name_views(roots.local@)[x] == roots.local@[x]@);
                assert(name_views(roots.local@).contains(es[i as int].name));
            }
            let mut m = owned("yar.lock: package ");
            let quoted = quote(entries[i].name.as_str());
            m.append(quoted.as_str());
            m.append(" conflicts with a live path dependency of the same name");
            return Err(m);
        }
        i = i + 1;
    }
    Ok(())
}

/// Whether the lock entries match the roots exactly: no entry is named like a
/// local path dependency, the graph is complete, consistent and free of
/// cycles, and every entry is one that the roots require.
pub open spec fn lock_reconciled(roots_git: Seq<LockDependencyView>, local: Seq<Seq<char>>, es: Seq<LockEntryView>) -> bool {
    &&& no_local_clash(local, es)
    &&& lock_graph_closed(roots_git, es)
    &&& forall|order: Seq<Seq<char>>, i: int|
        #![trigger lock_order(roots_git, es, order), es[i]]
        lock_order(roots_git, es, order) && 0 <= i < es.len() ==> order.contains(es[i].name)
}

/// Checks that the lock entries match the roots exactly, naming the entries
/// that no root requires.
pub fn reconcile_lock_entries(roots: &EffectiveRoots, entries: &Vec<LockEntry>) -> (r: Result<(), String>)
    ensures
        r is Ok <==> lock_reconciled(dependency_views(roots.git@), name_views(roots.local@), entry_views(entries@)),
{
    let ghost es = entry_views(entries@);
    let ghost rs = dependency_views(roots.git@);
    match check_local_aliases(roots, entries) {
        Ok(()) => {},
        Err(m) => {
            return Err(m);
        },
    }
    let reachable = match reachable_lock_entries(&roots.git, entries) {
        Ok(v) => v,
        Err(m) => {
            return Err(m);
        },
    };
    let ghost rv = entry_views(reachable@);
    let ghost order = choose|order: Seq<Seq<char>>| lock_order(rs, es, order) && lists_entries(es, order, rv);
    if reachable.len() == entries.len() {
        proof {
            assert forall|o: Seq<Seq<char>>, i: int|
                #![trigger lock_order(rs, es, o), es[i]]
                lock_order(rs, es, o) && 0 <= i < es.len() implies o.contains(es[i].name) by {
                if !order.contains(es[i].name) {
                    let x = order.push(es[i].name);
                    assert forall|k: int| 0 <= k < x.len() implies has_entry(es, #[trigger] x[k]) by {
                        if k < order.len() {
                            assert(x[k] == order[k]);
                        }
                    }
                    lemma_names_bounded(x, es);
                }
                let a = choose|a: int| 0 <= a < order.len() && order[a] == es[i].name;
                lemma_orders_agree(rs, es, order, o, a);
            }
        }
        return Ok(());
    }
    let mut stale: Vec<String> = Vec::new();
    let mut i: usize = 0;
    while i < entries.len()
        invariant
            i <= entries@.len(),
        decreases entries.len() - i,
    {
        let mut listed = false;
        let mut k: usize = 0;
        while k < reachable.len()
            invariant
                k <= reachable@.len(),
                i < entries@.len(),
            decreases reachable.len() - k,
        {
            if str_eq(reachable[k].name.as_str(), entries[i].name.as_str()) {
                listed = true;
            }
            k = k + 1;
        }
        if !listed {
            stale.push(quote(entries[i].name.as_str()));
        }
        i = i + 1;
    }
    let mut m = owned("yar.lock: unreachable package entries: ");
    let text = join_with(&stale, ", ");
    m.append(text.as_str());
    proof {
        assert(lock_entries_distinct(es));
        if forall|i: int| 0 <= i < es.len() ==> order.contains(#[trigger] es[i].name) {
            let names = es.map_values(|e: LockEntryView| e.name);
            assert forall|k: int| 0 <= k < names.len() implies order.contains(#[trigger] names[k]) by {
                assert(names[k] == es[k].name);
            }
            assert(names.no_duplicates()) by {
                assert forall|x: int, y: int| 0 <= x < y < names.len() implies names[x] != names[y] by {
                    assert(es[x].name != es[y].name);
                }
            }
            lemma_distinct_within(names, order);
            lemma_names_bounded(order, es);
        }
    }
    Err(m)
}

/// Whether an entry of `replacement` shares its name with an entry of
/// `preserved` but not its source.
pub open spec fn merge_conflict(preserved: Seq<LockEntryView>, replacement: Seq<LockEntryView>) -> bool {
    exists|p: int, k: int|
        0 <= p < preserved.len() && 0 <= k < replacement.len() && (#[trigger] preserved[p]).name
            == (#[trigger] replacement[k]).name && preserved[p].source != replacement[k].source
}

/// Whether some entry of `es` is named `n`.
pub open spec fn names_entry(es: Seq<LockEntryView>, n: Seq<char>) -> bool {
    exists|k: int| 0 <= k < es.len() && (#[trigger] es[k]).name == n
}

/// Whether `out` is the merge of `preserved` and `replacement`: every entry of
/// `replacement`, every entry of `preserved` whose name no replacement takes,
/// and nothing else.
pub open spec fn merged(preserved: Seq<LockEntryView>, replacement: Seq<LockEntryView>, out: Seq<LockEntryView>) -> bool {
    &&& forall|k: int| 0 <= k < replacement.len() ==> out.contains(#[trigger] replacement[k])
    &&& forall|p: int|
        0 <= p < preserved.len() && !names_entry(replacement, preserved[p].name) ==> out.contains(
            #[trigger] preserved[p],
        )
    &&& forall|x: int|
        0 <= x < out.len() ==> replacement.contains(#[trigger] out[x]) || (preserved.contains(out[x])
            && !names_entry(replacement, out[x].name))
}

/// Merges a replacement graph into the preserved entries: the replacement
/// entries, then the preserved ones whose names they do not take. An entry
/// that the replacement pins from another source than a preserved entry of
/// the same name is a conflict.
pub fn merge_lock_entries(preserved: &Vec<LockEntry>, replacement: &Vec<LockEntry>) -> (r: Result<
    Vec<LockEntry>,
    String,
>)
    requires
        lock_entries_distinct(entry_views(preserved@)),
    ensures
        r is Err <==> merge_conflict(entry_views(preserved@), entry_views(replacement@)),
        r matches Ok(v) ==> merged(entry_views(preserved@), entry_views(replacement@), entry_views(v@)),
{
    let ghost pv = entry_views(preserved@);
    let ghost rv = entry_views(replacement@);
    let mut k: usize = 0;
    while k < replacement.len()
        invariant
            k <= replacement@.len(),
            pv == entry_views(preserved@),
            rv == entry_views(replacement@),
            lock_entries_distinct(pv),
            forall|p: int, q: int|
                0 <= p < pv.len() && 0 <= q < k && (#[trigger] pv[p]).name == (#[trigger] rv[q]).name ==> pv[p].source
                    == rv[q].source,
        decreases replacement.len() - k,
    {
        let entry = &replacement[k];
        proof {
            assert(rv[k as int] == entry@);
        }
        match find_entry(preserved, entry.name.as_str()) {
            Some(p) => {
                proof {
                    assert(pv[p as int] == preserved@[p as int]@);
                }
                if !preserved[p].source.same_source(&entry.source) {
                    let mut m = owned("dependency conflict for ");
                    let quoted = quote(entry.name.as_str());
                    m.append(quoted.as_str());
                    m.append(": selected update requires ");
                    let want = format_dependency_source(&entry.source);
                    m.append(want.as_str());
                    m.append(", but an unselected root requires ");
                    let have = format_dependency_source(&preserved[p].source);
                    m.append(have.as_str());
                    return Err(m);
                }
                proof {
                    assert forall|pp: int| 0 <= pp < pv.len() && (#[trigger] pv[pp]).name == rv[k as int].name implies pv[pp].source
                        == rv[k as int].source by {
                        if pp != p {
                            if pp < p {
                                assert(pv[pp].name != pv[p as int].name);
                            } else {
                                assert(pv[p as int].name != pv[pp].name);
                            }
                        }
                    }
                }
            },
            None => {
                proof {
                    assert forall|pp: int| 0 <= pp < pv.len() implies (#[trigger] pv[pp]).name != rv[k as int].name by {}
                }
            },
        }
        k = k + 1;
    }
    let mut out: Vec<LockEntry> = Vec::new();
    let mut q: usize = 0;
    while q < replacement.len()
        invariant
            q <= replacement@.len(),
            rv == entry_views(replacement@),
            entry_views(out@) == rv.subrange(0, q as int),
        decreases replacement.len() - q,
    {
        let ghost before = out@;
        out.push(replacement[q].duplicate());
        proof {
            assert(entry_views(out@) =~= entry_views(before).push(replacement@[q as int]@));
            assert(rv[q as int] == replacement@[q as int]@);
            assert(rv.subrange(0, q + 1) =~= rv.subrange(0, q as int).push(rv[q as int]));
        }
        q = q + 1;
    }
    proof {
        assert(rv.subrange(0, q as int) =~= rv);
    }
    let mut p: usize = 0;
    while p < preserved.len()
        invariant
            p <= preserved@.len(),
            pv == entry_views(preserved@),
            rv == entry_views(replacement@),
            entry_views(out@).subrange(0, rv.len() as int) == rv,
            entry_views(out@).len() >= rv.len(),
            forall|pp: int|
                0 <= pp < p && !names_entry(rv, pv[pp].name) ==> entry_views(out@).contains(#[trigger] pv[pp]),
            forall|x: int|
                rv.len() <= x < entry_views(out@).len() ==> pv.contains(#[trigger] entry_views(out@)[x])
                    && !names_entry(rv, entry_views(out@)[x].name),
        decreases preserved.len() - p,
    {
        proof {
            assert(pv[p as int] == preserved@[p as int]@);
        }
        let taken = find_entry(replacement, preserved[p].name.as_str());
        let ghost before = out@;
        if taken.is_none() {
            out.push(preserved[p].duplicate());
            proof {
                assert(entry_views(out@) =~= entry_views(before).push(pv[p as int]));
                assert(entry_views(out@).subrange(0, rv.len() as int) =~= entry_views(before).subrange(0, rv.len() as int));
                assert(entry_views(out@)[entry_views(before).len() as int] == pv[p as int]);
                assert forall|x: int|
                    rv.len() <= x < entry_views(out@).len() implies pv.contains(#[trigger] entry_views(out@)[x])
                        && !names_entry(rv, entry_views(out@)[x].name) by {
                    if x < entry_views(before).len() {
                        assert(entry_views(out@)[x] == entry_views(before)[x]);
                    }
                }
                assert forall|pp: int|
                    0 <= pp < p + 1 && !names_entry(rv, pv[pp].name) implies entry_views(out@).contains(#[trigger] pv[pp]) by {
                    if pp < p {
                        let x = choose|x: int| 0 <= x < entry_views(before).len() && entry_views(before)[x] == pv[pp];
                        assert(entry_views(out@)[x] == entry_views(before)[x]);
                    }
                }
            }
        } else {
            proof {
                let t = taken->0 as int;
                assert(rv[t] == replacement@[t]@);
                assert(names_entry(rv, pv[p as int].name));
            }
        }
        p = p + 1;
    }
    proof {
        let ov = entry_views(out@);
        assert forall|k: int| 0 <= k < rv.len() implies ov.contains(#[trigger] rv[k]) by {
            assert(ov.subrange(0, rv.len() as int)[k] == ov[k]);
        }
        assert forall|x: int| 0 <= x < ov.len() implies rv.contains(#[trigger] ov[x]) || (pv.contains(ov[x])
            && !names_entry(rv, ov[x].name)) by {
            if x < rv.len() {
                assert(ov.subrange(0, rv.len() as int)[x] == ov[x]);
            }
        }
        if merge_conflict(pv, rv) {
            let (pp, kk) = choose|pp: int, kk: int|
                0 <= pp < pv.len() && 0 <= kk < rv.len() && (#[trigger] pv[pp]).name == (#[trigger] rv[kk]).name
                    && pv[pp].source != rv[kk].source;
            assert(pv[pp].source == rv[kk].source);
        }
    }
    Ok(out)
}

/// The message for an update of an alias that the root manifest does not declare.
pub open spec fn undeclared_message(alias: Seq<char>) -> Seq<char> {
    "dependency "@ + debug_quoted(alias) + " is not declared in yar.toml"@
}

/// The message for an update of a local path dependency.
pub open spec fn path_update_message(alias: Seq<char>) -> Seq<char> {
    "dependency "@ + debug_quoted(alias)
        + " is a path dependency and has no independent locked revision; run 'yar lock'"@
}

/// Whether some requirement of `ds` is named `n`.
pub open spec fn declares(ds: Seq<LockDependencyView>, n: Seq<char>) -> bool {
    exists|k: int| 0 <= k < ds.len() && (#[trigger] ds[k]).name == n
}

/// Whether `u` holds the roots of `rs` not named `alias`, and only those.
pub open spec fn roots_without(rs: Seq<LockDependencyView>, alias: Seq<char>, u: Seq<LockDependencyView>) -> bool {
    &&& forall|x: int| 0 <= x < u.len() ==> rs.contains(#[trigger] u[x]) && u[x].name != alias
    &&& forall|r: int| 0 <= r < rs.len() && rs[r].name != alias ==> u.contains(#[trigger] rs[r])
}

/// The first requirement named `name`.
fn find_dependency(ds: &Vec<LockDependency>, name: &str) -> (r: Option<usize>)
    ensures
        r matches Some(i) ==> i < ds@.len() && ds@[i as int].name@ == name@ && forall|k: int|
            0 <= k < i ==> ds@[k].name@ != name@,
        r is None ==> !declares(dependency_views(ds@), name@),
{
    let mut i: usize = 0;
    while i < ds.len()
        invariant
            i <= ds@.len(),
            forall|k: int| 0 <= k < i ==> ds@[k].name@ != name@,
        decreases ds.len() - i,
    {
        if str_eq(ds[i].name.as_str(), name) {
            return Some(i);
        }
        i = i + 1;
    }
    proof {
        assert forall|k: int| 0 <= k < ds@.len() implies (#[trigger] dependency_views(ds@)[k]).name != name@ by {
            assert(dependency_views(ds@)[k] == ds@[k]@);
        }
    }
    None
}

/// The selected root for an update: the first declaration of `alias`, which
/// must be a git dependency.
fn selected_root(declared: &Vec<LockDependency>, alias: &str) -> (r: Result<LockDependency, String>)
    ensures
        !declares(dependency_views(declared@), alias@) ==> (r matches Err(m) && m@ == undeclared_message(alias@)),
        r matches Ok(d) ==> declares(dependency_views(declared@), alias@) && d@.name == alias@
            && dependency_views(declared@).contains(d@) && d@.source.path.len() == 0,
        declares(dependency_views(declared@), alias@) && (forall|k: int|
            0 <= k < declared@.len() && declared@[k].name@ == alias@ ==> declared@[k].source.path@.len() > 0)
            ==> (r matches Err(m) && m@ == path_update_message(alias@)),
{
    let i = match find_dependency(declared, alias) {
        Some(i) => i,
        None => {
            let mut m = owned("dependency ");
            let quoted = quote(alias);
            m.append(quoted.as_str());
            m.append(" is not declared in yar.toml");
            return Err(m);
        },
    };
    let d = &declared[i];
    proof {
        assert(dependency_views(declared@)[i as int] == d@);
    }
    if d.source.is_local() {
        let mut m = owned("dependency ");
        let quoted = quote(alias);
        m.append(quoted.as_str());
        m.append(" is a path dependency and has no independent locked revision; run 'yar lock'");
        return Err(m);
    }
    Ok(d.duplicate())
}

/// The roots without those named `alias`.
fn roots_except(roots: &Vec<LockDependency>, alias: &str) -> (u: Vec<LockDependency>)
    ensures
        roots_without(dependency_views(roots@), alias@, dependency_views(u@)),
{
    let ghost rs = dependency_views(roots@);
    let mut u: Vec<LockDependency> = Vec::new();
    let mut i: usize = 0;
    while i < roots.len()
        invariant
            i <= roots@.len(),
            rs == dependency_views(roots@),
            forall|x: int| 0 <= x < dependency_views(u@).len() ==> rs.contains(#[trigger] dependency_views(u@)[x])
                && dependency_views(u@)[x].name != alias@,
            forall|r: int| 0 <= r < i && rs[r].name != alias@ ==> dependency_views(u@).contains(#[trigger] rs[r]),
        decreases roots.len() - i,
    {
        proof {
            assert(rs[i as int] == roots@[i as int]@);
        }
        if !str_eq(roots[i].name.as_str(), alias) {
            let ghost before = u@;
            u.push(roots[i].duplicate());
            proof {
                assert(dependency_views(u@) =~= dependency_views(before).push(rs[i as int]));
                assert forall|r: int| 0 <= r < i + 1 && rs[r].name != alias@ implies dependency_views(u@).contains(
                    #[trigger] rs[r],
                ) by {
                    if r < i {
                        let x = choose|x: int| 0 <= x < dependency_views(before).len() && dependency_views(before)[x] == rs[r];
                        assert(dependency_views(u@)[x] == dependency_views(before)[x]);
                    } else {
                        assert(dependency_views(u@)[dependency_views(before).len() as int] == rs[r]);
                    }
                }
            }
        }
        i = i + 1;
    }
    u
}

/// Checks, before an update of `selected_alias`, that the alias is a declared
/// git dependency and that the entries the other roots require are complete,
/// clash with no local path dependency, and pin the selected package, where
/// they hold it, from the selected source.
pub fn validate_lock_entries_for_update(
    roots: &EffectiveRoots,
    declared: &Vec<LockDependency>,
    selected_alias: &str,
    existing: &Vec<LockEntry>,
) -> (r: Result<(), String>)
    ensures
        !declares(dependency_views(declared@), selected_alias@) ==> (r matches Err(m) && m@ == undeclared_message(selected_alias@)),
        declares(dependency_views(declared@), selected_alias@) && (forall|k: int|
            0 <= k < declared@.len() && declared@[k].name@ == selected_alias@ ==> declared@[k].source.path@.len()
                > 0) ==> (r matches Err(m) && m@ == path_update_message(selected_alias@)),
        r is Ok ==> exists|u: Seq<LockDependencyView>|
            roots_without(dependency_views(roots.git@), selected_alias@, u) && lock_graph_closed(
                u,
                entry_views(existing@),
            ),
{
    let selected = match selected_root(declared, selected_alias) {
        Ok(d) => d,
        Err(m) => {
            return Err(m);
        },
    };
    let unselected = roots_except(&roots.git, selected_alias);
    let preserved = match reachable_lock_entries(&unselected, existing) {
        Ok(v) => v,
        Err(m) => {
            return Err(m);
        },
    };
    match check_local_aliases(roots, &preserved) {
        Ok(()) => {},
        Err(m) => {
            return Err(m);
        },
    }
    match find_entry(&preserved, selected_alias) {
        Some(i) => {
            if !preserved[i].source.same_source(&selected.source) {
                let mut m = owned("dependency conflict for ");
                let quoted = quote(selected_alias);
                m.append(quoted.as_str());
                m.append(": the selected root requires ");
                let want = format_dependency_source(&selected.source);
                m.append(want.as_str());
                m.append(", but an unselected root requires ");
                let have = format_dependency_source(&preserved[i].source);
                m.append(have.as_str());
                return Err(m);
            }
        },
        None => {},
    }
    Ok(())
}

/// Merges the replacement graph of an update of `selected_alias` into the
/// lock: keeps the entries that the other roots require, checks that the
/// replacement matches the selected root alone, merges the two without
/// conflict, and keeps what all the roots require, which must then match the
/// roots exactly.
pub fn merge_lock_entries_for_update(
    roots: &EffectiveRoots,
    declared: &Vec<LockDependency>,
    selected_alias: &str,
    existing: &Vec<LockEntry>,
    replacement: &Vec<LockEntry>,
) -> (r: Result<Vec<LockEntry>, String>)
    ensures
        !declares(dependency_views(declared@), selected_alias@) ==> (r matches Err(m) && m@ == undeclared_message(selected_alias@)),
        declares(dependency_views(declared@), selected_alias@) && (forall|k: int|
            0 <= k < declared@.len() && declared@[k].name@ == selected_alias@ ==> declared@[k].source.path@.len()
                > 0) ==> (r matches Err(m) && m@ == path_update_message(selected_alias@)),
        r matches Ok(v) ==> lock_reconciled(
            dependency_views(roots.git@),
            name_views(roots.local@),
            entry_views(v@),
        ),
{
    let selected = match selected_root(declared, selected_alias) {
        Ok(d) => d,
        Err(m) => {
            return Err(m);
        },
    };
    match validate_lock_entries(existing) {
        Ok(()) => {},
        Err(m) => {
            return Err(m);
        },
    }
    match validate_lock_entries(replacement) {
        Ok(()) => {},
        Err(m) => {
            return Err(m);
        },
    }
    let unselected = roots_except(&roots.git, selected_alias);
    let preserved = match reachable_lock_entries(&unselected, existing) {
        Ok(v) => v,
        Err(m) => {
            return Err(m);
        },
    };
    let selected_roots = EffectiveRoots { git: vec![selected], local: Vec::new() };
    match reconcile_lock_entries(&selected_roots, replacement) {
        Ok(()) => {},
        Err(m) => {
            return Err(m);
        },
    }
    proof {
        let pv = entry_views(preserved@);
        let ev = entry_views(existing@);
        let order = choose|order: Seq<Seq<char>>|
            lock_order(dependency_views(unselected@), ev, order) && lists_entries(ev, order, pv);
        assert(lock_entries_distinct(pv)) by {
            assert forall|a: int, b: int| 0 <= a < b < pv.len() implies (#[trigger] pv[a]).name != (#[trigger] pv[b]).name by {}
            assert forall|i: int, a: int, b: int|
                0 <= i < pv.len() && 0 <= a < b < pv[i].dependencies.len() implies (#[trigger] pv[i].dependencies[a]).name
                    != (#[trigger] pv[i].dependencies[b]).name by {
                let n = pv[i].name;
                lemma_listed_has_entry(dependency_views(unselected@), ev, order, n);
                let c = choose|c: int| 0 <= c < ev.len() && (#[trigger] ev[c]).name == n;
                assert(entry_named(ev, n).dependencies[a].name != entry_named(ev, n).dependencies[b].name);
            }
        }
    }
    let candidate = match merge_lock_entries(&preserved, replacement) {
        Ok(v) => v,
        Err(m) => {
            return Err(m);
        },
    };
    let reachable = match reachable_lock_entries(&roots.git, &candidate) {
        Ok(v) => v,
        Err(m) => {
            return Err(m);
        },
    };
    match reconcile_lock_entries(roots, &reachable) {
        Ok(()) => {},
        Err(m) => {
            return Err(m);
        },
    }
    Ok(reachable)
}

/// Whether the dependencies that a locked package's manifest declares are the
/// edges that the lock records for it, in any order.
pub open spec fn edges_match(actual: Seq<LockDependencyView>, expected: Seq<LockDependencyView>) -> bool {
    &&& actual.len() == expected.len()
    &&& forall|a: int| 0 <= a < actual.len() ==> expected.contains(#[trigger] actual[a])
    &&& forall|e: int| 0 <= e < expected.len() ==> actual.contains(#[trigger] expected[e])
}

/// Checks the dependencies declared by the manifest of a locked package,
/// found at `manifest_path`, against the edges that the lock records for it:
/// none may be a path dependency, and they must be the recorded edges.
pub fn verify_locked_dependency_manifest(
    manifest_path: &str,
    declared: &Vec<LockDependency>,
    expected: &Vec<LockDependency>,
) -> (r: Result<(), String>)
    ensures
        r is Ok <==> (forall|k: int| 0 <= k < declared@.len() ==> (#[trigger] declared@[k]).source.path@.len() == 0)
            && edges_match(dependency_views(declared@), dependency_views(expected@)),
{
    let ghost dv = dependency_views(declared@);
    let ghost xv = dependency_views(expected@);
    let mut k: usize = 0;
    while k < declared.len()
        invariant
            k <= declared@.len(),
            forall|t: int| 0 <= t < k ==> (#[trigger] declared@[t]).source.path@.len() == 0,
        decreases declared.len() - k,
    {
        if declared[k].source.is_local() {
            let mut m = owned("locked dependency manifest ");
            m.append(manifest_path);
            m.append(" declares path dependency ");
            let quoted = quote(declared[k].name.as_str());
            m.append(quoted.as_str());
            m.append("; path dependencies are supported only in the root yar.toml");
            return Err(m);
        }
        k = k + 1;
    }
    let mut matches = declared.len() == expected.len();
    let mut a: usize = 0;
    while a < declared.len()
        invariant
            a <= declared@.len(),
            dv == dependency_views(declared@),
            xv == dependency_views(expected@),
            matches ==> forall|t: int| 0 <= t < a ==> xv.contains(#[trigger] dv[t]),
            matches ==> dv.len() == xv.len(),
            !matches ==> !edges_match(dv, xv),
        decreases declared.len() - a,
    {
        let mut found = false;
        let mut e: usize = 0;
        while e < expected.len()
            invariant
                e <= expected@.len(),
                a < declared@.len(),
                dv == dependency_views(declared@),
                xv == dependency_views(expected@),
                found ==> xv.contains(dv[a as int]),
                !found ==> forall|t: int| 0 <= t < e ==> xv[t] != dv[a as int],
            decreases expected.len() - e,
        {
            proof {
                assert(xv[e as int] == expected@[e as int]@);
                assert(dv[a as int] == declared@[a as int]@);
            }
            if str_eq(expected[e].name.as_str(), declared[a].name.as_str()) && expected[e].source.same_source(
                &declared[a].source,
            ) {
                found = true;
            }
            e = e + 1;
        }
        if !found {
            proof {
                assert(!xv.contains(dv[a as int]));
            }
            matches = false;
        }
        a = a + 1;
    }
    let mut e: usize = 0;
    while e < expected.len()
        invariant
            e <= expected@.len(),
            dv == dependency_views(declared@),
            xv == dependency_views(expected@),
            matches ==> forall|t: int| 0 <= t < declared@.len() ==> xv.contains(#[trigger] dv[t]),
            matches ==> dv.len() == xv.len(),
            matches ==> forall|t: int| 0 <= t < e ==> dv.contains(#[trigger] xv[t]),
            !matches ==> !edges_match(dv, xv),
        decreases expected.len() - e,
    {
        let mut found = false;
        let mut a2: usize = 0;
        while a2 < declared.len()
            invariant
                a2 <= declared@.len(),
                e < expected@.len(),
                dv == dependency_views(declared@),
                xv == dependency_views(expected@),
                found ==> dv.contains(xv[e as int]),
                !found ==> forall|t: int| 0 <= t < a2 ==> dv[t] != xv[e as int],
            decreases declared.len() - a2,
        {
            proof {
                assert(xv[e as int] == expected@[e as int]@);
                assert(dv[a2 as int] == declared@[a2 as int]@);
            }
            if str_eq(expected[e].name.as_str(), declared[a2].name.as_str()) && expected[e].source.same_source(
                &declared[a2].source,
            ) {
                found = true;
            }
            a2 = a2 + 1;
        }
        if !found {
            proof {
                assert(!dv.contains(xv[e as int]));
            }
            matches = false;
        }
        e = e + 1;
    }
    if matches {
        return Ok(());
    }
    let mut m = owned("locked dependency manifest ");
    m.append(manifest_path);
    m.append(" does not match its dependency edges in yar.lock");
    Err(m)
}

} // verus!
