//! Folding unit results into package results, and package results into the
//! report of a whole dependency graph.
use vstd::prelude::*;
use vstd::multiset::Multiset;
use vstd::seq_lib::{commutative_foldl, lemma_fold_left_permutation, lemma_multiset_commutative};
use crate::counts::{CounterBlock, Tallies};
use crate::package::{PackageId, PackageIdView};
use crate::extern_visitor::{ExternDefinition, ExternDefinitionView};
use crate::unsafe_visitor::{calls_view, ExternCall, ExternCallView, RsFileMetrics, UnitMetricsView};

verus! {

/// A unit's result with the path of its file.
pub type UnitEntry = (Seq<char>, UnitMetricsView);

/// Mathematical value of a [`PackageMetrics`]: orders of files and calls are
/// not part of it.
pub struct PackageMetricsView {
    pub counters: Tallies,
    /// For each file, whether its root forbids `unsafe` code.
    pub forbids_unsafe: Multiset<(Seq<char>, bool)>,
    pub extern_calls: Multiset<ExternCallView>,
}

impl PackageMetricsView {
    /// The result of a package with no files.
    pub open spec fn empty() -> PackageMetricsView {
        PackageMetricsView { counters: Tallies::zero(), forbids_unsafe: Multiset::empty(), extern_calls: Multiset::empty() }
    }

    /// Two results taken together.
    pub open spec fn merge(self, o: PackageMetricsView) -> PackageMetricsView {
        PackageMetricsView {
            counters: self.counters.plus(o.counters),
            forbids_unsafe: self.forbids_unsafe.add(o.forbids_unsafe),
            extern_calls: self.extern_calls.add(o.extern_calls),
        }
    }
}

/// The package result after adding one unit.
pub open spec fn package_step(p: PackageMetricsView, u: UnitEntry) -> PackageMetricsView {
    PackageMetricsView {
        counters: p.counters.plus(u.1.counters),
        forbids_unsafe: p.forbids_unsafe.insert((u.0, u.1.forbids_unsafe)),
        extern_calls: p.extern_calls.add(u.1.extern_calls.to_multiset()),
    }
}

pub open spec fn package_folder() -> spec_fn(PackageMetricsView, UnitEntry) -> PackageMetricsView {
    |p: PackageMetricsView, u: UnitEntry| package_step(p, u)
}

/// The result of a package whose units are `units`, taken in order.
pub open spec fn package_of(units: Seq<UnitEntry>) -> PackageMetricsView {
    units.fold_left(PackageMetricsView::empty(), package_folder())
}

pub open spec fn forbids_view(f: Seq<(String, bool)>) -> Seq<(Seq<char>, bool)> {
    f.map_values(|e: (String, bool)| (e.0@, e.1))
}

/// The result of scanning every unit of one package.
#[derive(Clone, Debug, PartialEq, Eq)]
pub struct PackageMetrics {
    pub counters: CounterBlock,
    /// Each scanned file with whether its root forbids `unsafe` code.
    pub forbids_unsafe: Vec<(String, bool)>,
    /// The foreign calls of all units.
    pub extern_calls: Vec<ExternCall>,
}

impl View for PackageMetrics {
    type V = PackageMetricsView;

    open spec fn view(&self) -> PackageMetricsView {
        PackageMetricsView {
            counters: self.counters@,
            forbids_unsafe: forbids_view(self.forbids_unsafe@).to_multiset(),
            extern_calls: calls_view(self.extern_calls@).to_multiset(),
        }
    }
}

impl PackageMetrics {
    /// The result of a package with no files: zero counts, no files, no
    /// calls.
    pub fn new() -> (r: PackageMetrics)
        ensures
            r@ == PackageMetricsView::empty(),
    {
        let r = PackageMetrics { counters: CounterBlock::zero(), forbids_unsafe: Vec::new(), extern_calls: Vec::new() };
        proof {
            broadcast use vstd::seq_lib::group_to_multiset_ensures;
            assert(forbids_view(r.forbids_unsafe@) =~= Seq::empty());
            assert(calls_view(r.extern_calls@) =~= Seq::empty());
            assert(r@.forbids_unsafe =~= Multiset::empty());
            assert(r@.extern_calls =~= Multiset::empty());
        }
        r
    }

    /// Adds the result of the unit read from `file`.
    pub fn merge_unit(&mut self, file: &String, unit: &RsFileMetrics)
        requires
            old(self)@.counters.total() + unit@.counters.total() <= u64::MAX,
        ensures
            final(self)@ == package_step(old(self)@, (file@, unit@)),
    {
        broadcast use vstd::seq_lib::group_to_multiset_ensures;
        self.counters.add(&unit.counters);
        let ghost f0 = forbids_view(self.forbids_unsafe@);
        self.forbids_unsafe.push((file.clone(), unit.forbids_unsafe));
        assert(forbids_view(self.forbids_unsafe@) =~= f0.push((file@, unit.forbids_unsafe)));
        let ghost c0 = calls_view(self.extern_calls@);
        let ghost fs = self.forbids_unsafe@;
        let ghost cs = self.counters;
        let mut i: usize = 0;
        while i < unit.extern_calls.len()
            invariant
                i <= unit.extern_calls.len(),
                self.forbids_unsafe@ == fs,
                self.counters == cs,
                calls_view(self.extern_calls@) == c0 + calls_view(unit.extern_calls@).take(i as int),
            decreases unit.extern_calls.len() - i,
        {
            let ghost before = self.extern_calls@;
            self.extern_calls.push(unit.extern_calls[i].duplicate());
            assert(calls_view(self.extern_calls@) =~= calls_view(before).push(unit.extern_calls@[i as int]@));
            i = i + 1;
            assert(calls_view(self.extern_calls@) =~= c0 + calls_view(unit.extern_calls@).take(i as int));
        }
        proof {
            assert(calls_view(unit.extern_calls@).take(unit.extern_calls.len() as int) =~= calls_view(unit.extern_calls@));
            lemma_multiset_commutative(c0, calls_view(unit.extern_calls@));
            assert(final(self)@.forbids_unsafe =~= old(self)@.forbids_unsafe.insert((file@, unit.forbids_unsafe)));
            assert(final(self)@.extern_calls =~= old(self)@.extern_calls.add(unit@.extern_calls.to_multiset()));
        }
    }

    /// The package's foreign calls grouped by definition: one entry per
    /// referenced definition, holding that definition's calls in order.
    pub fn calls_by_definition(&self) -> (r: Vec<(ExternDefinition, Vec<ExternCall>)>)
        ensures
            forall|i: int, j: int| 0 <= i < j < r@.len() ==> r@[i].0@ != r@[j].0@,
            forall|i: int| 0 <= i < r@.len() ==> calls_view(#[trigger] r@[i].1@)
                == calls_of(calls_view(self.extern_calls@), r@[i].0@) && r@[i].1@.len() > 0,
            forall|k: int| 0 <= k < self.extern_calls@.len() ==> has_group(r@, (#[trigger] self.extern_calls@[k]).extern_definition@),
    {
        let ghost all = calls_view(self.extern_calls@);
        let mut groups: Vec<(ExternDefinition, Vec<ExternCall>)> = Vec::new();
        let mut n: usize = 0;
        while n < self.extern_calls.len()
            invariant
                n <= self.extern_calls.len(),
                all == calls_view(self.extern_calls@),
                forall|i: int, j: int| 0 <= i < j < groups@.len() ==> groups@[i].0@ != groups@[j].0@,
                forall|i: int| 0 <= i < groups@.len() ==> calls_view(#[trigger] groups@[i].1@)
                    == calls_of(all.take(n as int), groups@[i].0@) && groups@[i].1@.len() > 0,
                forall|k: int| 0 <= k < n ==> has_group(groups@, (#[trigger] self.extern_calls@[k]).extern_definition@),
            decreases self.extern_calls.len() - n,
        {
            let c = &self.extern_calls[n];
            let ghost cv = c@;
            let ghost prev = all.take(n as int);
            let ghost next = all.take(n + 1);
            assert(next.drop_last() =~= prev);
            assert(next.last() == cv);
            let ghost old_groups = groups@;
            let mut pos: Option<usize> = None;
            let mut j: usize = 0;
            while j < groups.len()
                invariant
                    j <= groups.len(),
                    groups@ == old_groups,
                    n < self.extern_calls@.len(),
                    cv == c@,
                    match pos {
                        Some(p) => p < groups@.len() && groups@[p as int].0@ == cv.extern_definition,
                        None => forall|k: int| 0 <= k < j ==> #[trigger] groups@[k].0@ != cv.extern_definition,
                    },
                decreases groups.len() - j,
            {
                if pos.is_none() && groups[j].0.same_as(&c.extern_definition) {
                    pos = Some(j);
                }
                j = j + 1;
            }
            if let Some(gi) = pos {
                let (d, mut cs) = groups.remove(gi);
                let ghost before = cs@;
                cs.push(c.duplicate());
                assert(calls_view(cs@) =~= calls_view(before).push(cv));
                groups.insert(gi, (d, cs));
                proof {
                    assert(groups@ =~= old_groups.update(gi as int, groups@[gi as int]));
                    assert forall|i: int| 0 <= i < groups@.len() implies calls_view(#[trigger] groups@[i].1@)
                        == calls_of(next, groups@[i].0@) && groups@[i].1@.len() > 0 by {
                        if i != gi {
                            assert(old_groups[i].0@ != old_groups[gi as int].0@);
                        }
                    }
                    assert forall|k: int| 0 <= k < n + 1 implies has_group(groups@, (#[trigger] self.extern_calls@[k]).extern_definition@) by {
                        if k < n {
                            assert(has_group(old_groups, self.extern_calls@[k].extern_definition@));
                            let i = choose|i: int| 0 <= i < old_groups.len() && (#[trigger] old_groups[i]).0@ == self.extern_calls@[k].extern_definition@;
                            assert(groups@[i].0@ == old_groups[i].0@);
                        } else {
                            assert(groups@[gi as int].0@ == self.extern_calls@[k].extern_definition@);
                        }
                    }
                }
            } else {
                let mut cs: Vec<ExternCall> = Vec::new();
                cs.push(c.duplicate());
                let d = c.extern_definition.duplicate();
                proof {
                    assert forall|k: int| 0 <= k < prev.len() implies #[trigger] prev[k].extern_definition != cv.extern_definition by {
                        assert(prev[k] == self.extern_calls@[k]@);
                        assert(has_group(old_groups, self.extern_calls@[k].extern_definition@));
                    }
                    lemma_calls_of_none(prev, cv.extern_definition);
                    assert(calls_view(cs@) =~= calls_of(next, cv.extern_definition));
                }
                groups.push((d, cs));
                proof {
                    assert forall|k: int| 0 <= k < n + 1 implies has_group(groups@, (#[trigger] self.extern_calls@[k]).extern_definition@) by {
                        if k < n {
                            assert(has_group(old_groups, self.extern_calls@[k].extern_definition@));
                            let i = choose|i: int| 0 <= i < old_groups.len() && (#[trigger] old_groups[i]).0@ == self.extern_calls@[k].extern_definition@;
                            assert(groups@[i].0@ == old_groups[i].0@);
                        } else {
                            assert(groups@[old_groups.len() as int].0@ == self.extern_calls@[k].extern_definition@);
                        }
                    }
                }
            }
            n = n + 1;
        }
        assert(all.take(n as int) =~= all);
        groups
    }

    /// Adds another result of the same package.
    pub fn absorb(&mut self, other: PackageMetrics)
        requires
            old(self)@.counters.total() + other@.counters.total() <= u64::MAX,
        ensures
            final(self)@ == old(self)@.merge(other@),
    {
        let mut other = other;
        let ghost f0 = forbids_view(self.forbids_unsafe@);
        let ghost f1 = forbids_view(other.forbids_unsafe@);
        let ghost c0 = calls_view(self.extern_calls@);
        let ghost c1 = calls_view(other.extern_calls@);
        self.counters.add(&other.counters);
        self.forbids_unsafe.append(&mut other.forbids_unsafe);
        self.extern_calls.append(&mut other.extern_calls);
        proof {
            assert(forbids_view(self.forbids_unsafe@) =~= f0 + f1);
            assert(calls_view(self.extern_calls@) =~= c0 + c1);
            lemma_multiset_commutative(f0, f1);
            lemma_multiset_commutative(c0, c1);
        }
    }
}

/// The calls of `calls` that reference the definition `d`, in order.
pub open spec fn calls_of(calls: Seq<ExternCallView>, d: ExternDefinitionView) -> Seq<ExternCallView>
    decreases calls.len(),
{
    if calls.len() == 0 {
        Seq::empty()
    } else if calls.last().extern_definition == d {
        calls_of(calls.drop_last(), d).push(calls.last())
    } else {
        calls_of(calls.drop_last(), d)
    }
}

/// Whether some group of `groups` has the definition `d`.
pub open spec fn has_group(groups: Seq<(ExternDefinition, Vec<ExternCall>)>, d: ExternDefinitionView) -> bool {
    exists|i: int| 0 <= i < groups.len() && (#[trigger] groups[i]).0@ == d
}

proof fn lemma_calls_of_none(calls: Seq<ExternCallView>, d: ExternDefinitionView)
    requires
        forall|k: int| 0 <= k < calls.len() ==> #[trigger] calls[k].extern_definition != d,
    ensures
        calls_of(calls, d) == Seq::<ExternCallView>::empty(),
    decreases calls.len(),
{
    if calls.len() > 0 {
        lemma_calls_of_none(calls.drop_last(), d);
    }
}

pub open spec fn unit_entries(units: Seq<(String, RsFileMetrics)>) -> Seq<UnitEntry> {
    units.map_values(|u: (String, RsFileMetrics)| (u.0@, u.1@))
}

proof fn lemma_package_total_grows(units: Seq<UnitEntry>, i: int)
    requires
        0 <= i <= units.len(),
    ensures
        package_of(units.take(i)).counters.total() <= package_of(units).counters.total(),
    decreases units.len() - i,
{
    if i < units.len() {
        lemma_package_total_grows(units, i + 1);
        assert(units.take(i + 1).drop_last() =~= units.take(i));
    } else {
        assert(units.take(i) =~= units);
    }
}

/// Folds the results of a package's units, each with its file's path, into
/// the package's result.
pub fn aggregate_package(units: &Vec<(String, RsFileMetrics)>) -> (r: PackageMetrics)
    requires
        package_of(unit_entries(units@)).counters.total() <= u64::MAX,
    ensures
        r@ == package_of(unit_entries(units@)),
{
    let ghost all = unit_entries(units@);
    let mut r = PackageMetrics::new();
    let mut i: usize = 0;
    while i < units.len()
        invariant
            i <= units.len(),
            all == unit_entries(units@),
            package_of(all).counters.total() <= u64::MAX,
            r@ == package_of(all.take(i as int)),
        decreases units.len() - i,
    {
        proof {
            assert(all.take(i + 1).drop_last() =~= all.take(i as int));
            lemma_package_total_grows(all, i + 1);
        }
        r.merge_unit(&units[i].0, &units[i].1);
        i = i + 1;
    }
    assert(all.take(units.len() as int) =~= all);
    r
}

/// A package with no units has zero counts, no files and no calls.
pub proof fn lemma_empty_package()
    ensures
        package_of(Seq::empty()) == PackageMetricsView::empty(),
{
}

proof fn lemma_package_step_commutes()
    ensures
        commutative_foldl(package_folder()),
{
    assert forall|x: UnitEntry, y: UnitEntry, v: PackageMetricsView|
        #[trigger] package_folder()(package_folder()(v, x), y) == package_folder()(package_folder()(v, y), x) by {
        let a = package_step(package_step(v, x), y);
        let b = package_step(package_step(v, y), x);
        assert(a.forbids_unsafe =~= b.forbids_unsafe);
        assert(a.extern_calls =~= b.extern_calls);
    }
}

/// Folding a package's units in any order gives the same result.
pub proof fn lemma_package_order_irrelevant(a: Seq<UnitEntry>, b: Seq<UnitEntry>)
    requires
        a.to_multiset() == b.to_multiset(),
    ensures
        package_of(a) == package_of(b),
{
    lemma_package_step_commutes();
    lemma_fold_left_permutation(a, b, package_folder(), PackageMetricsView::empty());
}

/// The report after adding one package's result: merged with an earlier
/// result of the same package, if any.
pub open spec fn report_step(
    r: Map<PackageIdView, PackageMetricsView>,
    e: (PackageIdView, PackageMetricsView),
) -> Map<PackageIdView, PackageMetricsView> {
    if r.contains_key(e.0) {
        r.insert(e.0, r[e.0].merge(e.1))
    } else {
        r.insert(e.0, e.1)
    }
}

pub open spec fn report_folder() -> spec_fn(Map<PackageIdView, PackageMetricsView>, (PackageIdView, PackageMetricsView)) -> Map<PackageIdView, PackageMetricsView> {
    |r: Map<PackageIdView, PackageMetricsView>, e: (PackageIdView, PackageMetricsView)| report_step(r, e)
}

/// The report of the package results `packages`, taken in order.
pub open spec fn report_of(packages: Seq<(PackageIdView, PackageMetricsView)>) -> Map<PackageIdView, PackageMetricsView> {
    packages.fold_left(Map::empty(), report_folder())
}

pub open spec fn package_entries(s: Seq<(PackageId, PackageMetrics)>) -> Seq<(PackageIdView, PackageMetricsView)> {
    s.map_values(|e: (PackageId, PackageMetrics)| (e.0@, e.1@))
}

/// Whether no two entries have the same package identity.
pub open spec fn distinct_ids(s: Seq<(PackageIdView, PackageMetricsView)>) -> bool {
    forall|i: int, j: int| 0 <= i < j < s.len() ==> s[i].0 != s[j].0
}

/// The result of every package of a dependency graph, keyed by identity.
pub struct Report {
    entries: Vec<(PackageId, PackageMetrics)>,
    table: Ghost<Map<PackageIdView, PackageMetricsView>>,
}

impl View for Report {
    type V = Map<PackageIdView, PackageMetricsView>;

    closed spec fn view(&self) -> Map<PackageIdView, PackageMetricsView> {
        self.table@
    }
}

impl Report {
    /// Each entry is the table's value under its identity; each key has an
    /// entry; no identity has two.
    pub closed spec fn wf(&self) -> bool {
        &&& forall|i: int| 0 <= i < self.entries@.len() ==> {
            &&& self.table@.contains_key(#[trigger] self.entries@[i].0@)
            &&& self.table@[self.entries@[i].0@] == self.entries@[i].1@
        }
        &&& forall|k: PackageIdView| #[trigger] self.table@.contains_key(k) ==> exists|i: int|
            0 <= i < self.entries@.len() && #[trigger] self.entries@[i].0@ == k
        &&& forall|i: int, j: int|
            0 <= i < j < self.entries@.len() ==> self.entries@[i].0@ != self.entries@[j].0@
    }

    /// A report with no package.
    pub fn new() -> (r: Report)
        ensures
            r.wf(),
            r@ == Map::<PackageIdView, PackageMetricsView>::empty(),
    {
        Report { entries: Vec::new(), table: Ghost(Map::empty()) }
    }

    fn position(&self, id: &PackageId) -> (r: Option<usize>)
        requires
            self.wf(),
        ensures
            match r {
                Some(i) => i < self.entries@.len() && self.entries@[i as int].0@ == id@,
                None => !self@.contains_key(id@),
            },
    {
        let mut i: usize = 0;
        while i < self.entries.len()
            invariant
                self.wf(),
                i <= self.entries@.len(),
                forall|j: int| 0 <= j < i ==> #[trigger] self.entries@[j].0@ != id@,
            decreases self.entries.len() - i,
        {
            if self.entries[i].0.same_as(id) {
                return Some(i);
            }
            i = i + 1;
        }
        None
    }

    /// The result recorded for `id`, if any.
    pub fn get(&self, id: &PackageId) -> (r: Option<&PackageMetrics>)
        requires
            self.wf(),
        ensures
            match r {
                Some(m) => self@.contains_key(id@) && m@ == self@[id@],
                None => !self@.contains_key(id@),
            },
    {
        match self.position(id) {
            Some(i) => Some(&self.entries[i].1),
            None => None,
        }
    }

    /// Every package with its result, each once.
    pub fn entries(&self) -> (r: &Vec<(PackageId, PackageMetrics)>)
        requires
            self.wf(),
        ensures
            forall|i: int| 0 <= i < r@.len() ==> {
                &&& self@.contains_key(#[trigger] r@[i].0@)
                &&& self@[r@[i].0@] == r@[i].1@
            },
            forall|k: PackageIdView| #[trigger] self@.contains_key(k) ==> exists|i: int|
                0 <= i < r@.len() && #[trigger] r@[i].0@ == k,
            forall|i: int, j: int| 0 <= i < j < r@.len() ==> r@[i].0@ != r@[j].0@,
    {
        &self.entries
    }

    /// Adds the result of package `id`, merging it with an earlier result of
    /// the same package.
    pub fn add_package(&mut self, id: PackageId, metrics: PackageMetrics)
        requires
            old(self).wf(),
            old(self)@.contains_key(id@) ==> old(self)@[id@].counters.total() + metrics@.counters.total() <= u64::MAX,
        ensures
            final(self).wf(),
            final(self)@ == report_step(old(self)@, (id@, metrics@)),
    {
        let ghost k = id@;
        let ghost mv = metrics@;
        let ghost old_entries = self.entries@;
        let ghost new_value = if old(self)@.contains_key(k) { old(self)@[k].merge(mv) } else { mv };
        match self.position(&id) {
            Some(i) => {
                let (pid, mut pm) = self.entries.remove(i);
                pm.absorb(metrics);
                self.entries.push((pid, pm));
            },
            None => {
                self.entries.push((id, metrics));
            },
        }
        self.table = Ghost(self.table@.insert(k, new_value));
        proof {
            let n = self.entries@.len() - 1;
            assert(self.entries@[n].0@ == k && self.entries@[n].1@ == new_value);
            assert forall|i: int| 0 <= i < n implies self.entries@[i].0@ != k
                && old(self).table@.contains_key(self.entries@[i].0@)
                && old(self).table@[self.entries@[i].0@] == self.entries@[i].1@ by {
                let j = if i < old_entries.len() && self.entries@[i] == old_entries[i] { i } else { i + 1 };
                assert(self.entries@[i] == old_entries[j]);
                assert(old_entries[j].0@ != k);
            }
            assert forall|k2: PackageIdView| #[trigger] self.table@.contains_key(k2) implies exists|i: int|
                0 <= i < self.entries@.len() && #[trigger] self.entries@[i].0@ == k2 by {
                if k2 != k {
                    let j = choose|j: int| 0 <= j < old_entries.len() && #[trigger] old_entries[j].0@ == k2;
                    let i = if self.entries@.len() == old_entries.len() + 1 || j < n && self.entries@[j] == old_entries[j] { j } else { j - 1 };
                    assert(self.entries@[i].0@ == k2);
                } else {
                    assert(self.entries@[n].0@ == k2);
                }
            }
        }
    }
}

proof fn lemma_report_keys(s: Seq<(PackageIdView, PackageMetricsView)>, k: PackageIdView)
    ensures
        report_of(s).contains_key(k) <==> exists|j: int| 0 <= j < s.len() && #[trigger] s[j].0 == k,
    decreases s.len(),
{
    if s.len() > 0 {
        lemma_report_keys(s.drop_last(), k);
        if exists|j: int| 0 <= j < s.drop_last().len() && #[trigger] s.drop_last()[j].0 == k {
            let j = choose|j: int| 0 <= j < s.drop_last().len() && #[trigger] s.drop_last()[j].0 == k;
            assert(s[j].0 == k);
        }
        if exists|j: int| 0 <= j < s.len() && #[trigger] s[j].0 == k {
            let j = choose|j: int| 0 <= j < s.len() && #[trigger] s[j].0 == k;
            if j < s.len() - 1 {
                assert(s.drop_last()[j].0 == k);
            }
        }
    }
}

/// Builds the report of a dependency graph from the result of each of its
/// packages, each package listed once.
pub fn build_report(packages: Vec<(PackageId, PackageMetrics)>) -> (r: Report)
    requires
        distinct_ids(package_entries(packages@)),
    ensures
        r.wf(),
        r@ == report_of(package_entries(packages@)),
{
    let ghost all = package_entries(packages@);
    let mut rest = packages;
    let mut r = Report::new();
    let mut i: usize = 0;
    assert(all.len() == rest.len());
    while rest.len() > 0
        invariant
            all.len() <= usize::MAX,
            i + rest@.len() == all.len(),
            distinct_ids(all),
            package_entries(rest@) == all.skip(i as int),
            r.wf(),
            r@ == report_of(all.take(i as int)),
        decreases rest.len(),
    {
        let ghost before = rest@;
        let (id, m) = rest.remove(0);
        proof {
            assert(all[i as int] == (id@, m@)) by {
                assert(package_entries(before)[0] == all.skip(i as int)[0]);
            }
            assert forall|j: int| 0 <= j < rest@.len() implies #[trigger] package_entries(rest@)[j] == all.skip(i + 1)[j] by {
                assert(rest@[j] == before[j + 1]);
                assert(package_entries(before)[j + 1] == all.skip(i as int)[j + 1]);
            }
            assert(package_entries(rest@) =~= all.skip(i + 1));
            lemma_report_keys(all.take(i as int), id@);
            assert forall|j: int| 0 <= j < all.take(i as int).len() implies #[trigger] all.take(i as int)[j].0 != id@ by {
                assert(all.take(i as int)[j] == all[j]);
            }
            assert(all.take(i + 1).drop_last() =~= all.take(i as int));
        }
        r.add_package(id, m);
        i = i + 1;
    }
    assert(all.take(i as int) =~= all);
    r
}

proof fn lemma_report_step_commutes()
    ensures
        commutative_foldl(report_folder()),
{
    assert forall|x: (PackageIdView, PackageMetricsView), y: (PackageIdView, PackageMetricsView), v: Map<PackageIdView, PackageMetricsView>|
        #[trigger] report_folder()(report_folder()(v, x), y) == report_folder()(report_folder()(v, y), x) by {
        let a = report_step(report_step(v, x), y);
        let b = report_step(report_step(v, y), x);
        if x.0 == y.0 {
            let k = x.0;
            let (p, q) = if v.contains_key(k) {
                (v[k].merge(x.1).merge(y.1), v[k].merge(y.1).merge(x.1))
            } else {
                (x.1.merge(y.1), y.1.merge(x.1))
            };
            assert(p.forbids_unsafe =~= q.forbids_unsafe);
            assert(p.extern_calls =~= q.extern_calls);
            assert(p == q);
            assert(a =~= b);
        } else {
            assert(a =~= b);
        }
    }
}

/// Folding the package results into the report in any order gives the
/// same report.
pub proof fn lemma_report_order_irrelevant(
    a: Seq<(PackageIdView, PackageMetricsView)>,
    b: Seq<(PackageIdView, PackageMetricsView)>,
)
    requires
        a.to_multiset() == b.to_multiset(),
    ensures
        report_of(a) == report_of(b),
{
    lemma_report_step_commutes();
    lemma_fold_left_permutation(a, b, report_folder(), Map::empty());
}

/// Two packages with the same name and version but different sources stay
/// two separate entries of the report.
pub proof fn lemma_distinct_sources_stay_apart(
    a: PackageIdView,
    ma: PackageMetricsView,
    b: PackageIdView,
    mb: PackageMetricsView,
)
    requires
        a.name == b.name,
        a.version == b.version,
        a.source != b.source,
    ensures
        report_of(seq![(a, ma), (b, mb)]).dom() == set![a, b],
        report_of(seq![(a, ma), (b, mb)])[a] == ma,
        report_of(seq![(a, ma), (b, mb)])[b] == mb,
{
    let s = seq![(a, ma), (b, mb)];
    let one = seq![(a, ma)];
    let e = Map::<PackageIdView, PackageMetricsView>::empty();
    assert(s.drop_last() =~= one);
    assert(one.drop_last() =~= Seq::<(PackageIdView, PackageMetricsView)>::empty());
    let m1 = report_step(e, (a, ma));
    assert(one.last() == (a, ma));
    assert(one.drop_last().fold_left(e, report_folder()) == e);
    assert(report_folder()(e, (a, ma)) == m1);
    assert(report_of(one) == m1);
    assert(report_of(s) == report_step(m1, (b, mb)));
    assert(a != b);
    assert(report_of(s) == m1.insert(b, mb));
    assert(report_of(s).dom() =~= set![a, b]);
}

} // verus!
