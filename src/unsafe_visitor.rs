//! Second pass over a unit: safe / unsafe counts by category, and the call
//! sites of the functions found by the first pass.
use vstd::prelude::*;
use crate::counts::{CounterBlock, Tallies, Tally};
use crate::extern_visitor::{ExternDefinition, ExternDefinitionView, RsFileExternDefinitions};
use crate::syntax::{
    file_forbids_unsafe, file_forbids_unsafe_spec, file_size, forest_size, has_unsafe_attributes,
    has_unsafe_attributes_spec, is_test_fn, is_test_fn_spec, is_test_mod, is_test_mod_spec,
    lemma_forest_size_prefix, node_size, Attribute, Ident, Node, NodeKind, Signature, SourceFile,
};

verus! {

/// Whether code that only builds for tests is scanned.
#[derive(Clone, Copy, Debug, PartialEq, Eq, Structural)]
pub enum IncludeTests {
    No,
    Yes,
}

/// Mathematical value of an [`ExternCall`].
pub struct ExternCallView {
    pub extern_definition: ExternDefinitionView,
    pub file: Seq<char>,
    pub line: usize,
    pub column: usize,
    pub calling_function: Seq<char>,
    pub package_id: Seq<char>,
}

/// A call of a foreign-boundary function.
#[derive(Clone, Debug, PartialEq, Eq, Hash)]
pub struct ExternCall {
    pub extern_definition: ExternDefinition,
    pub file: String,
    pub line: usize,
    pub column: usize,
    /// The enclosing function, or [`GLOBAL_SCOPE`].
    pub calling_function: String,
    pub package_id: String,
}

impl View for ExternCall {
    type V = ExternCallView;

    open spec fn view(&self) -> ExternCallView {
        ExternCallView {
            extern_definition: self.extern_definition@,
            file: self.file@,
            line: self.line,
            column: self.column,
            calling_function: self.calling_function@,
            package_id: self.package_id@,
        }
    }
}

impl ExternCall {
    /// A copy with the same value.
    pub fn duplicate(&self) -> (r: ExternCall)
        ensures
            r@ == self@,
    {
        ExternCall {
            extern_definition: self.extern_definition.duplicate(),
            file: self.file.clone(),
            line: self.line,
            column: self.column,
            calling_function: self.calling_function.clone(),
            package_id: self.package_id.clone(),
        }
    }
}

/// The name given as caller to a call made outside any function.
pub const GLOBAL_SCOPE: &'static str = "__global_scope__";

/// Mathematical value of an [`RsFileMetrics`].
pub struct UnitMetricsView {
    pub counters: Tallies,
    pub forbids_unsafe: bool,
    pub extern_calls: Seq<ExternCallView>,
}

pub open spec fn calls_view(calls: Seq<ExternCall>) -> Seq<ExternCallView> {
    calls.map_values(|c: ExternCall| c@)
}

/// What the scan of one unit found.
#[derive(Clone, Debug, PartialEq, Eq)]
pub struct RsFileMetrics {
    pub counters: CounterBlock,
    /// Whether the unit's root forbids `unsafe` code.
    pub forbids_unsafe: bool,
    /// The foreign calls, in source order.
    pub extern_calls: Vec<ExternCall>,
}

impl View for RsFileMetrics {
    type V = UnitMetricsView;

    open spec fn view(&self) -> UnitMetricsView {
        UnitMetricsView {
            counters: self.counters@,
            forbids_unsafe: self.forbids_unsafe,
            extern_calls: calls_view(self.extern_calls@),
        }
    }
}

impl RsFileMetrics {
    /// Zero counts, no forbidding, no calls.
    pub fn new() -> (r: RsFileMetrics)
        ensures
            r@ == (UnitMetricsView { counters: Tallies::zero(), forbids_unsafe: false, extern_calls: Seq::empty() }),
    {
        let r = RsFileMetrics { counters: CounterBlock::zero(), forbids_unsafe: false, extern_calls: Vec::new() };
        assert(r@.extern_calls =~= Seq::empty());
        r
    }
}

pub open spec fn only_functions(t: Tally) -> Tallies {
    Tallies { functions: t, ..Tallies::zero() }
}

pub open spec fn only_exprs(t: Tally) -> Tallies {
    Tallies { exprs: t, ..Tallies::zero() }
}

pub open spec fn only_item_impls(t: Tally) -> Tallies {
    Tallies { item_impls: t, ..Tallies::zero() }
}

pub open spec fn only_item_traits(t: Tally) -> Tallies {
    Tallies { item_traits: t, ..Tallies::zero() }
}

pub open spec fn only_methods(t: Tally) -> Tallies {
    Tallies { methods: t, ..Tallies::zero() }
}

/// Whether a free function is classified unsafe: marked `unsafe`, or
/// exported under a fixed symbol name.
pub open spec fn fn_counts_unsafe(sig: Signature, attrs: Seq<Attribute>) -> bool {
    sig.unsafety || has_unsafe_attributes_spec(attrs)
}

/// Whether a node is left out of the scan.
pub open spec fn skipped(n: Node, tests: bool) -> bool {
    match n.kind {
        NodeKind::Fn { attrs, .. } => !tests && is_test_fn_spec(attrs@),
        NodeKind::Mod { attrs } => !tests && is_test_mod_spec(attrs@),
        _ => false,
    }
}

/// The counts that visiting `n` adds; `in_unsafe` tells whether the visit
/// starts inside an unsafe region.
pub open spec fn node_tally(n: Node, tests: bool, in_unsafe: bool) -> Tallies
    decreases n,
{
    if skipped(n, tests) {
        Tallies::zero()
    } else {
        match n.kind {
            NodeKind::Fn { sig, attrs } => only_functions(Tally::one(fn_counts_unsafe(sig, attrs@))).plus(
                forest_tally(n.children@, tests, in_unsafe || sig.unsafety)),
            NodeKind::Method { sig, attrs } => only_methods(Tally::one(fn_counts_unsafe(sig, attrs@))).plus(
                forest_tally(n.children@, tests, in_unsafe || sig.unsafety)),
            NodeKind::Impl { unsafety } => only_item_impls(Tally::one(unsafety)).plus(
                forest_tally(n.children@, tests, in_unsafe)),
            NodeKind::Trait { unsafety } => only_item_traits(Tally::one(unsafety)).plus(
                forest_tally(n.children@, tests, in_unsafe)),
            NodeKind::UnsafeBlock => forest_tally(n.children@, tests, true),
            NodeKind::Path => Tallies::zero(),
            NodeKind::Lit => Tallies::zero(),
            NodeKind::Call { .. } => only_exprs(Tally::one(in_unsafe)).plus(
                forest_tally(n.children@, tests, in_unsafe)),
            NodeKind::Expr => only_exprs(Tally::one(in_unsafe)).plus(
                forest_tally(n.children@, tests, in_unsafe)),
            _ => forest_tally(n.children@, tests, in_unsafe),
        }
    }
}

/// The counts that visiting the trees of `s` in order adds.
pub open spec fn forest_tally(s: Seq<Node>, tests: bool, in_unsafe: bool) -> Tallies
    decreases s,
{
    if s.len() == 0 {
        Tallies::zero()
    } else {
        forest_tally(s.drop_last(), tests, in_unsafe).plus(node_tally(s.last(), tests, in_unsafe))
    }
}

/// What the call sites of a unit are resolved against and stamped with.
pub struct CallEnv {
    pub defs: Map<Seq<char>, ExternDefinitionView>,
    pub file: Seq<char>,
    pub package_id: Seq<char>,
}

/// The name recorded as caller: the enclosing function, or the global
/// scope.
pub open spec fn caller_name(current: Option<Seq<char>>) -> Seq<char> {
    match current {
        Some(f) => f,
        None => GLOBAL_SCOPE@,
    }
}

/// The record of a call of `callee`, if it names a known definition.
pub open spec fn call_record(callee: Option<Ident>, current: Option<Seq<char>>, env: CallEnv) -> Seq<ExternCallView> {
    match callee {
        Some(id) => if env.defs.contains_key(id.name@) {
            seq![ExternCallView {
                extern_definition: env.defs[id.name@],
                file: env.file,
                line: id.line,
                column: id.column,
                calling_function: caller_name(current),
                package_id: env.package_id,
            }]
        } else {
            Seq::empty()
        },
        None => Seq::empty(),
    }
}

/// The foreign calls found by visiting `n`, in source order; `current` is
/// the enclosing function's name.
pub open spec fn node_calls(n: Node, tests: bool, current: Option<Seq<char>>, env: CallEnv) -> Seq<ExternCallView>
    decreases n,
{
    if skipped(n, tests) {
        Seq::empty()
    } else {
        match n.kind {
            NodeKind::Fn { sig, .. } => forest_calls(n.children@, tests, Some(sig.ident.name@), env),
            NodeKind::Method { sig, .. } => forest_calls(n.children@, tests, Some(sig.ident.name@), env),
            NodeKind::Path => Seq::empty(),
            NodeKind::Lit => Seq::empty(),
            NodeKind::Call { callee } => call_record(callee, current, env) + forest_calls(n.children@, tests, current, env),
            _ => forest_calls(n.children@, tests, current, env),
        }
    }
}

/// The foreign calls found by visiting the trees of `s` in order.
pub open spec fn forest_calls(s: Seq<Node>, tests: bool, current: Option<Seq<char>>, env: CallEnv) -> Seq<ExternCallView>
    decreases s,
{
    if s.len() == 0 {
        Seq::empty()
    } else {
        forest_calls(s.drop_last(), tests, current, env) + node_calls(s.last(), tests, current, env)
    }
}

/// Each node adds at most one to the counts.
pub proof fn lemma_node_tally_bound(n: Node, tests: bool, in_unsafe: bool)
    ensures
        node_tally(n, tests, in_unsafe).total() <= node_size(n),
    decreases n, 1nat,
{
    let c = n.children@;
    match n.kind {
        NodeKind::Fn { sig, .. } => lemma_forest_tally_bound(c, tests, in_unsafe || sig.unsafety),
        NodeKind::Method { sig, .. } => lemma_forest_tally_bound(c, tests, in_unsafe || sig.unsafety),
        NodeKind::UnsafeBlock => lemma_forest_tally_bound(c, tests, true),
        _ => lemma_forest_tally_bound(c, tests, in_unsafe),
    }
}

/// Each tree of a forest adds at most one to the counts per node.
pub proof fn lemma_forest_tally_bound(s: Seq<Node>, tests: bool, in_unsafe: bool)
    ensures
        forest_tally(s, tests, in_unsafe).total() <= forest_size(s),
    decreases s, 0nat,
{
    if s.len() > 0 {
        lemma_forest_tally_bound(s.drop_last(), tests, in_unsafe);
        lemma_node_tally_bound(s.last(), tests, in_unsafe);
    }
}

/// A free function without the `unsafe` keyword is counted unsafe exactly
/// when it is exported under a fixed symbol name, and its body stays in the
/// region it was in: the attribute alone opens no unsafe region.
pub proof fn lemma_fixed_symbol_name_counts_unsafe(n: Node, tests: bool, in_unsafe: bool)
    requires
        n.kind matches NodeKind::Fn { sig, .. } && !sig.unsafety,
        !skipped(n, tests),
    ensures
        n.kind matches NodeKind::Fn { attrs, .. } && node_tally(n, tests, in_unsafe) == only_functions(
            Tally::one(has_unsafe_attributes_spec(attrs@))).plus(forest_tally(n.children@, tests, in_unsafe)),
{
}

/// Paths and literals are never counted, and nothing beneath them is
/// visited.
pub proof fn lemma_leaves_not_counted(n: Node, tests: bool, in_unsafe: bool, current: Option<Seq<char>>, env: CallEnv)
    requires
        n.kind is Path || n.kind is Lit,
    ensures
        node_tally(n, tests, in_unsafe) == Tallies::zero(),
        node_calls(n, tests, current, env) == Seq::<ExternCallView>::empty(),
{
}

/// Counts of consecutive forests add up.
pub proof fn lemma_forest_tally_concat(a: Seq<Node>, b: Seq<Node>, tests: bool, in_unsafe: bool)
    ensures
        forest_tally(a + b, tests, in_unsafe) == forest_tally(a, tests, in_unsafe).plus(forest_tally(b, tests, in_unsafe)),
    decreases b.len(),
{
    if b.len() == 0 {
        assert(a + b =~= a);
    } else {
        lemma_forest_tally_concat(a, b.drop_last(), tests, in_unsafe);
        assert((a + b).drop_last() =~= a + b.drop_last());
        assert((a + b).last() == b.last());
    }
}

/// Where the only test-only code of a unit is one module `m`, between the
/// items `pre` and `post`, the counts with tests included exceed those
/// with tests excluded by exactly what `m` holds.
pub proof fn lemma_test_module_difference(pre: Seq<Node>, m: Node, post: Seq<Node>, in_unsafe: bool)
    requires
        m.kind matches NodeKind::Mod { attrs } && is_test_mod_spec(attrs@),
        forest_tally(pre, true, in_unsafe) == forest_tally(pre, false, in_unsafe),
        forest_tally(post, true, in_unsafe) == forest_tally(post, false, in_unsafe),
    ensures
        node_tally(m, false, in_unsafe) == Tallies::zero(),
        forest_tally(pre.push(m) + post, true, in_unsafe)
            == forest_tally(pre.push(m) + post, false, in_unsafe).plus(forest_tally(m.children@, true, in_unsafe)),
{
    lemma_forest_tally_concat(pre.push(m), post, true, in_unsafe);
    lemma_forest_tally_concat(pre.push(m), post, false, in_unsafe);
    assert(pre.push(m).drop_last() =~= pre);
    assert(pre.push(m).last() == m);
    assert(skipped(m, false));
    assert(node_tally(m, false, in_unsafe) == Tallies::zero());
    assert(node_tally(m, true, in_unsafe) == forest_tally(m.children@, true, in_unsafe));
    assert(forest_tally(pre.push(m), true, in_unsafe) == forest_tally(pre, true, in_unsafe).plus(node_tally(m, true, in_unsafe)));
    assert(forest_tally(pre.push(m), false, in_unsafe) == forest_tally(pre, false, in_unsafe).plus(Tallies::zero()));
}

/// The second pass: counts a unit's constructs and records its foreign
/// calls.
pub struct GeigerSynVisitor<'a> {
    pub include_tests: IncludeTests,
    /// What the visit has found so far.
    pub metrics: RsFileMetrics,
    /// How many unsafe regions enclose the current node: an unsafe block
    /// inside an unsafe function makes two.
    pub unsafe_scopes: u32,
    pub extern_definitions: &'a RsFileExternDefinitions,
    pub file: &'a String,
    /// The function whose body is being visited, if any.
    pub current_function: Option<String>,
    pub package_id: &'a String,
}

impl<'a> GeigerSynVisitor<'a> {
    pub open spec fn tests(&self) -> bool {
        self.include_tests == IncludeTests::Yes
    }

    pub open spec fn current(&self) -> Option<Seq<char>> {
        match self.current_function {
            Some(f) => Some(f@),
            None => None,
        }
    }

    pub open spec fn env(&self) -> CallEnv {
        CallEnv { defs: self.extern_definitions@, file: self.file@, package_id: self.package_id@ }
    }

    /// Whether the counters and the depth can take the visit of `size`
    /// more nodes.
    pub open spec fn room_for(&self, size: nat) -> bool {
        &&& self.unsafe_scopes + size <= u32::MAX
        &&& self.metrics.counters@.total() + size <= u64::MAX
    }

    /// `self` is `o` after a visit that added the counts `t` and the calls
    /// `c`, leaving the depth and the enclosing function as they were.
    pub open spec fn after(&self, o: &Self, t: Tallies, c: Seq<ExternCallView>) -> bool {
        &&& self.include_tests == o.include_tests
        &&& self.unsafe_scopes == o.unsafe_scopes
        &&& self.extern_definitions == o.extern_definitions
        &&& self.file == o.file
        &&& self.package_id == o.package_id
        &&& self.current_function == o.current_function
        &&& self.metrics.forbids_unsafe == o.metrics.forbids_unsafe
        &&& self.metrics.counters@ == o.metrics.counters@.plus(t)
        &&& calls_view(self.metrics.extern_calls@) == calls_view(o.metrics.extern_calls@) + c
    }

    /// A visitor at the global scope, outside any unsafe region, that has
    /// found nothing yet.
    pub fn new(
        include_tests: IncludeTests,
        extern_definitions: &'a RsFileExternDefinitions,
        file: &'a String,
        package_id: &'a String,
    ) -> (r: Self)
        ensures
            r.include_tests == include_tests,
            r.extern_definitions == extern_definitions,
            r.file == file,
            r.package_id == package_id,
            r.unsafe_scopes == 0,
            r.current_function is None,
            r.metrics@ == (UnitMetricsView { counters: Tallies::zero(), forbids_unsafe: false, extern_calls: Seq::empty() }),
    {
        GeigerSynVisitor {
            include_tests,
            metrics: RsFileMetrics::new(),
            unsafe_scopes: 0,
            extern_definitions,
            file,
            current_function: None,
            package_id,
        }
    }

    /// Steps into one more unsafe region.
    pub fn enter_unsafe_scope(&mut self)
        requires
            old(self).unsafe_scopes < u32::MAX,
        ensures
            *final(self) == (GeigerSynVisitor { unsafe_scopes: (old(self).unsafe_scopes + 1) as u32, ..*old(self) }),
    {
        self.unsafe_scopes = self.unsafe_scopes + 1;
    }

    /// Steps out of the innermost unsafe region.
    pub fn exit_unsafe_scope(&mut self)
        requires
            old(self).unsafe_scopes > 0,
        ensures
            *final(self) == (GeigerSynVisitor { unsafe_scopes: (old(self).unsafe_scopes - 1) as u32, ..*old(self) }),
    {
        self.unsafe_scopes = self.unsafe_scopes - 1;
    }

    /// Visits a whole unit: records whether its root forbids `unsafe` code,
    /// then visits its items.
    pub fn visit_file(&mut self, f: &SourceFile)
        requires
            old(self).extern_definitions.wf(),
            old(self).room_for(file_size(*f)),
        ensures
            final(self).after(
                &(GeigerSynVisitor { metrics: RsFileMetrics { forbids_unsafe: final(self).metrics.forbids_unsafe, ..old(self).metrics }, ..*old(self) }),
                forest_tally(f.items@, old(self).tests(), old(self).unsafe_scopes > 0),
                forest_calls(f.items@, old(self).tests(), old(self).current(), old(self).env())),
            final(self).metrics.forbids_unsafe == file_forbids_unsafe_spec(f.attrs@),
            final(self).unsafe_scopes == old(self).unsafe_scopes,
    {
        self.metrics.forbids_unsafe = file_forbids_unsafe(&f.attrs);
        self.visit_nodes(&f.items);
    }

    /// Visits the trees of `nodes` in order.
    pub fn visit_nodes(&mut self, nodes: &Vec<Node>)
        requires
            old(self).extern_definitions.wf(),
            old(self).room_for(forest_size(nodes@)),
        ensures
            final(self).after(old(self),
                forest_tally(nodes@, old(self).tests(), old(self).unsafe_scopes > 0),
                forest_calls(nodes@, old(self).tests(), old(self).current(), old(self).env())),
        decreases nodes, 0nat,
    {
        let ghost tests = self.tests();
        let ghost in_unsafe = self.unsafe_scopes > 0;
        let ghost current = self.current();
        let ghost env = self.env();
        let mut i: usize = 0;
        while i < nodes.len()
            invariant
                i <= nodes.len(),
                old(self).extern_definitions.wf(),
                old(self).room_for(forest_size(nodes@)),
                tests == old(self).tests(),
                in_unsafe == (old(self).unsafe_scopes > 0),
                current == old(self).current(),
                env == old(self).env(),
                self.after(old(self),
                    forest_tally(nodes@.take(i as int), tests, in_unsafe),
                    forest_calls(nodes@.take(i as int), tests, current, env)),
            decreases nodes.len() - i,
        {
            proof {
                assert(nodes@.take(i + 1).drop_last() =~= nodes@.take(i as int));
                lemma_forest_size_prefix(nodes@, i + 1);
                lemma_forest_tally_bound(nodes@.take(i as int), tests, in_unsafe);
            }
            self.visit_node(&nodes[i]);
            proof {
                let prev = forest_calls(nodes@.take(i as int), tests, current, env);
                let here = node_calls(nodes@[i as int], tests, current, env);
                assert(calls_view(self.metrics.extern_calls@) =~= calls_view(old(self).metrics.extern_calls@) + (prev + here));
            }
            i = i + 1;
        }
        assert(nodes@.take(nodes.len() as int) =~= nodes@);
    }

    /// Visits one tree.
    pub fn visit_node(&mut self, n: &Node)
        requires
            old(self).extern_definitions.wf(),
            old(self).room_for(node_size(*n)),
        ensures
            final(self).after(old(self),
                node_tally(*n, old(self).tests(), old(self).unsafe_scopes > 0),
                node_calls(*n, old(self).tests(), old(self).current(), old(self).env())),
        decreases *n, 2nat,
    {
        match &n.kind {
            NodeKind::Fn { sig, attrs } => self.visit_item_fn(sig, attrs, &n.children),
            NodeKind::Method { sig, attrs } => self.visit_impl_item_method(sig, attrs, &n.children),
            NodeKind::Impl { unsafety } => self.visit_item_impl(*unsafety, &n.children),
            NodeKind::Trait { unsafety } => self.visit_item_trait(*unsafety, &n.children),
            NodeKind::Mod { attrs } => self.visit_item_mod(attrs, &n.children),
            NodeKind::ForeignMod { .. } => self.visit_nodes(&n.children),
            NodeKind::ForeignFn { .. } => self.visit_nodes(&n.children),
            _ => self.visit_expr(n),
        }
    }

    /// An expression. An unsafe block opens an unsafe region for its
    /// contents and is not counted itself; paths and literals are neither
    /// counted nor entered; every other expression is counted once, as
    /// unsafe when inside an unsafe region, and a call of a known foreign
    /// function by its bare name is recorded.
    pub fn visit_expr(&mut self, n: &Node)
        requires
            old(self).extern_definitions.wf(),
            old(self).room_for(node_size(*n)),
            n.kind is UnsafeBlock || n.kind is Path || n.kind is Lit || n.kind is Call || n.kind is Expr,
        ensures
            final(self).after(old(self),
                node_tally(*n, old(self).tests(), old(self).unsafe_scopes > 0),
                node_calls(*n, old(self).tests(), old(self).current(), old(self).env())),
        decreases *n, 1nat,
    {
        match &n.kind {
            NodeKind::UnsafeBlock => {
                self.enter_unsafe_scope();
                self.visit_nodes(&n.children);
                self.exit_unsafe_scope();
                assert(calls_view(self.metrics.extern_calls@) =~= calls_view(old(self).metrics.extern_calls@)
                    + node_calls(*n, old(self).tests(), old(self).current(), old(self).env()));
            },
            NodeKind::Path => {
                assert(calls_view(self.metrics.extern_calls@) =~= calls_view(old(self).metrics.extern_calls@) + Seq::empty());
            },
            NodeKind::Lit => {
                assert(calls_view(self.metrics.extern_calls@) =~= calls_view(old(self).metrics.extern_calls@) + Seq::empty());
            },
            NodeKind::Call { callee } => {
                if let Some(id) = callee {
                    if let Some(def) = self.extern_definitions.get(&id.name) {
                        let caller = match &self.current_function {
                            Some(f) => f.clone(),
                            None => GLOBAL_SCOPE.to_owned(),
                        };
                        let call = ExternCall {
                            extern_definition: def.duplicate(),
                            file: self.file.clone(),
                            line: id.line,
                            column: id.column,
                            calling_function: caller,
                            package_id: self.package_id.clone(),
                        };
                        let ghost before = self.metrics.extern_calls@;
                        self.metrics.extern_calls.push(call);
                        assert(calls_view(self.metrics.extern_calls@) =~= calls_view(before).push(call@));
                    }
                }
                assert(calls_view(self.metrics.extern_calls@) =~= calls_view(old(self).metrics.extern_calls@)
                    + call_record(*callee, old(self).current(), old(self).env()));
                self.metrics.counters.exprs.count(self.unsafe_scopes > 0);
                self.visit_nodes(&n.children);
                assert(calls_view(self.metrics.extern_calls@) =~= calls_view(old(self).metrics.extern_calls@)
                    + node_calls(*n, old(self).tests(), old(self).current(), old(self).env()));
            },
            _ => {
                self.metrics.counters.exprs.count(self.unsafe_scopes > 0);
                self.visit_nodes(&n.children);
                assert(calls_view(self.metrics.extern_calls@) =~= calls_view(old(self).metrics.extern_calls@)
                    + node_calls(*n, old(self).tests(), old(self).current(), old(self).env()));
            },
        }
    }

    /// A free function: skipped when it is a test and tests are excluded;
    /// counted, as unsafe when marked `unsafe` or exported under a fixed
    /// symbol name; its body is visited as the current function, inside an
    /// unsafe region when marked `unsafe`.
    pub fn visit_item_fn(&mut self, sig: &Signature, attrs: &Vec<Attribute>, children: &Vec<Node>)
        requires
            old(self).extern_definitions.wf(),
            old(self).room_for(1 + forest_size(children@)),
        ensures
            final(self).after(old(self),
                if !old(self).tests() && is_test_fn_spec(attrs@) {
                    Tallies::zero()
                } else {
                    only_functions(Tally::one(fn_counts_unsafe(*sig, attrs@))).plus(
                        forest_tally(children@, old(self).tests(), old(self).unsafe_scopes > 0 || sig.unsafety))
                },
                if !old(self).tests() && is_test_fn_spec(attrs@) {
                    Seq::empty()
                } else {
                    forest_calls(children@, old(self).tests(), Some(sig.ident.name@), old(self).env())
                }),
        decreases children, 1nat,
    {
        if self.include_tests == IncludeTests::No && is_test_fn(attrs) {
            assert(calls_view(self.metrics.extern_calls@) =~= calls_view(old(self).metrics.extern_calls@) + Seq::empty());
            return;
        }
        let unsafe_fn = sig.unsafety || has_unsafe_attributes(attrs);
        if sig.unsafety {
            self.enter_unsafe_scope();
        }
        self.metrics.counters.functions.count(unsafe_fn);
        let before = self.current_function.take();
        self.current_function = Some(sig.ident.name.clone());
        self.visit_nodes(children);
        self.current_function = before;
        if sig.unsafety {
            self.exit_unsafe_scope();
        }
    }

    /// A method: counted, as unsafe when marked `unsafe` or exported under a
    /// fixed symbol name; its body is visited as the current function,
    /// inside an unsafe region when marked `unsafe`.
    pub fn visit_impl_item_method(&mut self, sig: &Signature, attrs: &Vec<Attribute>, children: &Vec<Node>)
        requires
            old(self).extern_definitions.wf(),
            old(self).room_for(1 + forest_size(children@)),
        ensures
            final(self).after(old(self),
                only_methods(Tally::one(fn_counts_unsafe(*sig, attrs@))).plus(
                    forest_tally(children@, old(self).tests(), old(self).unsafe_scopes > 0 || sig.unsafety)),
                forest_calls(children@, old(self).tests(), Some(sig.ident.name@), old(self).env())),
        decreases children, 1nat,
    {
        let unsafe_fn = sig.unsafety || has_unsafe_attributes(attrs);
        if sig.unsafety {
            self.enter_unsafe_scope();
        }
        self.metrics.counters.methods.count(unsafe_fn);
        let before = self.current_function.take();
        self.current_function = Some(sig.ident.name.clone());
        self.visit_nodes(children);
        self.current_function = before;
        if sig.unsafety {
            self.exit_unsafe_scope();
        }
    }

    /// A module: skipped when it builds for tests only and tests are
    /// excluded.
    pub fn visit_item_mod(&mut self, attrs: &Vec<Attribute>, children: &Vec<Node>)
        requires
            old(self).extern_definitions.wf(),
            old(self).room_for(1 + forest_size(children@)),
        ensures
            final(self).after(old(self),
                if !old(self).tests() && is_test_mod_spec(attrs@) {
                    Tallies::zero()
                } else {
                    forest_tally(children@, old(self).tests(), old(self).unsafe_scopes > 0)
                },
                if !old(self).tests() && is_test_mod_spec(attrs@) {
                    Seq::empty()
                } else {
                    forest_calls(children@, old(self).tests(), old(self).current(), old(self).env())
                }),
        decreases children, 1nat,
    {
        if self.include_tests == IncludeTests::No && is_test_mod(attrs) {
            assert(calls_view(self.metrics.extern_calls@) =~= calls_view(old(self).metrics.extern_calls@) + Seq::empty());
            return;
        }
        self.visit_nodes(children);
    }

    /// An impl block, counted as unsafe when marked `unsafe`.
    pub fn visit_item_impl(&mut self, unsafety: bool, children: &Vec<Node>)
        requires
            old(self).extern_definitions.wf(),
            old(self).room_for(1 + forest_size(children@)),
        ensures
            final(self).after(old(self),
                only_item_impls(Tally::one(unsafety)).plus(
                    forest_tally(children@, old(self).tests(), old(self).unsafe_scopes > 0)),
                forest_calls(children@, old(self).tests(), old(self).current(), old(self).env())),
        decreases children, 1nat,
    {
        self.metrics.counters.item_impls.count(unsafety);
        self.visit_nodes(children);
    }

    /// A trait definition, counted as unsafe when marked `unsafe`.
    pub fn visit_item_trait(&mut self, unsafety: bool, children: &Vec<Node>)
        requires
            old(self).extern_definitions.wf(),
            old(self).room_for(1 + forest_size(children@)),
        ensures
            final(self).after(old(self),
                only_item_traits(Tally::one(unsafety)).plus(
                    forest_tally(children@, old(self).tests(), old(self).unsafe_scopes > 0)),
                forest_calls(children@, old(self).tests(), old(self).current(), old(self).env())),
        decreases children, 1nat,
    {
        self.metrics.counters.item_traits.count(unsafety);
        self.visit_nodes(children);
    }
}

} // verus!
