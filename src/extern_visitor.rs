//! First pass over a unit: the table of foreign-boundary functions.
use vstd::prelude::*;
use crate::syntax::{text_is, Abi, FnArg, Node, NodeKind, Signature, SourceFile, TypeKind};

verus! {

/// Mathematical value of an [`ExternDefinition`].
pub struct ExternDefinitionView {
    pub file: Seq<char>,
    pub line: usize,
    pub column: usize,
    pub name: Seq<char>,
    pub contains_pointer_argument: bool,
    pub args: Seq<Seq<char>>,
}

/// A function found at a foreign boundary.
#[derive(Clone, Debug, PartialEq, Eq, Hash)]
pub struct ExternDefinition {
    pub file: String,
    pub line: usize,
    pub column: usize,
    pub name: String,
    pub contains_pointer_argument: bool,
    /// Source text of each parameter's type, receivers left out.
    pub args: Vec<String>,
}

impl View for ExternDefinition {
    type V = ExternDefinitionView;

    open spec fn view(&self) -> ExternDefinitionView {
        ExternDefinitionView {
            file: self.file@,
            line: self.line,
            column: self.column,
            name: self.name@,
            contains_pointer_argument: self.contains_pointer_argument,
            args: self.args.deep_view(),
        }
    }
}

fn copy_strings(v: &Vec<String>) -> (r: Vec<String>)
    ensures
        r.deep_view() == v.deep_view(),
{
    let r = v.clone();
    proof {
        assert(vstd::std_specs::vec::vec_clone_trigger(*v, r));
    }
    r
}

fn same_strings(a: &Vec<String>, b: &Vec<String>) -> (r: bool)
    ensures
        r == (a.deep_view() == b.deep_view()),
{
    assert(a.deep_view().len() == a@.len() && b.deep_view().len() == b@.len());
    if a.len() != b.len() {
        return false;
    }
    let mut i: usize = 0;
    while i < a.len()
        invariant
            i <= a.len(),
            a.len() == b.len(),
            forall|j: int| 0 <= j < i ==> a.deep_view()[j] == b.deep_view()[j],
        decreases a.len() - i,
    {
        assert(a.deep_view()[i as int] == a@[i as int]@ && b.deep_view()[i as int] == b@[i as int]@);
        if a[i] != b[i] {
            return false;
        }
        i = i + 1;
    }
    assert(a.deep_view() =~= b.deep_view());
    true
}

impl ExternDefinition {
    /// Whether two definitions are equal in every field.
    pub fn same_as(&self, other: &ExternDefinition) -> (r: bool)
        ensures
            r == (self@ == other@),
    {
        self.file == other.file
            && self.line == other.line
            && self.column == other.column
            && self.name == other.name
            && self.contains_pointer_argument == other.contains_pointer_argument
            && same_strings(&self.args, &other.args)
    }

    /// A copy with the same value.
    pub fn duplicate(&self) -> (r: ExternDefinition)
        ensures
            r@ == self@,
    {
        ExternDefinition {
            file: self.file.clone(),
            line: self.line,
            column: self.column,
            name: self.name.clone(),
            contains_pointer_argument: self.contains_pointer_argument,
            args: copy_strings(&self.args),
        }
    }
}

/// Whether native functions exported under a foreign ABI are recorded too.
#[derive(Clone, Copy, Debug, PartialEq, Eq, Structural)]
pub enum IncludeRustFunctions {
    No,
    Yes,
}

/// The foreign-boundary table of one unit, keyed by symbol name.
pub struct RsFileExternDefinitions {
    defs: Vec<ExternDefinition>,
    table: Ghost<Map<Seq<char>, ExternDefinitionView>>,
}

impl View for RsFileExternDefinitions {
    type V = Map<Seq<char>, ExternDefinitionView>;

    closed spec fn view(&self) -> Map<Seq<char>, ExternDefinitionView> {
        self.table@
    }
}

impl RsFileExternDefinitions {
    /// Each stored definition is the table's entry under its own name, and
    /// every key has one.
    pub closed spec fn wf(&self) -> bool {
        &&& forall|i: int| 0 <= i < self.defs@.len() ==> {
            &&& self.table@.contains_key(#[trigger] self.defs@[i].name@)
            &&& self.table@[self.defs@[i].name@] == self.defs@[i]@
        }
        &&& forall|k: Seq<char>| #[trigger] self.table@.contains_key(k) ==> exists|i: int|
            0 <= i < self.defs@.len() && #[trigger] self.defs@[i].name@ == k
        &&& forall|i: int, j: int|
            0 <= i < j < self.defs@.len() ==> self.defs@[i].name@ != self.defs@[j].name@
        &&& forall|k: Seq<char>| #[trigger] self.table@.contains_key(k) ==> self.table@[k].name == k
    }

    /// An empty table.
    pub fn new() -> (r: RsFileExternDefinitions)
        ensures
            r.wf(),
            r@ == Map::<Seq<char>, ExternDefinitionView>::empty(),
    {
        RsFileExternDefinitions { defs: Vec::new(), table: Ghost(Map::empty()) }
    }

    /// Number of definitions.
    pub fn len(&self) -> (r: usize)
        requires
            self.wf(),
        ensures
            r == self@.len(),
    {
        proof {
            let names = self.defs@.map_values(|d: ExternDefinition| d.name@);
            assert forall|i: int, j: int| 0 <= i < j < names.len() implies names[i] != names[j] by {}
            names.unique_seq_to_set();
            assert(names.to_set() =~= self.table@.dom()) by {
                assert forall|k: Seq<char>| names.to_set().contains(k) implies self.table@.dom().contains(k) by {
                    let i = choose|i: int| 0 <= i < names.len() && names[i] == k;
                    assert(self.table@.contains_key(self.defs@[i].name@));
                }
                assert forall|k: Seq<char>| self.table@.dom().contains(k) implies names.to_set().contains(k) by {
                    assert(self.table@.contains_key(k));
                    let i = choose|i: int| 0 <= i < self.defs@.len() && #[trigger] self.defs@[i].name@ == k;
                    assert(names[i] == k);
                }
            }
        }
        self.defs.len()
    }

    fn position(&self, name: &String) -> (r: Option<usize>)
        requires
            self.wf(),
        ensures
            match r {
                Some(i) => i < self.defs@.len() && self.defs@[i as int].name@ == name@,
                None => !self@.contains_key(name@),
            },
    {
        let mut i: usize = 0;
        while i < self.defs.len()
            invariant
                self.wf(),
                i <= self.defs@.len(),
                forall|j: int| 0 <= j < i ==> #[trigger] self.defs@[j].name@ != name@,
            decreases self.defs.len() - i,
        {
            if self.defs[i].name == *name {
                return Some(i);
            }
            i = i + 1;
        }
        None
    }

    /// The definition recorded under `name`, if any.
    pub fn get(&self, name: &String) -> (r: Option<&ExternDefinition>)
        requires
            self.wf(),
        ensures
            match r {
                Some(d) => self@.contains_key(name@) && d@ == self@[name@],
                None => !self@.contains_key(name@),
            },
    {
        match self.position(name) {
            Some(i) => Some(&self.defs[i]),
            None => None,
        }
    }

    /// Records `def` under its name, replacing an earlier definition of the
    /// same name.
    pub fn insert(&mut self, def: ExternDefinition)
        requires
            old(self).wf(),
        ensures
            final(self).wf(),
            final(self)@ == old(self)@.insert(def@.name, def@),
    {
        let ghost dv = def@;
        let ghost old_defs = self.defs@;
        let pos = self.position(&def.name);
        let ghost idx: int = match pos {
            Some(i) => i as int,
            None => old_defs.len() as int,
        };
        match pos {
            Some(i) => {
                self.defs.set(i, def);
            },
            None => {
                self.defs.push(def);
            },
        }
        self.table = Ghost(self.table@.insert(dv.name, dv));
        proof {
            assert(self.defs@[idx]@ == dv);
            assert forall|i: int| 0 <= i < self.defs@.len() && i != idx implies self.defs@[i].name@ != dv.name
                && self.defs@[i] == old_defs[i] by {
                if pos is None {
                    assert(old(self).table@.contains_key(old_defs[i].name@));
                }
            }
            assert forall|k: Seq<char>| #[trigger] self.table@.contains_key(k) implies exists|i: int|
                0 <= i < self.defs@.len() && #[trigger] self.defs@[i].name@ == k by {
                if k != dv.name {
                    let j = choose|j: int| 0 <= j < old_defs.len() && #[trigger] old_defs[j].name@ == k;
                    assert(self.defs@[j].name@ == k);
                } else {
                    assert(self.defs@[idx].name@ == k);
                }
            }
        }
    }
}

/// Whether a calling-convention tag names a convention other than the
/// native one.
pub open spec fn abi_is_foreign(abi: Abi) -> bool {
    abi.name is None || abi.name->0@ != "Rust"@
}

/// Source text of each typed parameter, in order.
pub open spec fn arg_texts(args: Seq<FnArg>) -> Seq<Seq<char>>
    decreases args.len(),
{
    if args.len() == 0 {
        Seq::empty()
    } else {
        let r = arg_texts(args.drop_last());
        match args.last() {
            FnArg::Receiver => r,
            FnArg::Typed(t) => r.push(t.text@),
        }
    }
}

/// Whether some typed parameter has a raw-pointer type.
pub open spec fn has_pointer_arg(args: Seq<FnArg>) -> bool {
    exists|i: int| 0 <= i < args.len() && (#[trigger] args[i] matches FnArg::Typed(t) && t.kind == TypeKind::Ptr)
}

/// The definition recorded for a function with signature `sig` in `file`.
pub open spec fn definition_of(file: Seq<char>, sig: Signature) -> ExternDefinitionView {
    ExternDefinitionView {
        file,
        line: sig.ident.line,
        column: sig.ident.column,
        name: sig.ident.name@,
        contains_pointer_argument: has_pointer_arg(sig.inputs@),
        args: arg_texts(sig.inputs@),
    }
}

/// The table after visiting `n` in pre-order, starting from `acc`;
/// `foreign` tells whether the enclosing foreign block's ABI is foreign.
pub open spec fn node_externs(
    n: Node,
    rust_fns: bool,
    foreign: bool,
    file: Seq<char>,
    acc: Map<Seq<char>, ExternDefinitionView>,
) -> Map<Seq<char>, ExternDefinitionView>
    decreases n,
{
    let here = match n.kind {
        NodeKind::Fn { sig, .. } => if rust_fns && sig.abi is Some && abi_is_foreign(sig.abi->0) {
            acc.insert(sig.ident.name@, definition_of(file, sig))
        } else {
            acc
        },
        NodeKind::ForeignFn { sig } => if foreign {
            acc.insert(sig.ident.name@, definition_of(file, sig))
        } else {
            acc
        },
        _ => acc,
    };
    let inner = match n.kind {
        NodeKind::ForeignMod { abi } => abi_is_foreign(abi),
        _ => foreign,
    };
    forest_externs(n.children@, rust_fns, inner, file, here)
}

/// The table after visiting the trees of `s` in order.
pub open spec fn forest_externs(
    s: Seq<Node>,
    rust_fns: bool,
    foreign: bool,
    file: Seq<char>,
    acc: Map<Seq<char>, ExternDefinitionView>,
) -> Map<Seq<char>, ExternDefinitionView>
    decreases s,
{
    if s.len() == 0 {
        acc
    } else {
        node_externs(s.last(), rust_fns, foreign, file, forest_externs(s.drop_last(), rust_fns, foreign, file, acc))
    }
}

/// The foreign-boundary table of a unit whose items are `items`.
pub open spec fn unit_externs(items: Seq<Node>, rust_fns: bool, file: Seq<char>) -> Map<Seq<char>, ExternDefinitionView> {
    forest_externs(items, rust_fns, false, file, Map::empty())
}

/// Source text of each typed parameter's type, receivers left out.
pub fn convert_fn_args_to_vec_type(args: &Vec<FnArg>) -> (r: Vec<String>)
    ensures
        r.deep_view() == arg_texts(args@),
{
    let mut r: Vec<String> = Vec::new();
    let mut i: usize = 0;
    while i < args.len()
        invariant
            i <= args.len(),
            r.deep_view() == arg_texts(args@.take(i as int)),
        decreases args.len() - i,
    {
        assert(args@.take(i + 1).drop_last() =~= args@.take(i as int));
        match &args[i] {
            FnArg::Receiver => {},
            FnArg::Typed(t) => {
                r.push(t.text.clone());
            },
        }
        i = i + 1;
        assert(r.deep_view() =~= arg_texts(args@.take(i as int)));
    }
    assert(args@.take(args.len() as int) =~= args@);
    r
}

/// Whether some typed parameter of `signature` has a raw-pointer type.
pub fn check_arguments_contain_pointer(signature: &Signature) -> (r: bool)
    ensures
        r == has_pointer_arg(signature.inputs@),
{
    let mut i: usize = 0;
    while i < signature.inputs.len()
        invariant
            i <= signature.inputs.len(),
            forall|j: int| 0 <= j < i ==> !(#[trigger] signature.inputs@[j] matches FnArg::Typed(t) && t.kind == TypeKind::Ptr),
        decreases signature.inputs.len() - i,
    {
        if let FnArg::Typed(t) = &signature.inputs[i] {
            if t.kind == TypeKind::Ptr {
                return true;
            }
        }
        i = i + 1;
    }
    false
}

/// The first pass: collects a unit's foreign-boundary functions.
pub struct ExternSynVisitor<'a> {
    pub file: &'a String,
    pub include_rust_fns: IncludeRustFunctions,
    /// The table built so far.
    pub extern_definitions: RsFileExternDefinitions,
    /// Whether the innermost enclosing foreign block has a foreign ABI.
    pub current_abi_foreign: bool,
}

impl<'a> ExternSynVisitor<'a> {
    pub open spec fn rust_fns(&self) -> bool {
        self.include_rust_fns == IncludeRustFunctions::Yes
    }

    /// A visitor for `file`, outside any foreign block, with an empty table.
    pub fn new(file: &'a String, include_rust_fns: IncludeRustFunctions) -> (r: Self)
        ensures
            r.file@ == file@,
            r.include_rust_fns == include_rust_fns,
            !r.current_abi_foreign,
            r.extern_definitions.wf(),
            r.extern_definitions@ == Map::<Seq<char>, ExternDefinitionView>::empty(),
    {
        ExternSynVisitor {
            file,
            include_rust_fns,
            extern_definitions: RsFileExternDefinitions::new(),
            current_abi_foreign: false,
        }
    }

    /// Whether `abi` names a convention other than the native one.
    pub fn is_not_rust_abi(&self, abi: &Abi) -> (r: bool)
        ensures
            r == abi_is_foreign(*abi),
    {
        match &abi.name {
            None => true,
            Some(name) => !text_is(name, "Rust"),
        }
    }

    fn definition(&self, sig: &Signature) -> (r: ExternDefinition)
        ensures
            r@ == definition_of(self.file@, *sig),
    {
        ExternDefinition {
            file: self.file.clone(),
            line: sig.ident.line,
            column: sig.ident.column,
            name: sig.ident.name.clone(),
            contains_pointer_argument: check_arguments_contain_pointer(sig),
            args: convert_fn_args_to_vec_type(&sig.inputs),
        }
    }

    /// Visits a whole unit.
    pub fn visit_file(&mut self, f: &SourceFile)
        requires
            old(self).extern_definitions.wf(),
        ensures
            final(self).extern_definitions.wf(),
            final(self).extern_definitions@ == forest_externs(
                f.items@, old(self).rust_fns(), old(self).current_abi_foreign, old(self).file@,
                old(self).extern_definitions@),
            final(self).file@ == old(self).file@,
            final(self).include_rust_fns == old(self).include_rust_fns,
            final(self).current_abi_foreign == old(self).current_abi_foreign,
    {
        self.visit_nodes(&f.items);
    }

    /// Visits the trees of `nodes` in order.
    pub fn visit_nodes(&mut self, nodes: &Vec<Node>)
        requires
            old(self).extern_definitions.wf(),
        ensures
            final(self).extern_definitions.wf(),
            final(self).extern_definitions@ == forest_externs(
                nodes@, old(self).rust_fns(), old(self).current_abi_foreign, old(self).file@,
                old(self).extern_definitions@),
            final(self).file@ == old(self).file@,
            final(self).include_rust_fns == old(self).include_rust_fns,
            final(self).current_abi_foreign == old(self).current_abi_foreign,
        decreases nodes, 0nat,
    {
        let ghost start = self.extern_definitions@;
        let mut i: usize = 0;
        while i < nodes.len()
            invariant
                i <= nodes.len(),
                self.extern_definitions.wf(),
                self.extern_definitions@ == forest_externs(
                    nodes@.take(i as int), self.rust_fns(), self.current_abi_foreign, self.file@, start),
                self.file@ == old(self).file@,
                self.include_rust_fns == old(self).include_rust_fns,
                self.current_abi_foreign == old(self).current_abi_foreign,
            decreases nodes.len() - i,
        {
            assert(nodes@.take(i + 1).drop_last() =~= nodes@.take(i as int));
            self.visit_node(&nodes[i]);
            i = i + 1;
        }
        assert(nodes@.take(nodes.len() as int) =~= nodes@);
    }

    /// Visits one tree.
    pub fn visit_node(&mut self, n: &Node)
        requires
            old(self).extern_definitions.wf(),
        ensures
            final(self).extern_definitions.wf(),
            final(self).extern_definitions@ == node_externs(
                *n, old(self).rust_fns(), old(self).current_abi_foreign, old(self).file@,
                old(self).extern_definitions@),
            final(self).file@ == old(self).file@,
            final(self).include_rust_fns == old(self).include_rust_fns,
            final(self).current_abi_foreign == old(self).current_abi_foreign,
        decreases *n, 2nat,
    {
        match &n.kind {
            NodeKind::Fn { sig, .. } => self.visit_item_fn(sig, &n.children),
            NodeKind::ForeignMod { abi } => self.visit_item_foreign_mod(abi, &n.children),
            NodeKind::ForeignFn { sig } => self.visit_foreign_item_fn(sig, &n.children),
            _ => self.visit_nodes(&n.children),
        }
    }

    /// A free function: recorded when native functions are included and its
    /// ABI is foreign; then its contents are visited.
    pub fn visit_item_fn(&mut self, sig: &Signature, children: &Vec<Node>)
        requires
            old(self).extern_definitions.wf(),
        ensures
            final(self).extern_definitions.wf(),
            final(self).extern_definitions@ == forest_externs(
                children@, old(self).rust_fns(), old(self).current_abi_foreign, old(self).file@,
                if old(self).rust_fns() && sig.abi is Some && abi_is_foreign(sig.abi->0) {
                    old(self).extern_definitions@.insert(sig.ident.name@, definition_of(old(self).file@, *sig))
                } else {
                    old(self).extern_definitions@
                }),
            final(self).file@ == old(self).file@,
            final(self).include_rust_fns == old(self).include_rust_fns,
            final(self).current_abi_foreign == old(self).current_abi_foreign,
        decreases children, 1nat,
    {
        if self.include_rust_fns == IncludeRustFunctions::Yes {
            if let Some(abi) = &sig.abi {
                if self.is_not_rust_abi(abi) {
                    let d = self.definition(sig);
                    self.extern_definitions.insert(d);
                }
            }
        }
        self.visit_nodes(children);
    }

    /// A foreign block: its contents are visited under its ABI.
    pub fn visit_item_foreign_mod(&mut self, abi: &Abi, children: &Vec<Node>)
        requires
            old(self).extern_definitions.wf(),
        ensures
            final(self).extern_definitions.wf(),
            final(self).extern_definitions@ == forest_externs(
                children@, old(self).rust_fns(), abi_is_foreign(*abi), old(self).file@,
                old(self).extern_definitions@),
            final(self).file@ == old(self).file@,
            final(self).include_rust_fns == old(self).include_rust_fns,
            final(self).current_abi_foreign == old(self).current_abi_foreign,
        decreases children, 1nat,
    {
        let before = self.current_abi_foreign;
        self.current_abi_foreign = self.is_not_rust_abi(abi);
        self.visit_nodes(children);
        self.current_abi_foreign = before;
    }

    /// A function declared in a foreign block: recorded when the block's
    /// ABI is foreign.
    pub fn visit_foreign_item_fn(&mut self, sig: &Signature, children: &Vec<Node>)
        requires
            old(self).extern_definitions.wf(),
        ensures
            final(self).extern_definitions.wf(),
            final(self).extern_definitions@ == forest_externs(
                children@, old(self).rust_fns(), old(self).current_abi_foreign, old(self).file@,
                if old(self).current_abi_foreign {
                    old(self).extern_definitions@.insert(sig.ident.name@, definition_of(old(self).file@, *sig))
                } else {
                    old(self).extern_definitions@
                }),
            final(self).file@ == old(self).file@,
            final(self).include_rust_fns == old(self).include_rust_fns,
            final(self).current_abi_foreign == old(self).current_abi_foreign,
        decreases children, 1nat,
    {
        if self.current_abi_foreign {
            let d = self.definition(sig);
            self.extern_definitions.insert(d);
        }
        self.visit_nodes(children);
    }
}

} // verus!
