//! A plain model of one compilation unit's syntax tree: the nodes that the
//! two scanning passes act on, each holding what those passes read, with
//! every other syntactic construct left transparent (its descendants hang
//! from the nearest modelled ancestor, in source order).
use vstd::prelude::*;

verus! {

/// A named item's identifier and where it starts.
#[derive(Clone, Debug, PartialEq, Eq)]
pub struct Ident {
    pub name: String,
    pub line: usize,
    pub column: usize,
}

/// An attribute, `#[path(arg, ..)]` or `#![path(arg, ..)]` when `inner`.
/// `args` holds the nested words of a list form, in order.
#[derive(Clone, Debug, PartialEq, Eq)]
pub struct Attribute {
    pub inner: bool,
    pub path: String,
    pub args: Vec<String>,
}

/// A calling-convention tag: `extern` alone has no name.
#[derive(Clone, Debug, PartialEq, Eq)]
pub struct Abi {
    pub name: Option<String>,
}

/// The shapes that a parameter's type can take. A shape that the parser
/// knows but this list does not is recorded as `Verbatim`.
#[derive(Clone, Copy, Debug, PartialEq, Eq, Structural)]
pub enum TypeKind {
    Array,
    BareFn,
    Group,
    ImplTrait,
    Infer,
    Macro,
    Never,
    Paren,
    Path,
    Ptr,
    Reference,
    Slice,
    TraitObject,
    Tuple,
    Verbatim,
}

/// A parameter's declared type: its shape and its literal source text.
#[derive(Clone, Debug, PartialEq, Eq)]
pub struct TypeSyntax {
    pub kind: TypeKind,
    pub text: String,
}

/// A function parameter: the receiver (`self`) or a typed one.
#[derive(Clone, Debug, PartialEq, Eq)]
pub enum FnArg {
    Receiver,
    Typed(TypeSyntax),
}

/// A function signature.
#[derive(Clone, Debug, PartialEq, Eq)]
pub struct Signature {
    pub ident: Ident,
    pub unsafety: bool,
    pub abi: Option<Abi>,
    pub inputs: Vec<FnArg>,
}

/// What a node of the tree is.
#[derive(Clone, Debug, PartialEq, Eq)]
pub enum NodeKind {
    /// A free function.
    Fn { sig: Signature, attrs: Vec<Attribute> },
    /// A method of an impl block.
    Method { sig: Signature, attrs: Vec<Attribute> },
    /// An impl block.
    Impl { unsafety: bool },
    /// A trait definition.
    Trait { unsafety: bool },
    /// A module declaration.
    Mod { attrs: Vec<Attribute> },
    /// A foreign declaration block `extern "abi" { .. }`.
    ForeignMod { abi: Abi },
    /// A function declared in a foreign block.
    ForeignFn { sig: Signature },
    /// An `unsafe { .. }` block expression.
    UnsafeBlock,
    /// A path expression; nothing beneath it is visited.
    Path,
    /// A literal expression; nothing beneath it is visited.
    Lit,
    /// A call expression; `callee` is the callee when it is a bare name.
    Call { callee: Option<Ident> },
    /// Any other expression.
    Expr,
}

/// A node with its children in source order.
pub struct Node {
    pub kind: NodeKind,
    pub children: Vec<Node>,
}

/// A compilation unit: its root-level attributes and its items.
pub struct SourceFile {
    pub attrs: Vec<Attribute>,
    pub items: Vec<Node>,
}

/// Number of nodes in a tree.
pub open spec fn node_size(n: Node) -> nat
    decreases n,
{
    1 + forest_size(n.children@)
}

/// Number of nodes in a sequence of trees.
pub open spec fn forest_size(s: Seq<Node>) -> nat
    decreases s,
{
    if s.len() == 0 {
        0
    } else {
        forest_size(s.drop_last()) + node_size(s.last())
    }
}

/// Number of nodes in a compilation unit.
pub open spec fn file_size(f: SourceFile) -> nat {
    forest_size(f.items@)
}

/// A prefix of a forest is no larger than the forest.
pub proof fn lemma_forest_size_prefix(s: Seq<Node>, i: int)
    requires
        0 <= i <= s.len(),
    ensures
        forest_size(s.take(i)) <= forest_size(s),
    decreases s.len() - i,
{
    if i < s.len() {
        lemma_forest_size_prefix(s, i + 1);
        assert(s.take(i + 1).drop_last() =~= s.take(i));
    } else {
        assert(s.take(i) =~= s);
    }
}

/// The number of nodes of `n` when it is at most `limit`.
pub fn node_count_within(n: &Node, limit: u64) -> (r: Option<u64>)
    ensures
        match r {
            Some(k) => k == node_size(*n) && k <= limit,
            None => node_size(*n) > limit,
        },
    decreases *n, 1nat,
{
    if limit == 0 {
        return None;
    }
    match forest_count_within(&n.children, limit - 1) {
        Some(k) => Some(k + 1),
        None => None,
    }
}

/// The number of nodes of the trees of `s` when it is at most `limit`.
pub fn forest_count_within(s: &Vec<Node>, limit: u64) -> (r: Option<u64>)
    ensures
        match r {
            Some(k) => k == forest_size(s@) && k <= limit,
            None => forest_size(s@) > limit,
        },
    decreases s, 0nat,
{
    let mut total: u64 = 0;
    let mut i: usize = 0;
    while i < s.len()
        invariant
            i <= s.len(),
            total == forest_size(s@.take(i as int)),
            total <= limit,
        decreases s.len() - i,
    {
        assert(s@.take(i + 1).drop_last() =~= s@.take(i as int));
        match node_count_within(&s[i], limit - total) {
            Some(k) => {
                total = total + k;
            },
            None => {
                proof {
                    lemma_forest_size_prefix(s@, i + 1);
                }
                return None;
            },
        }
        i = i + 1;
    }
    assert(s@.take(s.len() as int) =~= s@);
    Some(total)
}

/// Whether a unit is small enough for the counters of a scan: at most
/// `u32::MAX` nodes.
pub fn unit_fits(f: &SourceFile) -> (r: bool)
    ensures
        r == (file_size(*f) <= u32::MAX),
{
    forest_count_within(&f.items, 0xffff_ffff).is_some()
}

/// Whether `s` is the text `word`.
pub fn text_is(s: &String, word: &str) -> (r: bool)
    ensures
        r == (s@ == word@),
{
    let w = word.to_owned();
    *s == w
}

/// `#[test]`
pub open spec fn attr_marks_test(attr: Attribute) -> bool {
    attr.path@ == "test"@
}

/// `#[cfg(test)]`
pub open spec fn attr_marks_cfg_test(attr: Attribute) -> bool {
    attr.path@ == "cfg"@ && attr.args@.len() == 1 && attr.args@[0]@ == "test"@
}

/// `#[no_mangle]` or `#[export_name = ..]`: the symbol's name is fixed.
pub open spec fn attr_fixes_symbol(attr: Attribute) -> bool {
    attr.path@ == "no_mangle"@ || attr.path@ == "export_name"@
}

/// `#![forbid(unsafe_code)]` or `#![deny(unsafe_code)]`.
pub open spec fn attr_forbids_unsafe(attr: Attribute) -> bool {
    &&& attr.inner
    &&& (attr.path@ == "forbid"@ || attr.path@ == "deny"@)
    &&& exists|j: int| 0 <= j < attr.args@.len() && #[trigger] attr.args@[j]@ == "unsafe_code"@
}

pub open spec fn is_test_fn_spec(attrs: Seq<Attribute>) -> bool {
    exists|i: int| 0 <= i < attrs.len() && attr_marks_test(#[trigger] attrs[i])
}

pub open spec fn is_test_mod_spec(attrs: Seq<Attribute>) -> bool {
    exists|i: int| 0 <= i < attrs.len() && attr_marks_cfg_test(#[trigger] attrs[i])
}

pub open spec fn has_unsafe_attributes_spec(attrs: Seq<Attribute>) -> bool {
    exists|i: int| 0 <= i < attrs.len() && attr_fixes_symbol(#[trigger] attrs[i])
}

pub open spec fn file_forbids_unsafe_spec(attrs: Seq<Attribute>) -> bool {
    exists|i: int| 0 <= i < attrs.len() && attr_forbids_unsafe(#[trigger] attrs[i])
}

/// Whether a function's attributes mark it as a test.
pub fn is_test_fn(attrs: &Vec<Attribute>) -> (r: bool)
    ensures
        r == is_test_fn_spec(attrs@),
{
    let mut i: usize = 0;
    while i < attrs.len()
        invariant
            i <= attrs.len(),
            forall|j: int| 0 <= j < i ==> !attr_marks_test(#[trigger] attrs@[j]),
        decreases attrs.len() - i,
    {
        if text_is(&attrs[i].path, "test") {
            return true;
        }
        i = i + 1;
    }
    false
}

/// Whether a module's attributes mark it as compiled for tests only.
pub fn is_test_mod(attrs: &Vec<Attribute>) -> (r: bool)
    ensures
        r == is_test_mod_spec(attrs@),
{
    let mut i: usize = 0;
    while i < attrs.len()
        invariant
            i <= attrs.len(),
            forall|j: int| 0 <= j < i ==> !attr_marks_cfg_test(#[trigger] attrs@[j]),
        decreases attrs.len() - i,
    {
        let a = &attrs[i];
        if text_is(&a.path, "cfg") && a.args.len() == 1 && text_is(&a.args[0], "test") {
            return true;
        }
        i = i + 1;
    }
    false
}

/// Whether a function's attributes fix its exported symbol name.
pub fn has_unsafe_attributes(attrs: &Vec<Attribute>) -> (r: bool)
    ensures
        r == has_unsafe_attributes_spec(attrs@),
{
    let mut i: usize = 0;
    while i < attrs.len()
        invariant
            i <= attrs.len(),
            forall|j: int| 0 <= j < i ==> !attr_fixes_symbol(#[trigger] attrs@[j]),
        decreases attrs.len() - i,
    {
        if text_is(&attrs[i].path, "no_mangle") || text_is(&attrs[i].path, "export_name") {
            return true;
        }
        i = i + 1;
    }
    false
}

/// Whether one of `words` is `word`.
fn contains_word(words: &Vec<String>, word: &str) -> (r: bool)
    ensures
        r == exists|j: int| 0 <= j < words@.len() && #[trigger] words@[j]@ == word@,
{
    let mut i: usize = 0;
    while i < words.len()
        invariant
            i <= words.len(),
            forall|j: int| 0 <= j < i ==> #[trigger] words@[j]@ != word@,
        decreases words.len() - i,
    {
        if text_is(&words[i], word) {
            return true;
        }
        i = i + 1;
    }
    false
}

/// Whether a unit's root attributes forbid `unsafe` code in the whole unit.
pub fn file_forbids_unsafe(attrs: &Vec<Attribute>) -> (r: bool)
    ensures
        r == file_forbids_unsafe_spec(attrs@),
{
    let mut i: usize = 0;
    while i < attrs.len()
        invariant
            i <= attrs.len(),
            forall|j: int| 0 <= j < i ==> !attr_forbids_unsafe(#[trigger] attrs@[j]),
        decreases attrs.len() - i,
    {
        let a = &attrs[i];
        if a.inner && (text_is(&a.path, "forbid") || text_is(&a.path, "deny"))
            && contains_word(&a.args, "unsafe_code") {
            return true;
        }
        i = i + 1;
    }
    false
}

} // verus!
