use geiger::counts::{Count, CounterBlock};
use geiger::extern_visitor::{
    check_arguments_contain_pointer, convert_fn_args_to_vec_type, ExternSynVisitor,
    IncludeRustFunctions, RsFileExternDefinitions,
};
use geiger::find::{find_extern_in_file, find_unsafe_in_file, scan_unit};
use geiger::syntax::{
    file_forbids_unsafe, has_unsafe_attributes, is_test_fn, is_test_mod, unit_fits, Abi,
    Attribute, FnArg, Ident, Node, NodeKind, Signature, SourceFile, TypeKind, TypeSyntax,
};
use geiger::unsafe_visitor::{GeigerSynVisitor, IncludeTests, RsFileMetrics};

fn ident(name: &str, line: usize, column: usize) -> Ident {
    Ident { name: name.to_string(), line, column }
}

fn attr(path: &str, args: &[&str]) -> Attribute {
    Attribute { inner: false, path: path.to_string(), args: args.iter().map(|a| a.to_string()).collect() }
}

fn typed(kind: TypeKind, text: &str) -> FnArg {
    FnArg::Typed(TypeSyntax { kind, text: text.to_string() })
}

fn sig(name: &str, line: usize, column: usize, unsafety: bool, abi: Option<Option<&str>>, inputs: Vec<FnArg>) -> Signature {
    Signature {
        ident: ident(name, line, column),
        unsafety,
        abi: abi.map(|n| Abi { name: n.map(|s| s.to_string()) }),
        inputs,
    }
}

fn node(kind: NodeKind, children: Vec<Node>) -> Node {
    Node { kind, children }
}

fn leaf(kind: NodeKind) -> Node {
    node(kind, vec![])
}

fn expr(children: Vec<Node>) -> Node {
    node(NodeKind::Expr, children)
}

fn call(callee: Option<Ident>, children: Vec<Node>) -> Node {
    node(NodeKind::Call { callee }, children)
}

fn free_fn(s: Signature, attrs: Vec<Attribute>, body: Vec<Node>) -> Node {
    node(NodeKind::Fn { sig: s, attrs }, body)
}

fn unit(items: Vec<Node>) -> SourceFile {
    SourceFile { attrs: vec![], items }
}

fn scan(f: &SourceFile, tests: IncludeTests) -> RsFileMetrics {
    let defs = RsFileExternDefinitions::new();
    find_unsafe_in_file(&"src/lib.rs".to_string(), f, tests, &defs, &"pkg".to_string())
}

fn count(safe: u64, unsafe_: u64) -> Count {
    Count { safe, unsafe_ }
}

/// `extern "C" { fn snappy_compress(input: *const u8, input_length: size_t,
/// compressed: *mut u8, compressed_length: *mut size_t) -> c_int; }` with a
/// call inside `g`.
fn snappy_unit() -> SourceFile {
    let compress = node(
        NodeKind::ForeignFn {
            sig: sig("snappy_compress", 6, 7, false, None, vec![
                typed(TypeKind::Ptr, "*const u8"),
                typed(TypeKind::Path, "size_t"),
                typed(TypeKind::Ptr, "*mut u8"),
                typed(TypeKind::Ptr, "*mut size_t"),
            ]),
        },
        vec![],
    );
    let max_len = node(
        NodeKind::ForeignFn { sig: sig("snappy_max_compressed_length", 14, 7, false, None, vec![typed(TypeKind::Path, "size_t")]) },
        vec![],
    );
    let block = node(NodeKind::ForeignMod { abi: Abi { name: Some("C".to_string()) } }, vec![compress, max_len]);
    let body = vec![node(NodeKind::UnsafeBlock, vec![call(
        Some(ident("snappy_compress", 30, 8)),
        vec![leaf(NodeKind::Path), leaf(NodeKind::Path), leaf(NodeKind::Path), leaf(NodeKind::Path), leaf(NodeKind::Path)],
    )])];
    let g = free_fn(sig("g", 28, 7, false, None, vec![]), vec![], body);
    unit(vec![block, g])
}

#[test]
fn count_records_safe_and_unsafe() {
    let mut c = Count::zero();
    c.count(true);
    c.count(false);
    c.count(true);
    assert_eq!(c, count(1, 2));
    let mut d = count(4, 5);
    d.add(&c);
    assert_eq!(d, count(5, 7));
}

#[test]
fn counter_block_adds_pointwise() {
    let mut a = CounterBlock::zero();
    a.functions.count(true);
    a.exprs.count(false);
    let mut b = CounterBlock::zero();
    b.functions.count(false);
    b.methods.count(true);
    a.add(&b);
    assert_eq!(a.functions, count(1, 1));
    assert_eq!(a.exprs, count(1, 0));
    assert_eq!(a.methods, count(0, 1));
    assert_eq!(a.item_impls, count(0, 0));
}

#[test]
fn attribute_predicates() {
    assert!(is_test_fn(&vec![attr("inline", &[]), attr("test", &[])]));
    assert!(!is_test_fn(&vec![attr("cfg", &["test"])]));
    assert!(is_test_mod(&vec![attr("cfg", &["test"])]));
    assert!(!is_test_mod(&vec![attr("cfg", &["test", "unix"])]));
    assert!(!is_test_mod(&vec![attr("cfg", &["unix"])]));
    assert!(has_unsafe_attributes(&vec![attr("no_mangle", &[])]));
    assert!(has_unsafe_attributes(&vec![attr("export_name", &[])]));
    assert!(!has_unsafe_attributes(&vec![attr("inline", &[])]));
    let mut forbid = attr("forbid", &["unsafe_code"]);
    assert!(!file_forbids_unsafe(&vec![Attribute { inner: false, path: forbid.path.clone(), args: forbid.args.clone() }]));
    forbid.inner = true;
    assert!(file_forbids_unsafe(&vec![forbid]));
    let deny = Attribute { inner: true, path: "deny".to_string(), args: vec!["warnings".to_string(), "unsafe_code".to_string()] };
    assert!(file_forbids_unsafe(&vec![deny]));
    let other = Attribute { inner: true, path: "deny".to_string(), args: vec!["warnings".to_string()] };
    assert!(!file_forbids_unsafe(&vec![other]));
}

#[test]
fn forbids_flag_is_read_from_the_root() {
    let f = SourceFile {
        attrs: vec![Attribute { inner: true, path: "forbid".to_string(), args: vec!["unsafe_code".to_string()] }],
        items: vec![],
    };
    let m = scan(&f, IncludeTests::Yes);
    assert!(m.forbids_unsafe);
    assert!(!scan(&unit(vec![]), IncludeTests::Yes).forbids_unsafe);
}

#[test]
fn call_with_identifier_argument_counts_once() {
    // fn h() { f(x) }
    let body = vec![call(Some(ident("f", 2, 4)), vec![leaf(NodeKind::Path), leaf(NodeKind::Path)])];
    let f = unit(vec![free_fn(sig("h", 1, 3, false, None, vec![]), vec![], body)]);
    let m = scan(&f, IncludeTests::Yes);
    assert_eq!(m.counters.exprs, count(1, 0));
    assert_eq!(m.counters.functions, count(1, 0));
}

#[test]
fn literals_and_paths_alone_count_nothing() {
    let body = vec![leaf(NodeKind::Lit), leaf(NodeKind::Path), leaf(NodeKind::Lit)];
    let f = unit(vec![free_fn(sig("k", 1, 3, true, None, vec![]), vec![], body)]);
    let m = scan(&f, IncludeTests::Yes);
    assert_eq!(m.counters.exprs, count(0, 0));
    assert_eq!(m.counters.functions, count(0, 1));
}

#[test]
fn fixed_symbol_name_counts_function_unsafe() {
    let body = || vec![expr(vec![leaf(NodeKind::Lit)])];
    let no_mangle = free_fn(sig("h", 1, 7, false, None, vec![]), vec![attr("no_mangle", &[])], body());
    let export = free_fn(sig("e", 5, 7, false, None, vec![]), vec![attr("export_name", &[])], body());
    let plain = free_fn(sig("p", 9, 7, false, None, vec![]), vec![attr("inline", &[])], body());
    let m = scan(&unit(vec![no_mangle, export, plain]), IncludeTests::Yes);
    assert_eq!(m.counters.functions, count(1, 2));
    // the attribute alone opens no unsafe region for the body
    assert_eq!(m.counters.exprs, count(3, 0));
}

#[test]
fn unsafe_function_and_block_nesting() {
    // unsafe fn f() { a; unsafe { b; } c; }  fn g() { d; }
    let f = free_fn(sig("f", 1, 10, true, None, vec![]), vec![], vec![
        expr(vec![]),
        node(NodeKind::UnsafeBlock, vec![expr(vec![])]),
        expr(vec![]),
    ]);
    let g = free_fn(sig("g", 5, 3, false, None, vec![]), vec![], vec![expr(vec![])]);
    let file = unit(vec![f, g]);
    let defs = RsFileExternDefinitions::new();
    let path = "src/lib.rs".to_string();
    let pkg = "pkg".to_string();
    let mut vis = GeigerSynVisitor::new(IncludeTests::Yes, &defs, &path, &pkg);
    vis.visit_file(&file);
    assert_eq!(vis.unsafe_scopes, 0);
    assert_eq!(vis.metrics.counters.exprs, count(1, 3));
    assert_eq!(vis.metrics.counters.functions, count(1, 1));
}

#[test]
fn enter_and_exit_unsafe_scope() {
    let defs = RsFileExternDefinitions::new();
    let path = "a.rs".to_string();
    let pkg = "p".to_string();
    let mut vis = GeigerSynVisitor::new(IncludeTests::No, &defs, &path, &pkg);
    vis.enter_unsafe_scope();
    vis.enter_unsafe_scope();
    assert_eq!(vis.unsafe_scopes, 2);
    vis.exit_unsafe_scope();
    assert_eq!(vis.unsafe_scopes, 1);
    vis.exit_unsafe_scope();
    assert_eq!(vis.unsafe_scopes, 0);
    assert!(vis.current_function.is_none());
}

#[test]
fn impls_traits_and_methods() {
    let method = node(NodeKind::Method { sig: sig("m", 3, 15, true, None, vec![FnArg::Receiver]), attrs: vec![] }, vec![expr(vec![])]);
    let safe_method = node(NodeKind::Method { sig: sig("n", 4, 8, false, None, vec![]), attrs: vec![] }, vec![expr(vec![])]);
    let imp = node(NodeKind::Impl { unsafety: true }, vec![method, safe_method]);
    let tr = node(NodeKind::Trait { unsafety: false }, vec![]);
    let m = scan(&unit(vec![imp, tr]), IncludeTests::Yes);
    assert_eq!(m.counters.item_impls, count(0, 1));
    assert_eq!(m.counters.item_traits, count(1, 0));
    assert_eq!(m.counters.methods, count(1, 1));
    assert_eq!(m.counters.exprs, count(1, 1));
}

#[test]
fn test_module_toggle_changes_only_its_contribution() {
    let lib_fn = free_fn(sig("g", 1, 7, false, None, vec![]), vec![], vec![expr(vec![leaf(NodeKind::Path)])]);
    let test_fn = free_fn(sig("test_1", 9, 7, false, None, vec![]), vec![attr("test", &[])], vec![
        node(NodeKind::UnsafeBlock, vec![expr(vec![])]),
    ]);
    let module = node(NodeKind::Mod { attrs: vec![attr("cfg", &["test"])] }, vec![test_fn]);
    let f = unit(vec![lib_fn, module]);
    let with = scan(&f, IncludeTests::Yes);
    let without = scan(&f, IncludeTests::No);
    assert_eq!(with.counters.functions, count(2, 0));
    assert_eq!(with.counters.exprs, count(1, 1));
    assert_eq!(without.counters.functions, count(1, 0));
    assert_eq!(without.counters.exprs, count(1, 0));
    assert_eq!(with.counters.methods, without.counters.methods);
    assert_eq!(with.counters.item_impls, without.counters.item_impls);
    assert_eq!(with.counters.item_traits, without.counters.item_traits);
}

#[test]
fn foreign_call_is_attributed_to_its_caller() {
    let f = snappy_unit();
    let path = "/test/extern_file_content_string".to_string();
    let defs = find_extern_in_file(&path, &f, IncludeRustFunctions::No);
    assert_eq!(defs.len(), 2);
    let d = defs.get(&"snappy_compress".to_string()).unwrap();
    assert!(d.contains_pointer_argument);
    assert_eq!((d.line, d.column), (6, 7));
    assert_eq!(d.args, vec!["*const u8", "size_t", "*mut u8", "*mut size_t"]);
    let m = find_unsafe_in_file(&path, &f, IncludeTests::Yes, &defs, &"snappy 0.1.0".to_string());
    assert_eq!(m.extern_calls.len(), 1);
    let c = &m.extern_calls[0];
    assert_eq!(c.calling_function, "g");
    assert!(c.extern_definition.contains_pointer_argument);
    assert_eq!(c.extern_definition.name, "snappy_compress");
    assert_eq!((c.line, c.column), (30, 8));
    assert_eq!(c.file, path);
    assert_eq!(c.package_id, "snappy 0.1.0");
    assert_eq!(m.counters.exprs, count(0, 1));
}

#[test]
fn foreign_call_at_global_scope() {
    let decl = node(
        NodeKind::ForeignMod { abi: Abi { name: None } },
        vec![node(NodeKind::ForeignFn { sig: sig("ext", 2, 8, false, None, vec![]) }, vec![])],
    );
    let top = node(NodeKind::Expr, vec![call(Some(ident("ext", 5, 20)), vec![leaf(NodeKind::Path)])]);
    let f = unit(vec![decl, top]);
    let path = "a.rs".to_string();
    let defs = find_extern_in_file(&path, &f, IncludeRustFunctions::No);
    let m = find_unsafe_in_file(&path, &f, IncludeTests::Yes, &defs, &"p".to_string());
    assert_eq!(m.extern_calls.len(), 1);
    assert_eq!(m.extern_calls[0].calling_function, "__global_scope__");
}

#[test]
fn rust_abi_blocks_are_not_foreign() {
    let block = node(
        NodeKind::ForeignMod { abi: Abi { name: Some("Rust".to_string()) } },
        vec![node(NodeKind::ForeignFn { sig: sig("sys_tcp_stream_connect", 24, 7, false, None, vec![typed(TypeKind::Reference, "&[u8]")]) }, vec![])],
    );
    let exported = free_fn(sig("hello_from_rust", 28, 18, false, Some(Some("C")), vec![]), vec![attr("no_mangle", &[])], vec![]);
    let rust_fn = free_fn(sig("native", 31, 8, false, Some(Some("Rust")), vec![]), vec![], vec![]);
    let f = unit(vec![block, exported, rust_fn]);
    let path = "x.rs".to_string();
    let without = find_extern_in_file(&path, &f, IncludeRustFunctions::No);
    assert_eq!(without.len(), 0);
    let with = find_extern_in_file(&path, &f, IncludeRustFunctions::Yes);
    assert_eq!(with.len(), 1);
    let d = with.get(&"hello_from_rust".to_string()).unwrap();
    assert_eq!((d.line, d.column), (28, 18));
    assert!(!d.contains_pointer_argument);
    assert!(with.get(&"native".to_string()).is_none());
}

#[test]
fn later_definition_of_a_name_wins() {
    let first = node(NodeKind::ForeignFn { sig: sig("dup", 2, 8, false, None, vec![typed(TypeKind::Ptr, "*const u8")]) }, vec![]);
    let second = node(NodeKind::ForeignFn { sig: sig("dup", 7, 8, false, None, vec![]) }, vec![]);
    let f = unit(vec![
        node(NodeKind::ForeignMod { abi: Abi { name: Some("C".to_string()) } }, vec![first]),
        node(NodeKind::ForeignMod { abi: Abi { name: Some("C".to_string()) } }, vec![second]),
    ]);
    let defs = find_extern_in_file(&"d.rs".to_string(), &f, IncludeRustFunctions::No);
    assert_eq!(defs.len(), 1);
    let d = defs.get(&"dup".to_string()).unwrap();
    assert_eq!(d.line, 7);
    assert!(!d.contains_pointer_argument);
}

#[test]
fn argument_types_skip_the_receiver() {
    let args = vec![
        FnArg::Receiver,
        typed(TypeKind::Array, "[u8; 4]"),
        typed(TypeKind::Verbatim, "impl Fn() + 'a"),
        typed(TypeKind::Tuple, "(u8, i32)"),
    ];
    assert_eq!(convert_fn_args_to_vec_type(&args), vec!["[u8; 4]", "impl Fn() + 'a", "(u8, i32)"]);
    let s = sig("f", 1, 1, false, None, args);
    assert!(!check_arguments_contain_pointer(&s));
    let p = sig("f", 1, 1, false, None, vec![FnArg::Receiver, typed(TypeKind::Ptr, "*mut T")]);
    assert!(check_arguments_contain_pointer(&p));
}

#[test]
fn extern_visitor_reports_abi() {
    let path = "v.rs".to_string();
    let vis = ExternSynVisitor::new(&path, IncludeRustFunctions::Yes);
    assert!(vis.is_not_rust_abi(&Abi { name: None }));
    assert!(vis.is_not_rust_abi(&Abi { name: Some("C".to_string()) }));
    assert!(!vis.is_not_rust_abi(&Abi { name: Some("Rust".to_string()) }));
}

#[test]
fn small_units_fit_and_scan() {
    let f = snappy_unit();
    assert!(unit_fits(&f));
    let defs = RsFileExternDefinitions::new();
    let m = scan_unit(&"s.rs".to_string(), &f, IncludeTests::Yes, &defs, &"p".to_string()).unwrap();
    assert_eq!(m.counters.exprs, count(0, 1));
    assert!(m.extern_calls.is_empty());
}
