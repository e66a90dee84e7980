use geiger::aggregate::{aggregate_package, build_report, PackageMetrics, Report};
use geiger::counts::Count;
use geiger::extern_visitor::RsFileExternDefinitions;
use geiger::find::find_unsafe_in_file;
use geiger::package::{PackageId, Source, Version};
use geiger::syntax::{Abi, Ident, Node, NodeKind, Signature, SourceFile};
use geiger::unsafe_visitor::{IncludeTests, RsFileMetrics};

fn version(major: u64, minor: u64, patch: u64) -> Version {
    Version { major, minor, patch, pre: String::new(), build: String::new() }
}

fn registry(name: &str, v: Version) -> PackageId {
    PackageId {
        name: name.to_string(),
        version: v,
        source: Source::Registry { name: "crates-io".to_string(), url: "https://github.com/rust-lang/crates.io-index".to_string() },
    }
}

fn local(name: &str, v: Version) -> PackageId {
    PackageId { name: name.to_string(), version: v, source: Source::Path("/home/u/dev/foo".to_string()) }
}

fn unit_metrics(forbids: bool, unsafe_exprs: usize, safe_exprs: usize) -> RsFileMetrics {
    let mut items = vec![];
    for _ in 0..unsafe_exprs {
        items.push(Node { kind: NodeKind::UnsafeBlock, children: vec![Node { kind: NodeKind::Expr, children: vec![] }] });
    }
    for _ in 0..safe_exprs {
        items.push(Node { kind: NodeKind::Expr, children: vec![] });
    }
    let attrs = if forbids {
        vec![geiger::syntax::Attribute { inner: true, path: "forbid".to_string(), args: vec!["unsafe_code".to_string()] }]
    } else {
        vec![]
    };
    let f = SourceFile { attrs, items };
    find_unsafe_in_file(&"f.rs".to_string(), &f, IncludeTests::Yes, &RsFileExternDefinitions::new(), &"p".to_string())
}

fn sorted_files(p: &PackageMetrics) -> Vec<(String, bool)> {
    let mut v = p.forbids_unsafe.clone();
    v.sort();
    v
}

#[test]
fn empty_package_has_zero_metrics() {
    let p = aggregate_package(&vec![]);
    assert_eq!(p.counters.functions, Count { safe: 0, unsafe_: 0 });
    assert_eq!(p.counters.exprs, Count { safe: 0, unsafe_: 0 });
    assert_eq!(p.counters.methods, Count { safe: 0, unsafe_: 0 });
    assert!(p.forbids_unsafe.is_empty());
    assert!(p.extern_calls.is_empty());
    let q = PackageMetrics::new();
    assert_eq!(q.counters, p.counters);
}

#[test]
fn package_merge_order_does_not_matter() {
    let a = ("a.rs".to_string(), unit_metrics(true, 2, 1));
    let b = ("b.rs".to_string(), unit_metrics(false, 0, 3));
    let c = ("c.rs".to_string(), unit_metrics(false, 1, 0));
    let p1 = aggregate_package(&vec![
        ("a.rs".to_string(), unit_metrics(true, 2, 1)),
        ("b.rs".to_string(), unit_metrics(false, 0, 3)),
        ("c.rs".to_string(), unit_metrics(false, 1, 0)),
    ]);
    let p2 = aggregate_package(&vec![c, a, b]);
    assert_eq!(p1.counters, p2.counters);
    assert_eq!(p1.counters.exprs, Count { safe: 4, unsafe_: 3 });
    assert_eq!(sorted_files(&p1), sorted_files(&p2));
    assert_eq!(sorted_files(&p1), vec![("a.rs".to_string(), true), ("b.rs".to_string(), false), ("c.rs".to_string(), false)]);
}

#[test]
fn merge_unit_adds_counts_and_records_the_file() {
    let mut p = PackageMetrics::new();
    p.merge_unit(&"x.rs".to_string(), &unit_metrics(false, 1, 2));
    p.merge_unit(&"y.rs".to_string(), &unit_metrics(true, 0, 1));
    assert_eq!(p.counters.exprs, Count { safe: 3, unsafe_: 1 });
    assert_eq!(p.forbids_unsafe, vec![("x.rs".to_string(), false), ("y.rs".to_string(), true)]);
}

#[test]
fn same_name_and_version_from_two_sources_stay_apart() {
    let a = registry("foo", version(1, 0, 0));
    let b = local("foo", version(1, 0, 0));
    assert!(!a.same_as(&b));
    assert!(a.same_as(&registry("foo", version(1, 0, 0))));
    let mut pa = PackageMetrics::new();
    pa.merge_unit(&"a.rs".to_string(), &unit_metrics(false, 1, 0));
    let mut pb = PackageMetrics::new();
    pb.merge_unit(&"b.rs".to_string(), &unit_metrics(false, 0, 2));
    let r = build_report(vec![(a, pa), (b, pb)]);
    assert_eq!(r.entries().len(), 2);
    let ra = r.get(&registry("foo", version(1, 0, 0))).unwrap();
    assert_eq!(ra.counters.exprs, Count { safe: 0, unsafe_: 1 });
    let rb = r.get(&local("foo", version(1, 0, 0))).unwrap();
    assert_eq!(rb.counters.exprs, Count { safe: 2, unsafe_: 0 });
}

#[test]
fn report_does_not_depend_on_package_order() {
    let make = |order: &[usize]| {
        let mut v = vec![];
        for &i in order {
            let mut m = PackageMetrics::new();
            m.merge_unit(&format!("{}.rs", i), &unit_metrics(i % 2 == 0, i, 1));
            v.push((registry(&format!("p{}", i), version(0, i as u64, 0)), m));
        }
        build_report(v)
    };
    let r1 = make(&[0, 1, 2, 3]);
    let r2 = make(&[3, 1, 0, 2]);
    assert_eq!(r1.entries().len(), 4);
    for (id, m) in r1.entries() {
        let other = r2.get(id).unwrap();
        assert_eq!(other.counters, m.counters);
        assert_eq!(other.forbids_unsafe, m.forbids_unsafe);
    }
}

#[test]
fn adding_a_package_twice_merges_it() {
    let mut r = Report::new();
    let mut m1 = PackageMetrics::new();
    m1.merge_unit(&"a.rs".to_string(), &unit_metrics(false, 1, 0));
    let mut m2 = PackageMetrics::new();
    m2.merge_unit(&"b.rs".to_string(), &unit_metrics(false, 0, 1));
    r.add_package(registry("q", version(2, 0, 1)), m1);
    r.add_package(registry("q", version(2, 0, 1)), m2);
    assert_eq!(r.entries().len(), 1);
    let m = r.get(&registry("q", version(2, 0, 1))).unwrap();
    assert_eq!(m.counters.exprs, Count { safe: 1, unsafe_: 1 });
    assert_eq!(m.forbids_unsafe.len(), 2);
}

#[test]
fn package_id_text() {
    let a = registry("serde", version(1, 0, 130));
    assert_eq!(a.to_string(), "serde 1.0.130 (registry+https://github.com/rust-lang/crates.io-index)");
    let b = PackageId {
        name: "geiger".to_string(),
        version: Version { major: 0, minor: 10, patch: 2, pre: "alpha.1".to_string(), build: "b5".to_string() },
        source: Source::Git { url: "https://github.com/x/y".to_string(), rev: "abc".to_string() },
    };
    assert_eq!(b.to_string(), "geiger 0.10.2-alpha.1+b5 (git+https://github.com/x/y)");
    let c = local("foo", version(18446744073709551615, 0, 9));
    assert_eq!(c.to_string(), "foo 18446744073709551615.0.9 (file+/home/u/dev/foo)");
    assert_eq!(version(3, 4, 5).to_string(), "3.4.5");
}

fn foreign_unit(calls: &[&str]) -> SourceFile {
    let decl = |name: &str, line: usize| Node {
        kind: NodeKind::ForeignFn {
            sig: Signature { ident: Ident { name: name.to_string(), line, column: 7 }, unsafety: false, abi: None, inputs: vec![] },
        },
        children: vec![],
    };
    let block = Node { kind: NodeKind::ForeignMod { abi: Abi { name: Some("C".to_string()) } }, children: vec![decl("a", 2), decl("b", 3)] };
    let mut items = vec![block];
    for (i, c) in calls.iter().enumerate() {
        items.push(Node {
            kind: NodeKind::Call { callee: Some(Ident { name: c.to_string(), line: 10 + i, column: 4 }) },
            children: vec![Node { kind: NodeKind::Path, children: vec![] }],
        });
    }
    SourceFile { attrs: vec![], items }
}

#[test]
fn calls_are_grouped_by_definition() {
    let f = foreign_unit(&["a", "b", "a", "zzz", "a"]);
    let path = "ffi.rs".to_string();
    let defs = geiger::find::find_extern_in_file(&path, &f, geiger::extern_visitor::IncludeRustFunctions::No);
    let m = find_unsafe_in_file(&path, &f, IncludeTests::Yes, &defs, &"p".to_string());
    assert_eq!(m.extern_calls.len(), 4);
    let mut p = PackageMetrics::new();
    p.merge_unit(&path, &m);
    let groups = p.calls_by_definition();
    assert_eq!(groups.len(), 2);
    let (da, ca) = groups.iter().find(|(d, _)| d.name == "a").unwrap();
    assert_eq!(da.line, 2);
    assert_eq!(ca.iter().map(|c| c.line).collect::<Vec<_>>(), vec![10, 12, 14]);
    let (_, cb) = groups.iter().find(|(d, _)| d.name == "b").unwrap();
    assert_eq!(cb.iter().map(|c| c.line).collect::<Vec<_>>(), vec![11]);
}
