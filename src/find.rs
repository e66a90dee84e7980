//! Scanning one compilation unit: the two passes in order.
use vstd::prelude::*;
use crate::extern_visitor::{
    unit_externs, ExternSynVisitor, IncludeRustFunctions,
    RsFileExternDefinitions,
};
use crate::syntax::{file_forbids_unsafe_spec, file_size, unit_fits, SourceFile};
use crate::unsafe_visitor::{
    forest_calls, forest_tally, CallEnv, GeigerSynVisitor, IncludeTests, RsFileMetrics,
    UnitMetricsView,
};

verus! {

/// What the second pass finds in a unit.
pub open spec fn unit_metrics(unit: SourceFile, tests: bool, env: CallEnv) -> UnitMetricsView {
    UnitMetricsView {
        counters: forest_tally(unit.items@, tests, false),
        forbids_unsafe: file_forbids_unsafe_spec(unit.attrs@),
        extern_calls: forest_calls(unit.items@, tests, None, env),
    }
}

/// Scans the unit `unit`, read from `path` in package `package_id`, for
/// `unsafe` usage and for calls of the functions in `extern_definitions`.
pub fn find_unsafe_in_file(
    path: &String,
    unit: &SourceFile,
    include_tests: IncludeTests,
    extern_definitions: &RsFileExternDefinitions,
    package_id: &String,
) -> (r: RsFileMetrics)
    requires
        extern_definitions.wf(),
        file_size(*unit) <= u32::MAX,
    ensures
        r@ == unit_metrics(
            *unit,
            include_tests == IncludeTests::Yes,
            CallEnv { defs: extern_definitions@, file: path@, package_id: package_id@ },
        ),
{
    let mut vis = GeigerSynVisitor::new(include_tests, extern_definitions, path, package_id);
    vis.visit_file(unit);
    vis.metrics
}

/// [`find_unsafe_in_file`] for a unit of any size: `None` when the unit has
/// more nodes than the scan's counters can take.
pub fn scan_unit(
    path: &String,
    unit: &SourceFile,
    include_tests: IncludeTests,
    extern_definitions: &RsFileExternDefinitions,
    package_id: &String,
) -> (r: Option<RsFileMetrics>)
    requires
        extern_definitions.wf(),
    ensures
        r is Some <==> file_size(*unit) <= u32::MAX,
        r matches Some(m) ==> m@ == unit_metrics(
            *unit,
            include_tests == IncludeTests::Yes,
            CallEnv { defs: extern_definitions@, file: path@, package_id: package_id@ },
        ),
{
    if unit_fits(unit) {
        Some(find_unsafe_in_file(path, unit, include_tests, extern_definitions, package_id))
    } else {
        None
    }
}

/// The foreign-boundary table of the unit `unit`, read from `path`.
pub fn find_extern_in_file(
    path: &String,
    unit: &SourceFile,
    include_rust_fns: IncludeRustFunctions,
) -> (r: RsFileExternDefinitions)
    ensures
        r.wf(),
        r@ == unit_externs(unit.items@, include_rust_fns == IncludeRustFunctions::Yes, path@),
{
    let mut vis = ExternSynVisitor::new(path, include_rust_fns);
    vis.visit_file(unit);
    vis.extern_definitions
}

} // verus!
