//! Package identity: name, version and source.
use vstd::prelude::*;

verus! {

/// A semantic version: `major.minor.patch`, with an optional pre-release
/// and build metadata (empty when absent).
#[derive(Clone, Debug, PartialEq, Eq, Hash, PartialOrd, Ord)]
pub struct Version {
    pub major: u64,
    pub minor: u64,
    pub patch: u64,
    pub pre: String,
    pub build: String,
}

/// Mathematical value of a [`Version`].
pub struct VersionView {
    pub major: u64,
    pub minor: u64,
    pub patch: u64,
    pub pre: Seq<char>,
    pub build: Seq<char>,
}

impl View for Version {
    type V = VersionView;

    open spec fn view(&self) -> VersionView {
        VersionView { major: self.major, minor: self.minor, patch: self.patch, pre: self.pre@, build: self.build@ }
    }
}

/// Where a package comes from.
#[derive(Clone, Debug, PartialEq, Eq, Hash, PartialOrd, Ord)]
pub enum Source {
    Git { url: String, rev: String },
    Registry { name: String, url: String },
    Path(String),
}

/// Mathematical value of a [`Source`].
pub enum SourceView {
    Git { url: Seq<char>, rev: Seq<char> },
    Registry { name: Seq<char>, url: Seq<char> },
    Path(Seq<char>),
}

impl View for Source {
    type V = SourceView;

    open spec fn view(&self) -> SourceView {
        match self {
            Source::Git { url, rev } => SourceView::Git { url: url@, rev: rev@ },
            Source::Registry { name, url } => SourceView::Registry { name: name@, url: url@ },
            Source::Path(p) => SourceView::Path(p@),
        }
    }
}

/// Identifies a package in the dependency graph. Two packages are the same
/// only when name, version and source all agree.
#[derive(Clone, Debug, PartialEq, Eq, Hash, PartialOrd, Ord)]
pub struct PackageId {
    pub name: String,
    pub version: Version,
    pub source: Source,
}

/// Mathematical value of a [`PackageId`].
pub struct PackageIdView {
    pub name: Seq<char>,
    pub version: VersionView,
    pub source: SourceView,
}

impl View for PackageId {
    type V = PackageIdView;

    open spec fn view(&self) -> PackageIdView {
        PackageIdView { name: self.name@, version: self.version@, source: self.source@ }
    }
}

/// The decimal digit of `d`.
pub open spec fn digit(d: nat) -> char {
    if d == 0 { '0' }
    else if d == 1 { '1' }
    else if d == 2 { '2' }
    else if d == 3 { '3' }
    else if d == 4 { '4' }
    else if d == 5 { '5' }
    else if d == 6 { '6' }
    else if d == 7 { '7' }
    else if d == 8 { '8' }
    else { '9' }
}

/// The decimal numeral of `n`, without leading zeros.
pub open spec fn decimal(n: nat) -> Seq<char>
    decreases n,
{
    if n < 10 {
        seq![digit(n)]
    } else {
        decimal(n / 10).push(digit(n % 10))
    }
}

/// `major.minor.patch`, then `-pre` and `+build` when they are not empty.
pub open spec fn version_text(v: VersionView) -> Seq<char> {
    let core = decimal(v.major as nat) + seq!['.'] + decimal(v.minor as nat) + seq!['.'] + decimal(v.patch as nat);
    let with_pre = if v.pre.len() == 0 { core } else { core + seq!['-'] + v.pre };
    if v.build.len() == 0 { with_pre } else { with_pre + seq!['+'] + v.build }
}

/// `git+url`, `registry+url` or `file+path`.
pub open spec fn source_text(s: SourceView) -> Seq<char> {
    match s {
        SourceView::Git { url, .. } => "git+"@ + url,
        SourceView::Registry { url, .. } => "registry+"@ + url,
        SourceView::Path(p) => "file+"@ + p,
    }
}

/// `name version (source)`.
pub open spec fn package_id_text(p: PackageIdView) -> Seq<char> {
    p.name + seq![' '] + version_text(p.version) + " ("@ + source_text(p.source) + ")"@
}

fn digit_str(d: u64) -> (r: &'static str)
    requires
        d < 10,
    ensures
        r@ == seq![digit(d as nat)],
{
    proof {
        reveal_strlit("0");
        reveal_strlit("1");
        reveal_strlit("2");
        reveal_strlit("3");
        reveal_strlit("4");
        reveal_strlit("5");
        reveal_strlit("6");
        reveal_strlit("7");
        reveal_strlit("8");
        reveal_strlit("9");
    }
    if d == 0 { "0" }
    else if d == 1 { "1" }
    else if d == 2 { "2" }
    else if d == 3 { "3" }
    else if d == 4 { "4" }
    else if d == 5 { "5" }
    else if d == 6 { "6" }
    else if d == 7 { "7" }
    else if d == 8 { "8" }
    else { "9" }
}

fn push_decimal(s: &mut String, n: u64)
    ensures
        final(s)@ == old(s)@ + decimal(n as nat),
    decreases n,
{
    if n >= 10 {
        push_decimal(s, n / 10);
    }
    s.append(digit_str(n % 10));
    proof {
        if n >= 10 {
            assert(final(s)@ =~= old(s)@ + decimal(n as nat));
        } else {
            assert(final(s)@ =~= old(s)@ + decimal(n as nat));
        }
    }
}

impl Version {
    /// The version written out: `1.2.3`, `1.2.3-alpha.1+build.5`.
    pub fn to_string(&self) -> (r: String)
        ensures
            r@ == version_text(self@),
    {
        proof {
            reveal_strlit(".");
            reveal_strlit("-");
            reveal_strlit("+");
        }
        let mut s = String::new();
        push_decimal(&mut s, self.major);
        s.append(".");
        push_decimal(&mut s, self.minor);
        s.append(".");
        push_decimal(&mut s, self.patch);
        let ghost core = s@;
        if !self.pre.as_str().is_empty() {
            s.append("-");
            s.append(self.pre.as_str());
        }
        let ghost with_pre = s@;
        if !self.build.as_str().is_empty() {
            s.append("+");
            s.append(self.build.as_str());
        }
        proof {
            assert(core =~= decimal(self.major as nat) + seq!['.'] + decimal(self.minor as nat) + seq!['.'] + decimal(self.patch as nat));
            assert(s@ =~= version_text(self@));
        }
        s
    }
}

impl Source {
    /// The source written out with its kind: `git+url`, `registry+url` or
    /// `file+path`.
    pub fn to_string(&self) -> (r: String)
        ensures
            r@ == source_text(self@),
    {
        match self {
            Source::Git { url, .. } => {
                let mut s = "git+".to_owned();
                s.append(url.as_str());
                s
            },
            Source::Registry { url, .. } => {
                let mut s = "registry+".to_owned();
                s.append(url.as_str());
                s
            },
            Source::Path(p) => {
                let mut s = "file+".to_owned();
                s.append(p.as_str());
                s
            },
        }
    }

    /// Whether two sources are the same.
    pub fn same_as(&self, other: &Source) -> (r: bool)
        ensures
            r == (self@ == other@),
    {
        match (self, other) {
            (Source::Git { url: a, rev: b }, Source::Git { url: c, rev: d }) => *a == *c && *b == *d,
            (Source::Registry { name: a, url: b }, Source::Registry { name: c, url: d }) => *a == *c && *b == *d,
            (Source::Path(a), Source::Path(c)) => *a == *c,
            _ => false,
        }
    }
}

impl PackageId {
    /// `name version (source)`, as in `foo 1.0.0 (registry+https://..)`.
    pub fn to_string(&self) -> (r: String)
        ensures
            r@ == package_id_text(self@),
    {
        proof {
            reveal_strlit(" ");
            reveal_strlit(" (");
            reveal_strlit(")");
        }
        let mut s = self.name.clone();
        s.append(" ");
        let v = self.version.to_string();
        s.append(v.as_str());
        s.append(" (");
        let src = self.source.to_string();
        s.append(src.as_str());
        s.append(")");
        proof {
            assert(s@ =~= package_id_text(self@));
        }
        s
    }

    /// Whether two identities are the same: equal names, versions and
    /// sources.
    pub fn same_as(&self, other: &PackageId) -> (r: bool)
        ensures
            r == (self@ == other@),
    {
        self.name == other.name
            && self.version.major == other.version.major
            && self.version.minor == other.version.minor
            && self.version.patch == other.version.patch
            && self.version.pre == other.version.pre
            && self.version.build == other.version.build
            && self.source.same_as(&other.source)
    }
}

} // verus!
