//! Canonical component identities: where a component comes from, under
//! which name it is exported, and the deterministic group id derived from
//! those fields alone.
use vstd::prelude::*;
use vstd::string::*;

use crate::source::SourceLocation;
use crate::source::SourceLocationV;

verus! {

/// A package's identity: its name and version.
#[derive(Debug, PartialEq, Eq, Hash)]
pub struct Package {
    pub name: String,
    pub version: String,
}

pub ghost struct PackageV {
    pub name: Seq<char>,
    pub version: Seq<char>,
}

impl View for Package {
    type V = PackageV;

    open spec fn view(&self) -> PackageV {
        PackageV { name: self.name@, version: self.version@ }
    }
}

impl DeepView for Package {
    type V = PackageV;

    open spec fn deep_view(&self) -> PackageV {
        self.view()
    }
}

impl Package {
    pub fn new(name: String, version: String) -> (r: Self)
        ensures
            r@ == (PackageV { name: name@, version: version@ }),
    {
        Package { name, version }
    }

    pub fn name(&self) -> (r: &str)
        ensures
            r@ == self@.name,
    {
        self.name.as_str()
    }

    pub fn version(&self) -> (r: &str)
        ensures
            r@ == self@.version,
    {
        self.version.as_str()
    }
}

/// Where a component definition lives: inside the project, in an installed
/// package, or on the platform itself.
#[derive(Debug, PartialEq, Eq, Hash)]
pub enum ComponentSource {
    Internal { canonical_path: String },
    External { package: Package },
    Native,
}

pub ghost enum ComponentSourceV {
    Internal { canonical_path: Seq<char> },
    External { package: PackageV },
    Native,
}

impl View for ComponentSource {
    type V = ComponentSourceV;

    open spec fn view(&self) -> ComponentSourceV {
        match self {
            ComponentSource::Internal { canonical_path } => ComponentSourceV::Internal {
                canonical_path: canonical_path@,
            },
            ComponentSource::External { package } => ComponentSourceV::External {
                package: package@,
            },
            ComponentSource::Native => ComponentSourceV::Native,
        }
    }
}

impl DeepView for ComponentSource {
    type V = ComponentSourceV;

    open spec fn deep_view(&self) -> ComponentSourceV {
        self.view()
    }
}

/// The name by which a component is exposed from its defining module.
#[derive(Debug, PartialEq, Eq, Hash)]
pub enum ExportName {
    Direct(String),
    Member { object: String, property: String },
}

pub ghost enum ExportNameV {
    Direct(Seq<char>),
    Member { object: Seq<char>, property: Seq<char> },
}

impl View for ExportName {
    type V = ExportNameV;

    open spec fn view(&self) -> ExportNameV {
        match self {
            ExportName::Direct(name) => ExportNameV::Direct(name@),
            ExportName::Member { object, property } => ExportNameV::Member {
                object: object@,
                property: property@,
            },
        }
    }
}

impl DeepView for ExportName {
    type V = ExportNameV;

    open spec fn deep_view(&self) -> ExportNameV {
        self.view()
    }
}

/// The display form of an export name: the name itself, or
/// `object.property`.
pub open spec fn export_display_name(e: ExportNameV) -> Seq<char> {
    match e {
        ExportNameV::Direct(name) => name,
        ExportNameV::Member { object, property } => object + seq!['.'] + property,
    }
}

impl ExportName {
    pub fn direct(name: String) -> (r: Self)
        ensures
            r@ == ExportNameV::Direct(name@),
    {
        ExportName::Direct(name)
    }

    pub fn member(object: String, property: String) -> (r: Self)
        ensures
            r@ == (ExportNameV::Member { object: object@, property: property@ }),
    {
        ExportName::Member { object, property }
    }

    pub fn display_name(&self) -> (r: String)
        ensures
            r@ == export_display_name(self@),
    {
        match self {
            ExportName::Direct(name) => name.clone(),
            ExportName::Member { object, property } => {
                let mut s = object.clone();
                crate::text::push_char(&mut s, '.');
                s.append(property.as_str());
                proof {
                    assert(s@ =~= object@ + seq!['.'] + property@);
                }
                s
            },
        }
    }
}

/// The sole grouping key: two occurrences belong to the same component
/// exactly when their identities are structurally equal.
#[derive(Debug, PartialEq, Eq, Hash)]
pub struct ComponentIdentity {
    pub source: ComponentSource,
    pub export_name: ExportName,
    pub package: Option<Package>,
}

pub ghost struct ComponentIdentityV {
    pub source: ComponentSourceV,
    pub export_name: ExportNameV,
    pub package: Option<PackageV>,
}

impl View for ComponentIdentity {
    type V = ComponentIdentityV;

    open spec fn view(&self) -> ComponentIdentityV {
        ComponentIdentityV {
            source: self.source@,
            export_name: self.export_name@,
            package: self.package.deep_view(),
        }
    }
}

impl DeepView for ComponentIdentity {
    type V = ComponentIdentityV;

    open spec fn deep_view(&self) -> ComponentIdentityV {
        self.view()
    }
}

/// The identity a native tag resolves to.
pub open spec fn native_identity(tag: Seq<char>) -> ComponentIdentityV {
    ComponentIdentityV {
        source: ComponentSourceV::Native,
        export_name: ExportNameV::Direct(tag),
        package: None,
    }
}

/// One character of the id encoding: `%` and `:` are escaped so that the
/// encoded field never holds a separator.
pub open spec fn esc_char(c: char) -> Seq<char> {
    if c == '%' {
        seq!['%', 'p']
    } else if c == ':' {
        seq!['%', 'c']
    } else {
        seq![c]
    }
}

/// A field of the id encoding, escaped character by character.
pub open spec fn esc(s: Seq<char>) -> Seq<char>
    decreases s.len(),
{
    if s.len() == 0 {
        Seq::<char>::empty()
    } else {
        esc_char(s[0]) + esc(s.drop_first())
    }
}

/// The id segment an export name contributes.
pub open spec fn export_name_code(e: ExportNameV) -> Seq<char> {
    match e {
        ExportNameV::Direct(name) => "d:"@ + esc(name),
        ExportNameV::Member { object, property } => "m:"@ + esc(object) + seq![':'] + esc(
            property,
        ),
    }
}

/// The id segment the optional package contributes.
pub open spec fn package_code(p: Option<PackageV>) -> Seq<char> {
    match p {
        None => "-"@,
        Some(pkg) => "p:"@ + esc(pkg.name) + seq![':'] + esc(pkg.version),
    }
}

/// The group id: a pure function of the identity's fields and of nothing
/// else, so it is stable across runs and independent of usage order.
pub open spec fn id_of(id: ComponentIdentityV) -> Seq<char> {
    match id.source {
        ComponentSourceV::Native => "native:"@ + export_name_code(id.export_name) + seq![':']
            + package_code(id.package),
        ComponentSourceV::Internal { canonical_path } => "internal:"@ + esc(canonical_path) + seq![
            ':',
        ] + export_name_code(id.export_name) + seq![':'] + package_code(id.package),
        ComponentSourceV::External { package } => "external:"@ + esc(package.name) + seq![':']
            + esc(package.version) + seq![':'] + export_name_code(id.export_name) + seq![':']
            + package_code(id.package),
    }
}

proof fn lemma_esc_len(s: Seq<char>)
    ensures
        esc(s).len() >= s.len(),
    decreases s.len(),
{
    if s.len() > 0 {
        lemma_esc_len(s.drop_first());
    }
}

/// Escaping loses nothing: two distinct fields encode to distinct segments.
proof fn lemma_esc_injective(a: Seq<char>, b: Seq<char>)
    requires
        esc(a) == esc(b),
    ensures
        a == b,
    decreases a.len(),
{
    if a.len() == 0 {
        if b.len() > 0 {
            lemma_esc_len(b);
            assert(esc(b).len() > 0);
        }
        assert(a =~= b);
    } else if b.len() == 0 {
        lemma_esc_len(a);
        assert(esc(a).len() > 0);
        assert(false);
    } else {
        let ea = esc_char(a[0]);
        let eb = esc_char(b[0]);
        assert(esc(a) == ea + esc(a.drop_first()));
        assert(esc(b) == eb + esc(b.drop_first()));
        lemma_esc_len(a.drop_first());
        lemma_esc_len(b.drop_first());
        if a[0] == '%' || a[0] == ':' {
            assert(esc(a)[0] == '%');
            if !(b[0] == '%' || b[0] == ':') {
                assert(esc(b)[0] == b[0]);
                assert(b[0] == '%');
                assert(false);
            }
            assert(esc(a)[1] == ea[1]);
            assert(esc(b)[1] == eb[1]);
            assert(ea[1] == eb[1]);
            assert(a[0] == b[0]);
            assert(esc(a).subrange(2, esc(a).len() as int) =~= esc(a.drop_first()));
            assert(esc(b).subrange(2, esc(b).len() as int) =~= esc(b.drop_first()));
            lemma_esc_injective(a.drop_first(), b.drop_first());
            assert(a.len() == b.len());
            assert forall|i: int| 0 <= i < a.len() implies a[i] == b[i] by {
                if i >= 1 {
                    assert(a[i] == a.drop_first()[i - 1]);
                    assert(b[i] == b.drop_first()[i - 1]);
                }
            }
            assert(a =~= b);
        } else {
            assert(esc(a)[0] == a[0]);
            if b[0] == '%' || b[0] == ':' {
                assert(esc(b)[0] == '%');
                assert(a[0] == '%');
                assert(false);
            }
            assert(esc(b)[0] == b[0]);
            assert(a[0] == b[0]);
            assert(esc(a).subrange(1, esc(a).len() as int) =~= esc(a.drop_first()));
            assert(esc(b).subrange(1, esc(b).len() as int) =~= esc(b.drop_first()));
            lemma_esc_injective(a.drop_first(), b.drop_first());
            assert(a.len() == b.len());
            assert forall|i: int| 0 <= i < a.len() implies a[i] == b[i] by {
                if i >= 1 {
                    assert(a[i] == a.drop_first()[i - 1]);
                    assert(b[i] == b.drop_first()[i - 1]);
                }
            }
            assert(a =~= b);
        }
    }
}

/// Distinct native tag texts give identities with distinct group ids: the
/// id embeds the escaped tag between fixed surroundings, and escaping is
/// injective.
pub proof fn lemma_native_ids_distinct(t1: Seq<char>, t2: Seq<char>)
    requires
        t1 != t2,
    ensures
        id_of(native_identity(t1)) != id_of(native_identity(t2)),
{
    let prefix = "native:"@ + "d:"@;
    let suffix = seq![':'] + package_code(None);
    let i1 = id_of(native_identity(t1));
    let i2 = id_of(native_identity(t2));
    assert(i1 =~= prefix + esc(t1) + suffix);
    assert(i2 =~= prefix + esc(t2) + suffix);
    if i1 == i2 {
        assert(esc(t1).len() == esc(t2).len());
        assert(esc(t1) =~= i1.subrange(
            prefix.len() as int,
            prefix.len() as int + esc(t1).len() as int,
        ));
        assert(esc(t2) =~= i2.subrange(
            prefix.len() as int,
            prefix.len() as int + esc(t2).len() as int,
        ));
        lemma_esc_injective(t1, t2);
        assert(false);
    }
}

/// Escape one field of the id encoding.
fn esc_str(s: &str) -> (r: String)
    ensures
        r@ == esc(s@),
{
    let n: usize = s.unicode_len();
    let mut out = String::new();
    let mut i: usize = 0;
    proof {
        assert(s@.subrange(0, n as int) =~= s@);
        assert(out@ + esc(s@) =~= esc(s@));
    }
    while i < n
        invariant
            0 <= i <= n,
            n == s@.len(),
            out@ + esc(s@.subrange(i as int, n as int)) == esc(s@),
        decreases n - i,
    {
        let c = s.get_char(i);
        proof {
            let t = s@.subrange(i as int, n as int);
            assert(t[0] == s@[i as int]);
            assert(t.drop_first() =~= s@.subrange(i + 1, n as int));
            assert(esc(t) == esc_char(s@[i as int]) + esc(s@.subrange(i + 1, n as int)));
        }
        if c == '%' {
            out.append("%p");
            proof {
                assert("%p"@ =~= esc_char('%')) by {
                    reveal_strlit("%p");
                }
            }
        } else if c == ':' {
            out.append("%c");
            proof {
                assert("%c"@ =~= esc_char(':')) by {
                    reveal_strlit("%c");
                }
            }
        } else {
            crate::text::push_char(&mut out, c);
            proof {
                assert(out@ =~= (out@.drop_last() + esc_char(c)));
            }
        }
        proof {
            assert(out@ + esc(s@.subrange(i + 1, n as int)) =~= esc(s@));
        }
        i = i + 1;
    }
    proof {
        assert(s@.subrange(n as int, n as int) =~= Seq::<char>::empty());
        assert(out@ =~= esc(s@));
    }
    out
}

impl ComponentIdentity {
    pub fn new(source: ComponentSource, export_name: ExportName, package: Option<Package>) -> (r:
        Self)
        ensures
            r@ == (ComponentIdentityV {
                source: source@,
                export_name: export_name@,
                package: package.deep_view(),
            }),
    {
        ComponentIdentity { source, export_name, package }
    }

    pub fn native(tag_name: String) -> (r: Self)
        ensures
            r@ == native_identity(tag_name@),
    {
        ComponentIdentity {
            source: ComponentSource::Native,
            export_name: ExportName::Direct(tag_name),
            package: None,
        }
    }

    pub fn source(&self) -> (r: &ComponentSource)
        ensures
            r@ == self@.source,
    {
        &self.source
    }

    pub fn export_name(&self) -> (r: &ExportName)
        ensures
            r@ == self@.export_name,
    {
        &self.export_name
    }

    pub fn package(&self) -> (r: Option<&Package>)
        ensures
            r.deep_view() == self@.package,
    {
        match &self.package {
            Some(p) => Some(p),
            None => None,
        }
    }

    pub fn display_name(&self) -> (r: String)
        ensures
            r@ == export_display_name(self@.export_name),
    {
        self.export_name.display_name()
    }

    /// The deterministic group id of this identity.
    #[verifier::rlimit(50)]
    pub fn generate_id(&self) -> (r: String)
        ensures
            r@ == id_of(self@),
    {
        let mut out = String::new();
        match &self.source {
            ComponentSource::Native => {
                out.append("native:");
            },
            ComponentSource::Internal { canonical_path } => {
                out.append("internal:");
                out.append(esc_str(canonical_path.as_str()).as_str());
                crate::text::push_char(&mut out, ':');
            },
            ComponentSource::External { package } => {
                out.append("external:");
                out.append(esc_str(package.name.as_str()).as_str());
                crate::text::push_char(&mut out, ':');
                out.append(esc_str(package.version.as_str()).as_str());
                crate::text::push_char(&mut out, ':');
            },
        }
        match &self.export_name {
            ExportName::Direct(name) => {
                out.append("d:");
                out.append(esc_str(name.as_str()).as_str());
            },
            ExportName::Member { object, property } => {
                out.append("m:");
                out.append(esc_str(object.as_str()).as_str());
                crate::text::push_char(&mut out, ':');
                out.append(esc_str(property.as_str()).as_str());
            },
        }
        crate::text::push_char(&mut out, ':');
        match &self.package {
            Some(pkg) => {
                out.append("p:");
                out.append(esc_str(pkg.name.as_str()).as_str());
                crate::text::push_char(&mut out, ':');
                out.append(esc_str(pkg.version.as_str()).as_str());
            },
            None => {
                out.append("-");
            },
        }
        proof {
            assert(out@ =~= id_of(self@));
        }
        out
    }
}

/// Structural equality of two identities, decided field by field.
pub fn identity_eq(a: &ComponentIdentity, b: &ComponentIdentity) -> (r: bool)
    ensures
        r == (a@ == b@),
{
    let source_eq: bool = match (&a.source, &b.source) {
        (ComponentSource::Native, ComponentSource::Native) => true,
        (
            ComponentSource::Internal { canonical_path: p1 },
            ComponentSource::Internal { canonical_path: p2 },
        ) => *p1 == *p2,
        (
            ComponentSource::External { package: k1 },
            ComponentSource::External { package: k2 },
        ) => package_eq(k1, k2),
        _ => false,
    };
    let export_eq: bool = match (&a.export_name, &b.export_name) {
        (ExportName::Direct(n1), ExportName::Direct(n2)) => *n1 == *n2,
        (
            ExportName::Member { object: o1, property: q1 },
            ExportName::Member { object: o2, property: q2 },
        ) => *o1 == *o2 && *q1 == *q2,
        _ => false,
    };
    let package_opt_eq: bool = match (&a.package, &b.package) {
        (None, None) => true,
        (Some(p1), Some(p2)) => package_eq(p1, p2),
        _ => false,
    };
    source_eq && export_eq && package_opt_eq
}

/// Structural equality of two packages.
pub fn package_eq(a: &Package, b: &Package) -> (r: bool)
    ensures
        r == (a@ == b@),
{
    a.name == b.name && a.version == b.version
}

/// A component definition: its identity and, where known, where it was
/// first seen.
#[derive(Debug)]
pub struct ComponentDefinition {
    pub identity: ComponentIdentity,
    pub source_location: Option<SourceLocation>,
}

pub ghost struct ComponentDefinitionV {
    pub identity: ComponentIdentityV,
    pub source_location: Option<SourceLocationV>,
}

impl View for ComponentDefinition {
    type V = ComponentDefinitionV;

    open spec fn view(&self) -> ComponentDefinitionV {
        ComponentDefinitionV {
            identity: self.identity@,
            source_location: self.source_location.deep_view(),
        }
    }
}

impl DeepView for ComponentDefinition {
    type V = ComponentDefinitionV;

    open spec fn deep_view(&self) -> ComponentDefinitionV {
        self.view()
    }
}

impl ComponentDefinition {
    pub fn new(identity: ComponentIdentity, source_location: Option<SourceLocation>) -> (r: Self)
        ensures
            r@ == (ComponentDefinitionV {
                identity: identity@,
                source_location: source_location.deep_view(),
            }),
    {
        ComponentDefinition { identity, source_location }
    }

    pub fn identity(&self) -> (r: &ComponentIdentity)
        ensures
            r@ == self@.identity,
    {
        &self.identity
    }

    pub fn source_location(&self) -> (r: Option<&SourceLocation>)
        ensures
            r.deep_view() == self@.source_location,
    {
        match &self.source_location {
            Some(loc) => Some(loc),
            None => None,
        }
    }
}

impl Clone for Package {
    fn clone(&self) -> (r: Self)
        ensures
            r@ == self@,
    {
        Package { name: self.name.clone(), version: self.version.clone() }
    }
}

impl Clone for ComponentSource {
    fn clone(&self) -> (r: Self)
        ensures
            r@ == self@,
    {
        match self {
            ComponentSource::Internal { canonical_path } => ComponentSource::Internal {
                canonical_path: canonical_path.clone(),
            },
            ComponentSource::External { package } => ComponentSource::External {
                package: package.clone(),
            },
            ComponentSource::Native => ComponentSource::Native,
        }
    }
}

impl Clone for ExportName {
    fn clone(&self) -> (r: Self)
        ensures
            r@ == self@,
    {
        match self {
            ExportName::Direct(name) => ExportName::Direct(name.clone()),
            ExportName::Member { object, property } => ExportName::Member {
                object: object.clone(),
                property: property.clone(),
            },
        }
    }
}

impl Clone for ComponentIdentity {
    fn clone(&self) -> (r: Self)
        ensures
            r@ == self@,
    {
        ComponentIdentity {
            source: self.source.clone(),
            export_name: self.export_name.clone(),
            package: match &self.package {
                Some(p) => Some(p.clone()),
                None => None,
            },
        }
    }
}

impl Clone for ComponentDefinition {
    fn clone(&self) -> (r: Self)
        ensures
            r@ == self@,
    {
        ComponentDefinition {
            identity: self.identity.clone(),
            source_location: match &self.source_location {
                Some(loc) => Some(loc.clone()),
                None => None,
            },
        }
    }
}

} // verus!
