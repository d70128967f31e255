//! One file's parse result: its element occurrences and import bindings,
//! binding lookup by local name, and the assembly of the file's component
//! usages from the occurrences and their resolution outcomes.
use vstd::prelude::*;
use vstd::string::*;

use crate::identity::Package;
use crate::identity::PackageV;
use crate::occurrence::JSXElementOccurrence;
use crate::occurrence::JSXElementOccurrenceV;
use crate::occurrence::JSXElementReferenceV;
use crate::resolve::ResolvedModule;
use crate::resolve::ResolvedModuleV;
use crate::resolve::identify_spec;
use crate::source::ImportBinding;
use crate::source::ImportBindingV;
use crate::usage::ComponentUsage;
use crate::usage::ComponentUsageV;
use crate::usage::usage_of;

verus! {

/// The identifier a tag reference is matched against the imports by.
pub open spec fn tag_identifier(r: JSXElementReferenceV) -> Seq<char> {
    match r {
        JSXElementReferenceV::Direct(name) => name,
        JSXElementReferenceV::MemberAccess { object, .. } => object,
    }
}

/// The first import binding whose local name equals the identifier, if any.
pub open spec fn find_binding_spec(
    imports: Seq<ImportBindingV>,
    ident: Seq<char>,
) -> Option<ImportBindingV>
    decreases imports.len(),
{
    if imports.len() == 0 {
        None
    } else if imports[0].local_name == ident {
        Some(imports[0])
    } else {
        find_binding_spec(imports.drop_first(), ident)
    }
}

proof fn lemma_find_binding_skip(imports: Seq<ImportBindingV>, ident: Seq<char>, i: int)
    requires
        0 <= i <= imports.len(),
        forall|j: int| 0 <= j < i ==> (#[trigger] imports[j]).local_name != ident,
    ensures
        find_binding_spec(imports, ident) == find_binding_spec(
            imports.subrange(i, imports.len() as int),
            ident,
        ),
    decreases i,
{
    if i == 0 {
        assert(imports.subrange(0, imports.len() as int) =~= imports);
    } else {
        assert(imports[0].local_name != ident);
        assert(imports.len() > 0);
        let rest = imports.drop_first();
        assert(forall|j: int| 0 <= j < i - 1 ==> (#[trigger] rest[j]).local_name != ident);
        lemma_find_binding_skip(rest, ident, i - 1);
        assert(rest.subrange(i - 1, rest.len() as int) =~= imports.subrange(
            i,
            imports.len() as int,
        ));
    }
}

/// One file's parse result.
#[derive(Debug)]
pub struct ParsedFile {
    pub jsx_elements: Vec<JSXElementOccurrence>,
    pub imports: Vec<ImportBinding>,
}

pub ghost struct ParsedFileV {
    pub jsx_elements: Seq<JSXElementOccurrenceV>,
    pub imports: Seq<ImportBindingV>,
}

impl View for ParsedFile {
    type V = ParsedFileV;

    open spec fn view(&self) -> ParsedFileV {
        ParsedFileV {
            jsx_elements: self.jsx_elements.deep_view(),
            imports: self.imports.deep_view(),
        }
    }
}

impl ParsedFile {
    pub fn new(jsx_elements: Vec<JSXElementOccurrence>, imports: Vec<ImportBinding>) -> (r: Self)
        ensures
            r@.jsx_elements == jsx_elements.deep_view(),
            r@.imports == imports.deep_view(),
    {
        ParsedFile { jsx_elements, imports }
    }

    pub fn jsx_elements(&self) -> (r: &Vec<JSXElementOccurrence>)
        ensures
            r.deep_view() == self@.jsx_elements,
    {
        &self.jsx_elements
    }

    pub fn imports(&self) -> (r: &Vec<ImportBinding>)
        ensures
            r.deep_view() == self@.imports,
    {
        &self.imports
    }

    /// The first import binding whose local name equals the element's tag
    /// identifier, matched purely by name with no scope awareness.
    pub fn find_binding_for_element(&self, element: &JSXElementOccurrence) -> (r: Option<
        &ImportBinding,
    >)
        ensures
            r.deep_view() == find_binding_spec(self@.imports, tag_identifier(element@.tag_name)),
    {
        let identifier = element.tag_name.get_identifier();
        let ghost imports = self@.imports;
        let ghost ident = tag_identifier(element@.tag_name);
        let mut i: usize = 0;
        while i < self.imports.len()
            invariant
                0 <= i <= self.imports.len(),
                imports == self@.imports,
                imports.len() == self.imports.len(),
                ident == tag_identifier(element@.tag_name),
                identifier@ == ident,
                forall|j: int| 0 <= j < i ==> (#[trigger] imports[j]).local_name != ident,
            decreases self.imports.len() - i,
        {
            let matched = crate::text::str_eq(self.imports[i].local_name.as_str(), identifier);
            proof {
                assert(identifier@ == ident);
                assert(imports[i as int] == self.imports@[i as int].deep_view());
                assert(imports[i as int].local_name == self.imports@[i as int].local_name@);
                assert(matched == (self.imports@[i as int].local_name@ == identifier@));
            }
            if matched {
                proof {
                    assert(imports[i as int].local_name == ident);
                    lemma_find_binding_skip(imports, ident, i as int);
                    let rest = imports.subrange(i as int, imports.len() as int);
                    assert(rest.len() > 0);
                    assert(rest[0] == imports[i as int]);
                    assert(find_binding_spec(imports, ident) == Some(imports[i as int]));
                }
                return Some(&self.imports[i]);
            }
            proof {
                assert(imports[i as int].local_name != ident);
            }
            i = i + 1;
        }
        proof {
            lemma_find_binding_skip(imports, ident, imports.len() as int);
            assert(imports.subrange(imports.len() as int, imports.len() as int) =~= Seq::<
                ImportBindingV,
            >::empty());
        }
        None
    }
}

/// What one element contributes to the file's usages: one usage where an
/// identity was resolved, nothing where the occurrence was dropped.
pub open spec fn element_usage(
    element: JSXElementOccurrenceV,
    imports: Seq<ImportBindingV>,
    resolution: Option<ResolvedModuleV>,
    include_native_elements: bool,
    project_root: Seq<char>,
    usage_package: Option<PackageV>,
) -> Seq<ComponentUsageV> {
    let binding = find_binding_spec(imports, tag_identifier(element.tag_name));
    match identify_spec(element, binding, resolution, include_native_elements, project_root) {
        None => Seq::<ComponentUsageV>::empty(),
        Some(def) => seq![usage_of(def, element, binding, usage_package)],
    }
}

/// The usages of a file's elements, in order, given one resolution outcome
/// per element.
pub open spec fn build_usages_spec(
    elements: Seq<JSXElementOccurrenceV>,
    imports: Seq<ImportBindingV>,
    resolutions: Seq<Option<ResolvedModuleV>>,
    include_native_elements: bool,
    project_root: Seq<char>,
    usage_package: Option<PackageV>,
) -> Seq<ComponentUsageV>
    decreases elements.len(),
{
    if elements.len() == 0 {
        Seq::<ComponentUsageV>::empty()
    } else {
        build_usages_spec(
            elements.drop_last(),
            imports,
            resolutions.drop_last(),
            include_native_elements,
            project_root,
            usage_package,
        ) + element_usage(
            elements.last(),
            imports,
            resolutions.last(),
            include_native_elements,
            project_root,
            usage_package,
        )
    }
}

/// Assemble the usages of one parsed file: each element is matched to its
/// import binding, identified against its resolution outcome, and kept only
/// where an identity could be built.
pub fn build_usages(
    parsed: &ParsedFile,
    resolutions: &Vec<Option<ResolvedModule>>,
    include_native_elements: bool,
    project_root: &str,
    usage_package: Option<&Package>,
) -> (r: Vec<ComponentUsage>)
    requires
        resolutions@.len() == parsed@.jsx_elements.len(),
    ensures
        r.deep_view() == build_usages_spec(
            parsed@.jsx_elements,
            parsed@.imports,
            resolutions.deep_view(),
            include_native_elements,
            project_root@,
            usage_package.deep_view(),
        ),
{
    let ghost elements = parsed@.jsx_elements;
    let ghost imports = parsed@.imports;
    let ghost res = resolutions.deep_view();
    let ghost upkg = usage_package.deep_view();
    let mut out: Vec<ComponentUsage> = Vec::new();
    let mut i: usize = 0;
    proof {
        assert(elements.subrange(0, 0) =~= Seq::<JSXElementOccurrenceV>::empty());
        assert(res.subrange(0, 0) =~= Seq::<Option<ResolvedModuleV>>::empty());
        assert(out.deep_view() =~= build_usages_spec(
            elements.subrange(0, 0),
            imports,
            res.subrange(0, 0),
            include_native_elements,
            project_root@,
            upkg,
        ));
    }
    while i < parsed.jsx_elements.len()
        invariant
            0 <= i <= parsed.jsx_elements.len(),
            elements == parsed@.jsx_elements,
            imports == parsed@.imports,
            res == resolutions.deep_view(),
            upkg == usage_package.deep_view(),
            elements.len() == parsed.jsx_elements.len(),
            res.len() == resolutions@.len(),
            resolutions@.len() == parsed.jsx_elements.len(),
            out.deep_view() == build_usages_spec(
                elements.subrange(0, i as int),
                imports,
                res.subrange(0, i as int),
                include_native_elements,
                project_root@,
                upkg,
            ),
        decreases parsed.jsx_elements.len() - i,
    {
        let element = &parsed.jsx_elements[i];
        let binding = parsed.find_binding_for_element(element);
        let resolution: Option<&ResolvedModule> = match &resolutions[i] {
            Some(r) => Some(r),
            None => None,
        };
        let definition = crate::resolve::identify_component(
            element,
            binding,
            resolution,
            include_native_elements,
            project_root,
        );
        let ghost prev = out.deep_view();
        match definition {
            Some(def) => {
                let binding_owned: Option<ImportBinding> = match binding {
                    Some(b) => Some(b.clone()),
                    None => None,
                };
                let pkg_owned: Option<Package> = match usage_package {
                    Some(p) => Some(p.clone()),
                    None => None,
                };
                let usage = ComponentUsage::new(def, element.clone(), binding_owned, pkg_owned);
                out.push(usage);
            },
            None => {},
        }
        proof {
            assert(elements.subrange(0, i + 1).drop_last() =~= elements.subrange(0, i as int));
            assert(res.subrange(0, i + 1).drop_last() =~= res.subrange(0, i as int));
            assert(elements.subrange(0, i + 1).last() == elements[i as int]);
            assert(res.subrange(0, i + 1).last() == res[i as int]);
            assert(out.deep_view() =~= prev + element_usage(
                elements[i as int],
                imports,
                res[i as int],
                include_native_elements,
                project_root@,
                upkg,
            ));
        }
        i = i + 1;
    }
    proof {
        assert(elements.subrange(0, parsed.jsx_elements.len() as int) =~= elements);
        assert(res.subrange(0, parsed.jsx_elements.len() as int) =~= res);
    }
    out
}

} // verus!
