//! Identity resolution: turning one element occurrence plus its matching
//! import binding and module-resolution outcome into a canonical component
//! identity, or dropping the occurrence where no identity can be built.
use vstd::prelude::*;
use vstd::string::*;

use crate::identity::ComponentDefinition;
use crate::identity::ComponentDefinitionV;
use crate::identity::ComponentIdentity;
use crate::identity::ComponentIdentityV;
use crate::identity::ComponentSource;
use crate::identity::ComponentSourceV;
use crate::identity::ExportName;
use crate::identity::ExportNameV;
use crate::identity::Package;
use crate::identity::PackageV;
use crate::occurrence::JSXElementOccurrence;
use crate::occurrence::JSXElementOccurrenceV;
use crate::occurrence::JSXElementReference;
use crate::occurrence::JSXElementReferenceV;
use crate::occurrence::reference_display_name;
use crate::occurrence::reference_is_native;
use crate::source::ImportBinding;
use crate::source::ImportBindingV;
use crate::source::ImportedName;
use crate::source::ImportedNameV;
use crate::source::relative_of;
use crate::text::contains_substring_spec;

verus! {

/// What the module resolver reported for one import: the canonical path of
/// the resolved module and, where found, the package that owns it.
#[derive(Debug)]
pub struct ResolvedModule {
    pub canonical_path: String,
    pub package_info: Option<Package>,
}

pub ghost struct ResolvedModuleV {
    pub canonical_path: Seq<char>,
    pub package_info: Option<PackageV>,
}

impl View for ResolvedModule {
    type V = ResolvedModuleV;

    open spec fn view(&self) -> ResolvedModuleV {
        ResolvedModuleV {
            canonical_path: self.canonical_path@,
            package_info: self.package_info.deep_view(),
        }
    }
}

impl DeepView for ResolvedModule {
    type V = ResolvedModuleV;

    open spec fn deep_view(&self) -> ResolvedModuleV {
        self.view()
    }
}

impl ResolvedModule {
    pub fn new(canonical_path: String, package_info: Option<Package>) -> (r: Self)
        ensures
            r@ == (ResolvedModuleV {
                canonical_path: canonical_path@,
                package_info: package_info.deep_view(),
            }),
    {
        ResolvedModule { canonical_path, package_info }
    }

    pub fn canonical_path(&self) -> (r: &str)
        ensures
            r@ == self@.canonical_path,
    {
        self.canonical_path.as_str()
    }

    pub fn package_info(&self) -> (r: Option<&Package>)
        ensures
            r.deep_view() == self@.package_info,
    {
        match &self.package_info {
            Some(p) => Some(p),
            None => None,
        }
    }
}

/// The export name an import kind and a tag reference determine: a named
/// import keeps its name, a default import exports under `default`, and a
/// namespace import takes at most the first two trailing member segments;
/// with no usable segments no name can be derived.
pub open spec fn derive_export_name(
    imported: ImportedNameV,
    tag: JSXElementReferenceV,
) -> Option<ExportNameV> {
    match imported {
        ImportedNameV::Named(name) => Some(ExportNameV::Direct(name)),
        ImportedNameV::Default => Some(ExportNameV::Direct("default"@)),
        ImportedNameV::Namespace => match tag {
            JSXElementReferenceV::MemberAccess { object: _, members } => {
                if members.len() == 0 {
                    None
                } else if members.len() == 1 {
                    Some(ExportNameV::Direct(members[0]))
                } else {
                    Some(ExportNameV::Member { object: members[0], property: members[1] })
                }
            },
            JSXElementReferenceV::Direct(_) => None,
        },
    }
}

/// A resolved module is external exactly when its canonical path crosses a
/// `node_modules` boundary.
pub open spec fn resolved_is_external(canonical_path: Seq<char>) -> bool {
    contains_substring_spec(canonical_path, "node_modules"@)
}

/// The definition one occurrence resolves to, given its matching binding and
/// the module-resolution outcome:
/// - a native tag resolves to the native identity of its tag text, or is
///   dropped when native elements are excluded;
/// - a non-native tag without binding or without resolution is dropped;
/// - otherwise the export name is derived from the import kind, the source
///   is internal or external by the `node_modules` boundary, and missing
///   package metadata drops the occurrence.
pub open spec fn identify_spec(
    element: JSXElementOccurrenceV,
    binding: Option<ImportBindingV>,
    resolution: Option<ResolvedModuleV>,
    include_native_elements: bool,
    project_root: Seq<char>,
) -> Option<ComponentDefinitionV> {
    if reference_is_native(element.tag_name) {
        if !include_native_elements {
            None
        } else {
            Some(
                ComponentDefinitionV {
                    identity: crate::identity::native_identity(
                        reference_display_name(element.tag_name),
                    ),
                    source_location: Some(element.location),
                },
            )
        }
    } else {
        match binding {
            None => None,
            Some(b) => match resolution {
                None => None,
                Some(res) => match derive_export_name(b.imported_name, element.tag_name) {
                    None => None,
                    Some(export_name) => match res.package_info {
                        None => None,
                        Some(pkg) => {
                            let source = if resolved_is_external(res.canonical_path) {
                                ComponentSourceV::External { package: pkg }
                            } else {
                                ComponentSourceV::Internal {
                                    canonical_path: relative_of(res.canonical_path, project_root),
                                }
                            };
                            Some(
                                ComponentDefinitionV {
                                    identity: ComponentIdentityV {
                                        source,
                                        export_name,
                                        package: Some(pkg),
                                    },
                                    source_location: Some(element.location),
                                },
                            )
                        },
                    },
                },
            },
        }
    }
}

/// Whether identifying this occurrence will consult the module resolver: it
/// will for every non-native tag that has a matching import binding.
pub fn needs_resolution(element: &JSXElementOccurrence, has_binding: bool) -> (r: bool)
    ensures
        r == (!reference_is_native(element@.tag_name) && has_binding),
{
    !element.tag_name().is_native() && has_binding
}

/// Resolve one occurrence to its component definition, or drop it.
pub fn identify_component(
    element: &JSXElementOccurrence,
    binding: Option<&ImportBinding>,
    resolution: Option<&ResolvedModule>,
    include_native_elements: bool,
    project_root: &str,
) -> (r: Option<ComponentDefinition>)
    ensures
        r.deep_view() == identify_spec(
            element@,
            binding.deep_view(),
            resolution.deep_view(),
            include_native_elements,
            project_root@,
        ),
{
    if element.tag_name().is_native() {
        if !include_native_elements {
            return None;
        }
        let tag_name = element.tag_name().display_name();
        let identity = ComponentIdentity::native(tag_name);
        return Some(ComponentDefinition::new(identity, Some(element.location().clone())));
    }
    let b = match binding {
        Some(b) => b,
        None => {
            return None;
        },
    };
    let res = match resolution {
        Some(res) => res,
        None => {
            return None;
        },
    };
    let export_name: ExportName = match b.imported_name() {
        ImportedName::Named(name) => ExportName::direct(name.clone()),
        ImportedName::Default => ExportName::direct("default".to_owned()),
        ImportedName::Namespace => {
            match element.tag_name() {
                JSXElementReference::MemberAccess { object: _, members } => {
                    if members.len() == 0 {
                        return None;
                    } else if members.len() == 1 {
                        ExportName::direct(members[0].clone())
                    } else {
                        ExportName::member(members[0].clone(), members[1].clone())
                    }
                },
                JSXElementReference::Direct(_) => {
                    return None;
                },
            }
        },
    };
    let pkg: &Package = match &res.package_info {
        Some(p) => p,
        None => {
            return None;
        },
    };
    let is_external = crate::text::contains_substring(res.canonical_path.as_str(), "node_modules");
    let source: ComponentSource = if is_external {
        ComponentSource::External { package: pkg.clone() }
    } else {
        let relative_path = crate::source::relative_to_root(
            res.canonical_path.as_str(),
            project_root,
        );
        ComponentSource::Internal { canonical_path: relative_path }
    };
    let identity = ComponentIdentity::new(source, export_name, Some(pkg.clone()));
    Some(ComponentDefinition::new(identity, Some(element.location().clone())))
}

impl Clone for ResolvedModule {
    fn clone(&self) -> (r: Self)
        ensures
            r@ == self@,
    {
        ResolvedModule {
            canonical_path: self.canonical_path.clone(),
            package_info: match &self.package_info {
                Some(p) => Some(p.clone()),
                None => None,
            },
        }
    }
}

} // verus!
