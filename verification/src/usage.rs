//! One resolved usage of a component: its definition, the occurrence it came
//! from, the simplified props it carries, and the plain record shapes the
//! report is assembled from.
use vstd::prelude::*;
use vstd::string::*;

use crate::identity::ComponentDefinition;
use crate::identity::ComponentDefinitionV;
use crate::identity::ComponentSourceV;
use crate::identity::Package;
use crate::identity::PackageV;
use crate::occurrence::JSXAttribute;
use crate::occurrence::JSXAttributeV;
use crate::occurrence::JSXElementOccurrence;
use crate::occurrence::JSXElementOccurrenceV;
use crate::occurrence::SimplifiedProp;
use crate::occurrence::SimplifiedPropV;
use crate::occurrence::assignment_simplified;
use crate::occurrence::spread_simplified;
use crate::simplify::children_prop_spec;
use crate::source::ImportBinding;
use crate::source::ImportBindingV;
use crate::source::Span;
use crate::text::contains_substring_spec;

verus! {

/// The package standing of the file a usage was found in.
#[derive(Debug)]
pub enum UsagePackageSchema {
    Internal { package: Package },
    External { package: Package },
    Native,
}

pub ghost enum UsagePackageSchemaV {
    Internal { package: PackageV },
    External { package: PackageV },
    Native,
}

impl View for UsagePackageSchema {
    type V = UsagePackageSchemaV;

    open spec fn view(&self) -> UsagePackageSchemaV {
        match self {
            UsagePackageSchema::Internal { package } => UsagePackageSchemaV::Internal {
                package: package@,
            },
            UsagePackageSchema::External { package } => UsagePackageSchemaV::External {
                package: package@,
            },
            UsagePackageSchema::Native => UsagePackageSchemaV::Native,
        }
    }
}

impl DeepView for UsagePackageSchema {
    type V = UsagePackageSchemaV;

    open spec fn deep_view(&self) -> UsagePackageSchemaV {
        self.view()
    }
}

impl Clone for UsagePackageSchema {
    fn clone(&self) -> (r: Self)
        ensures
            r@ == self@,
    {
        match self {
            UsagePackageSchema::Internal { package } => UsagePackageSchema::Internal {
                package: package.clone(),
            },
            UsagePackageSchema::External { package } => UsagePackageSchema::External {
                package: package.clone(),
            },
            UsagePackageSchema::Native => UsagePackageSchema::Native,
        }
    }
}

/// What one attribute contributes to the simplified props: a regular prop
/// its own triple, a spread its resolved props or the sentinel.
pub open spec fn attr_simplified(a: JSXAttributeV) -> Seq<SimplifiedPropV> {
    match a {
        JSXAttributeV::Regular(p) => seq![assignment_simplified(p)],
        JSXAttributeV::Spread(s) => spread_simplified(s),
    }
}

/// All attributes' simplified props in source order.
pub open spec fn attrs_simplified(attrs: Seq<JSXAttributeV>) -> Seq<SimplifiedPropV>
    decreases attrs.len(),
{
    if attrs.len() == 0 {
        Seq::<SimplifiedPropV>::empty()
    } else {
        attrs_simplified(attrs.drop_last()) + attr_simplified(attrs.last())
    }
}

/// The full simplified prop list of one occurrence: the attributes' props in
/// source order, then the synthesized `children` prop where one exists.
pub open spec fn usage_props(occ: JSXElementOccurrenceV) -> Seq<SimplifiedPropV> {
    attrs_simplified(occ.attributes) + (match children_prop_spec(occ.children) {
        Some(p) => seq![p],
        None => Seq::<SimplifiedPropV>::empty(),
    })
}

/// The usage-site package descriptor: native identities are marked native;
/// otherwise the file's own package is classified by whether the usage file
/// sits under `node_modules`, and a missing package gives no descriptor.
pub open spec fn usage_package_schema_spec(
    def: ComponentDefinitionV,
    occ: JSXElementOccurrenceV,
    pkg: Option<PackageV>,
) -> Option<UsagePackageSchemaV> {
    if def.identity.source is Native {
        Some(UsagePackageSchemaV::Native)
    } else {
        match pkg {
            None => None,
            Some(p) => {
                if contains_substring_spec(occ.location.file.relative_path, "node_modules"@) {
                    Some(UsagePackageSchemaV::External { package: p })
                } else {
                    Some(UsagePackageSchemaV::Internal { package: p })
                }
            },
        }
    }
}

/// One resolved usage of a component.
#[derive(Debug)]
pub struct ComponentUsage {
    pub definition: ComponentDefinition,
    pub occurrence: JSXElementOccurrence,
    pub binding: Option<ImportBinding>,
    pub simplified_props: Vec<SimplifiedProp>,
    pub usage_package: Option<UsagePackageSchema>,
}

pub ghost struct ComponentUsageV {
    pub definition: ComponentDefinitionV,
    pub occurrence: JSXElementOccurrenceV,
    pub binding: Option<ImportBindingV>,
    pub simplified_props: Seq<SimplifiedPropV>,
    pub usage_package: Option<UsagePackageSchemaV>,
}

impl View for ComponentUsage {
    type V = ComponentUsageV;

    open spec fn view(&self) -> ComponentUsageV {
        ComponentUsageV {
            definition: self.definition@,
            occurrence: self.occurrence@,
            binding: self.binding.deep_view(),
            simplified_props: self.simplified_props.deep_view(),
            usage_package: self.usage_package.deep_view(),
        }
    }
}

impl DeepView for ComponentUsage {
    type V = ComponentUsageV;

    open spec fn deep_view(&self) -> ComponentUsageV {
        self.view()
    }
}

impl Clone for ComponentUsage {
    fn clone(&self) -> (r: Self)
        ensures
            r@ == self@,
    {
        let simplified_props = self.simplified_props.clone();
        proof {
            assert forall|i: int| 0 <= i < simplified_props.deep_view().len() implies
                simplified_props.deep_view()[i] == self.simplified_props.deep_view()[i] by {
                assert(cloned::<SimplifiedProp>(self.simplified_props[i], simplified_props[i]));
            }
            assert(simplified_props.deep_view() =~= self.simplified_props.deep_view());
        }
        ComponentUsage {
            definition: self.definition.clone(),
            occurrence: self.occurrence.clone(),
            binding: match &self.binding {
                Some(b) => Some(b.clone()),
                None => None,
            },
            simplified_props,
            usage_package: match &self.usage_package {
                Some(p) => Some(p.clone()),
                None => None,
            },
        }
    }
}

/// The usage one definition and occurrence yield.
pub open spec fn usage_of(
    def: ComponentDefinitionV,
    occ: JSXElementOccurrenceV,
    binding: Option<ImportBindingV>,
    pkg: Option<PackageV>,
) -> ComponentUsageV {
    ComponentUsageV {
        definition: def,
        occurrence: occ,
        binding,
        simplified_props: usage_props(occ),
        usage_package: usage_package_schema_spec(def, occ, pkg),
    }
}

impl ComponentUsage {
    /// Assemble one usage: expand every attribute (spreads included) into
    /// simplified props, synthesize the `children` prop, and classify the
    /// usage site's package.
    pub fn new(
        definition: ComponentDefinition,
        occurrence: JSXElementOccurrence,
        binding: Option<ImportBinding>,
        usage_package: Option<Package>,
    ) -> (r: Self)
        ensures
            r@ == usage_of(definition@, occurrence@, binding.deep_view(), usage_package.deep_view()),
    {
        let ghost attrs = occurrence@.attributes;
        let mut simplified_props: Vec<SimplifiedProp> = Vec::new();
        let mut i: usize = 0;
        proof {
            assert(attrs.subrange(0, 0) =~= Seq::<JSXAttributeV>::empty());
            assert(simplified_props.deep_view() =~= attrs_simplified(attrs.subrange(0, 0)));
        }
        while i < occurrence.attributes.len()
            invariant
                0 <= i <= occurrence.attributes.len(),
                attrs == occurrence@.attributes,
                attrs.len() == occurrence.attributes.len(),
                simplified_props.deep_view() == attrs_simplified(attrs.subrange(0, i as int)),
            decreases occurrence.attributes.len() - i,
        {
            let ghost prev = simplified_props.deep_view();
            proof {
                assert(attrs.subrange(0, i + 1).drop_last() =~= attrs.subrange(0, i as int));
                assert(attrs.subrange(0, i + 1).last() == attrs[i as int]);
            }
            match &occurrence.attributes[i] {
                JSXAttribute::Regular(prop) => {
                    simplified_props.push(prop.to_simplified());
                    proof {
                        assert(simplified_props.deep_view() =~= prev + attr_simplified(
                            attrs[i as int],
                        ));
                    }
                },
                JSXAttribute::Spread(spread) => {
                    let mut expanded = spread.to_simplified_props();
                    let ghost exp = expanded.deep_view();
                    simplified_props.append(&mut expanded);
                    proof {
                        assert(simplified_props.deep_view() =~= prev + exp);
                    }
                },
            }
            i = i + 1;
        }
        proof {
            assert(attrs.subrange(0, occurrence.attributes.len() as int) =~= attrs);
        }
        if occurrence.children.len() > 0 {
            let children_prop = crate::simplify::create_children_prop(&occurrence.children);
            if let Some(prop) = children_prop {
                let ghost prev = simplified_props.deep_view();
                simplified_props.push(prop);
                proof {
                    assert(simplified_props.deep_view() =~= usage_props(occurrence@));
                }
            } else {
                proof {
                    assert(simplified_props.deep_view() =~= usage_props(occurrence@));
                }
            }
        } else {
            proof {
                assert(occurrence@.children.len() == 0);
                assert(children_prop_spec(occurrence@.children) is None);
                assert(simplified_props.deep_view() =~= usage_props(occurrence@));
            }
        }
        let usage_package_schema: Option<UsagePackageSchema> = if matches!(
            definition.identity.source,
            crate::identity::ComponentSource::Native
        ) {
            Some(UsagePackageSchema::Native)
        } else {
            match usage_package {
                Some(package) => {
                    let file_path = occurrence.location.file.relative_path.as_str();
                    if crate::text::contains_substring(file_path, "node_modules") {
                        Some(UsagePackageSchema::External { package })
                    } else {
                        Some(UsagePackageSchema::Internal { package })
                    }
                },
                None => None,
            }
        };
        ComponentUsage {
            definition,
            occurrence,
            binding,
            simplified_props,
            usage_package: usage_package_schema,
        }
    }

    pub fn definition(&self) -> (r: &ComponentDefinition)
        ensures
            r@ == self@.definition,
    {
        &self.definition
    }

    pub fn occurrence(&self) -> (r: &JSXElementOccurrence)
        ensures
            r@ == self@.occurrence,
    {
        &self.occurrence
    }

    pub fn binding(&self) -> (r: Option<&ImportBinding>)
        ensures
            r.deep_view() == self@.binding,
    {
        match &self.binding {
            Some(b) => Some(b),
            None => None,
        }
    }

    pub fn simplified_props(&self) -> (r: &Vec<SimplifiedProp>)
        ensures
            r.deep_view() == self@.simplified_props,
    {
        &self.simplified_props
    }

    /// The plain record this usage contributes to the report.
    pub fn to_serializable(&self) -> (r: SerializableComponentUsage)
        ensures
            r@ == serializable_usage_of(self@),
    {
        let props: Vec<SerializableProp> = simplified_to_serializable(&self.simplified_props);
        SerializableComponentUsage {
            file_path: self.occurrence.location.file.display_path(),
            props,
            raw: self.occurrence.raw_text.clone(),
            span: self.occurrence.location.span,
            import_specifier: match &self.binding {
                Some(b) => Some(b.source.0.clone()),
                None => None,
            },
            resolved_path: match &self.definition.source_location {
                Some(loc) => Some(loc.file.display_path()),
                None => None,
            },
            usage_package_schema: match &self.usage_package {
                Some(p) => Some(p.clone()),
                None => None,
            },
        }
    }
}

/// One prop as it appears in the report.
#[derive(Debug)]
pub struct SerializableProp {
    pub key: String,
    pub value: Option<String>,
    pub raw: String,
    pub prop_type: String,
}

pub ghost struct SerializablePropV {
    pub key: Seq<char>,
    pub value: Option<Seq<char>>,
    pub raw: Seq<char>,
    pub prop_type: Seq<char>,
}

impl View for SerializableProp {
    type V = SerializablePropV;

    open spec fn view(&self) -> SerializablePropV {
        SerializablePropV {
            key: self.key@,
            value: self.value.deep_view(),
            raw: self.raw@,
            prop_type: self.prop_type@,
        }
    }
}

impl DeepView for SerializableProp {
    type V = SerializablePropV;

    open spec fn deep_view(&self) -> SerializablePropV {
        self.view()
    }
}

/// The report form of one simplified prop.
pub open spec fn serializable_prop_of(p: SimplifiedPropV) -> SerializablePropV {
    SerializablePropV { key: p.key, value: p.value, raw: p.raw, prop_type: p.value_pattern }
}

impl SimplifiedProp {
    /// The report form of this prop.
    pub fn to_serializable(&self) -> (r: SerializableProp)
        ensures
            r@ == serializable_prop_of(self@),
    {
        SerializableProp {
            key: self.key.clone(),
            value: match &self.value {
                Some(v) => Some(v.clone()),
                None => None,
            },
            raw: self.raw.clone(),
            prop_type: self.value_pattern.clone(),
        }
    }
}

/// The report forms of a prop list, in order.
fn simplified_to_serializable(props: &Vec<SimplifiedProp>) -> (r: Vec<SerializableProp>)
    ensures
        r.deep_view() == props.deep_view().map_values(
            |p: SimplifiedPropV| serializable_prop_of(p),
        ),
{
    let mut out: Vec<SerializableProp> = Vec::new();
    let mut i: usize = 0;
    proof {
        assert(out.deep_view() =~= props.deep_view().subrange(0, 0).map_values(
            |p: SimplifiedPropV| serializable_prop_of(p),
        ));
    }
    while i < props.len()
        invariant
            0 <= i <= props.len(),
            props.deep_view().len() == props.len(),
            out.deep_view() == props.deep_view().subrange(0, i as int).map_values(
                |p: SimplifiedPropV| serializable_prop_of(p),
            ),
        decreases props.len() - i,
    {
        let ghost prev = out.deep_view();
        out.push(props[i].to_serializable());
        proof {
            assert(out.deep_view() =~= prev.push(
                serializable_prop_of(props.deep_view()[i as int]),
            ));
            assert(props.deep_view().subrange(0, i + 1) =~= props.deep_view().subrange(
                0,
                i as int,
            ).push(props.deep_view()[i as int]));
            assert(out.deep_view() =~= props.deep_view().subrange(0, i + 1).map_values(
                |p: SimplifiedPropV| serializable_prop_of(p),
            ));
        }
        i = i + 1;
    }
    proof {
        assert(props.deep_view().subrange(0, props.len() as int) =~= props.deep_view());
    }
    out
}

/// One usage as it appears in the report.
#[derive(Debug)]
pub struct SerializableComponentUsage {
    pub file_path: String,
    pub props: Vec<SerializableProp>,
    pub raw: String,
    pub span: Span,
    pub import_specifier: Option<String>,
    pub resolved_path: Option<String>,
    pub usage_package_schema: Option<UsagePackageSchema>,
}

pub ghost struct SerializableComponentUsageV {
    pub file_path: Seq<char>,
    pub props: Seq<SerializablePropV>,
    pub raw: Seq<char>,
    pub span: Span,
    pub import_specifier: Option<Seq<char>>,
    pub resolved_path: Option<Seq<char>>,
    pub usage_package_schema: Option<UsagePackageSchemaV>,
}

impl View for SerializableComponentUsage {
    type V = SerializableComponentUsageV;

    open spec fn view(&self) -> SerializableComponentUsageV {
        SerializableComponentUsageV {
            file_path: self.file_path@,
            props: self.props.deep_view(),
            raw: self.raw@,
            span: self.span,
            import_specifier: self.import_specifier.deep_view(),
            resolved_path: self.resolved_path.deep_view(),
            usage_package_schema: self.usage_package_schema.deep_view(),
        }
    }
}

impl DeepView for SerializableComponentUsage {
    type V = SerializableComponentUsageV;

    open spec fn deep_view(&self) -> SerializableComponentUsageV {
        self.view()
    }
}

/// The report record of one usage: its file's display path, its props in
/// report form, the raw source, the span, the import specifier where one was
/// matched, the definition's resolved path where one is known, and the
/// usage-site package descriptor.
pub open spec fn serializable_usage_of(u: ComponentUsageV) -> SerializableComponentUsageV {
    SerializableComponentUsageV {
        file_path: u.occurrence.location.file.relative_path,
        props: u.simplified_props.map_values(|p: SimplifiedPropV| serializable_prop_of(p)),
        raw: u.occurrence.raw_text,
        span: u.occurrence.location.span,
        import_specifier: match u.binding {
            Some(b) => Some(b.source),
            None => None,
        },
        resolved_path: match u.definition.source_location {
            Some(loc) => Some(loc.file.relative_path),
            None => None,
        },
        usage_package_schema: u.usage_package,
    }
}

} // verus!
