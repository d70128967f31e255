//! The per-file variable value tracker: a flat map from local names to
//! analyzable initializer values, and the resolution of spread attributes
//! back to object-literal properties where statically determinable.
use vstd::prelude::*;
use vstd::string::*;

use crate::occurrence::JSXAttribute;
use crate::occurrence::JSXAttributeV;
use crate::occurrence::PropAssignment;
use crate::occurrence::PropAssignmentV;
use crate::occurrence::PropName;
use crate::occurrence::PropNameV;
use crate::occurrence::PropValue;
use crate::occurrence::PropValueV;
use crate::occurrence::ResolvedProp;
use crate::occurrence::ResolvedPropV;
use crate::occurrence::SpreadAttribute;
use crate::occurrence::SpreadAttributeV;
use crate::occurrence::spread_sentinel;
use crate::occurrence::spread_simplified;
use crate::simplify::analyze_jsx_expression;
use crate::simplify::analyze_jsx_expression_spec;
use crate::simplify::bool_raw;
use crate::simplify::bool_raw_string;
use crate::simplify::opt_or_str;
use crate::simplify::opt_str_or;
use crate::syntax::ExprNode;
use crate::syntax::ObjectEntry;
use crate::syntax::RawAttrName;
use crate::syntax::RawAttrValue;
use crate::syntax::RawAttribute;
use crate::syntax::ValueNode;

verus! {

/// One property captured off an object-literal initializer.
#[derive(Debug)]
pub struct ObjectProperty {
    pub key: String,
    pub value_pattern: String,
    pub value: Option<String>,
    pub raw: String,
}

pub ghost struct ObjectPropertyV {
    pub key: Seq<char>,
    pub value_pattern: Seq<char>,
    pub value: Option<Seq<char>>,
    pub raw: Seq<char>,
}

impl View for ObjectProperty {
    type V = ObjectPropertyV;

    open spec fn view(&self) -> ObjectPropertyV {
        ObjectPropertyV {
            key: self.key@,
            value_pattern: self.value_pattern@,
            value: self.value.deep_view(),
            raw: self.raw@,
        }
    }
}

impl DeepView for ObjectProperty {
    type V = ObjectPropertyV;

    open spec fn deep_view(&self) -> ObjectPropertyV {
        self.view()
    }
}

impl Clone for ObjectProperty {
    fn clone(&self) -> (r: Self)
        ensures
            r@ == self@,
    {
        ObjectProperty {
            key: self.key.clone(),
            value_pattern: self.value_pattern.clone(),
            value: match &self.value {
                Some(v) => Some(v.clone()),
                None => None,
            },
            raw: self.raw.clone(),
        }
    }
}

/// What the tracker knows of one variable: the properties of its
/// object-literal initializer, or that the initializer was not analyzable.
#[derive(Debug)]
pub enum VariableValue {
    ObjectLiteral(Vec<ObjectProperty>),
    Unknown,
}

pub ghost enum VariableValueV {
    ObjectLiteral(Seq<ObjectPropertyV>),
    Unknown,
}

impl View for VariableValue {
    type V = VariableValueV;

    open spec fn view(&self) -> VariableValueV {
        match self {
            VariableValue::ObjectLiteral(props) => VariableValueV::ObjectLiteral(
                props.deep_view(),
            ),
            VariableValue::Unknown => VariableValueV::Unknown,
        }
    }
}

impl DeepView for VariableValue {
    type V = VariableValueV;

    open spec fn deep_view(&self) -> VariableValueV {
        self.view()
    }
}

struct VariableBinding {
    name: String,
    value: VariableValue,
}

/// The map a list of bindings denotes: a later binding for the same name
/// overwrites an earlier one.
pub open spec fn bindings_map(
    entries: Seq<(Seq<char>, VariableValueV)>,
) -> Map<Seq<char>, VariableValueV>
    decreases entries.len(),
{
    if entries.len() == 0 {
        Map::<Seq<char>, VariableValueV>::empty()
    } else {
        bindings_map(entries.drop_last()).insert(entries.last().0, entries.last().1)
    }
}

/// The tracker's per-file map from a local variable name to what is known of
/// its most recent initializer.
pub struct VariableMap {
    entries: Vec<VariableBinding>,
}

impl View for VariableMap {
    type V = Map<Seq<char>, VariableValueV>;

    closed spec fn view(&self) -> Map<Seq<char>, VariableValueV> {
        bindings_map(self.entries@.map_values(|b: VariableBinding| (b.name@, b.value@)))
    }
}

proof fn lemma_bindings_map_found(entries: Seq<(Seq<char>, VariableValueV)>, i: int)
    requires
        0 <= i < entries.len(),
        forall|j: int| i < j < entries.len() ==> (#[trigger] entries[j]).0 != entries[i].0,
    ensures
        bindings_map(entries).contains_key(entries[i].0),
        bindings_map(entries)[entries[i].0] == entries[i].1,
    decreases entries.len(),
{
    if i == entries.len() - 1 {
    } else {
        lemma_bindings_map_found(entries.drop_last(), i);
    }
}

proof fn lemma_bindings_map_absent(entries: Seq<(Seq<char>, VariableValueV)>, name: Seq<char>)
    requires
        forall|j: int| 0 <= j < entries.len() ==> (#[trigger] entries[j]).0 != name,
    ensures
        !bindings_map(entries).contains_key(name),
    decreases entries.len(),
{
    if entries.len() > 0 {
        lemma_bindings_map_absent(entries.drop_last(), name);
    }
}

impl VariableMap {
    /// An empty per-file map.
    pub fn new() -> (r: Self)
        ensures
            r@ == Map::<Seq<char>, VariableValueV>::empty(),
    {
        let r = VariableMap { entries: Vec::new() };
        proof {
            assert(r.entries@.map_values(|b: VariableBinding| (b.name@, b.value@)) =~= Seq::<
                (Seq<char>, VariableValueV),
            >::empty());
        }
        r
    }

    /// Record what is known of a variable; a later record for the same name
    /// overwrites an earlier one.
    pub fn insert(&mut self, name: String, value: VariableValue)
        ensures
            final(self)@ == old(self)@.insert(name@, value@),
    {
        let ghost pre = self.entries@.map_values(|b: VariableBinding| (b.name@, b.value@));
        let ghost nv = value@;
        self.entries.push(VariableBinding { name, value });
        proof {
            let post = self.entries@.map_values(|b: VariableBinding| (b.name@, b.value@));
            assert(post.drop_last() =~= pre);
        }
    }

    /// Look up what is known of a variable.
    pub fn get(&self, name: &str) -> (r: Option<&VariableValue>)
        ensures
            (r is Some) == self@.contains_key(name@),
            r is Some ==> self@.contains_key(name@) && r->0@ == self@[name@],
    {
        let ghost pairs = self.entries@.map_values(|b: VariableBinding| (b.name@, b.value@));
        let mut i: usize = self.entries.len();
        while i > 0
            invariant
                0 <= i <= self.entries.len(),
                pairs == self.entries@.map_values(|b: VariableBinding| (b.name@, b.value@)),
                forall|j: int| i <= j < pairs.len() ==> (#[trigger] pairs[j]).0 != name@,
            decreases i,
        {
            i = i - 1;
            if crate::text::str_eq(self.entries[i].name.as_str(), name) {
                proof {
                    lemma_bindings_map_found(pairs, i as int);
                }
                return Some(&self.entries[i].value);
            }
        }
        proof {
            lemma_bindings_map_absent(pairs, name@);
        }
        None
    }
}

/// The `(pattern, value, raw)` triple an object property's value is read
/// as: literals keep their text as the value, references and calls keep a
/// rendered raw form only.
pub open spec fn value_node_triple(v: ValueNode) -> (Seq<char>, Option<Seq<char>>, Seq<char>) {
    match v {
        ValueNode::StringLit(s) => ("string"@, Some(s@), s@),
        ValueNode::NumberLit(raw) => ("literal"@, Some(raw@), raw@),
        ValueNode::BoolLit(b) => ("literal"@, Some(bool_raw(b)), bool_raw(b)),
        ValueNode::NullLit => ("literal"@, Some("null"@), "null"@),
        ValueNode::Identifier(n) => ("identifier"@, None, n@),
        ValueNode::StaticMember { object, property } => (
            "member"@,
            None,
            opt_str_or(object, "<expr>"@) + "."@ + property@,
        ),
        ValueNode::Arrow => ("arrow"@, None, "() => {}"@),
        ValueNode::Call { callee } => ("call"@, None, opt_str_or(callee, "<fn>"@) + "()"@),
        ValueNode::Other => ("expression"@, None, "<expression>"@),
    }
}

/// Read an object property's value as its `(pattern, value, raw)` triple.
pub fn analyze_expression_to_pattern_value_raw(v: &ValueNode) -> (r: (
    String,
    Option<String>,
    String,
))
    ensures
        r.0@ == value_node_triple(*v).0,
        r.1.deep_view() == value_node_triple(*v).1,
        r.2@ == value_node_triple(*v).2,
{
    match v {
        ValueNode::StringLit(s) => ("string".to_owned(), Some(s.clone()), s.clone()),
        ValueNode::NumberLit(raw) => ("literal".to_owned(), Some(raw.clone()), raw.clone()),
        ValueNode::BoolLit(b) => (
            "literal".to_owned(),
            Some(bool_raw_string(*b)),
            bool_raw_string(*b),
        ),
        ValueNode::NullLit => ("literal".to_owned(), Some("null".to_owned()), "null".to_owned()),
        ValueNode::Identifier(n) => ("identifier".to_owned(), None, n.clone()),
        ValueNode::StaticMember { object, property } => (
            "member".to_owned(),
            None,
            opt_or_str(object, "<expr>").concat(".").concat(property.as_str()),
        ),
        ValueNode::Arrow => ("arrow".to_owned(), None, "() => {}".to_owned()),
        ValueNode::Call { callee } => (
            "call".to_owned(),
            None,
            opt_or_str(callee, "<fn>").concat("()"),
        ),
        ValueNode::Other => ("expression".to_owned(), None, "<expression>".to_owned()),
    }
}

/// What one object entry contributes: a property with a static key
/// contributes its triple; computed keys and nested spreads are skipped.
pub open spec fn entry_properties(e: ObjectEntry) -> Seq<ObjectPropertyV> {
    match e {
        ObjectEntry::Property { key: Some(k), value } => seq![
            ObjectPropertyV {
                key: k@,
                value_pattern: value_node_triple(value).0,
                value: value_node_triple(value).1,
                raw: value_node_triple(value).2,
            },
        ],
        ObjectEntry::Property { key: None, .. } => Seq::<ObjectPropertyV>::empty(),
        ObjectEntry::Spread => Seq::<ObjectPropertyV>::empty(),
    }
}

/// The properties read off an object literal, in order.
pub open spec fn object_properties_spec(entries: Seq<ObjectEntry>) -> Seq<ObjectPropertyV>
    decreases entries.len(),
{
    if entries.len() == 0 {
        Seq::<ObjectPropertyV>::empty()
    } else {
        object_properties_spec(entries.drop_last()) + entry_properties(entries.last())
    }
}

/// Read the property list of an object literal, skipping computed keys and
/// nested spreads.
pub fn extract_object_properties(entries: &Vec<ObjectEntry>) -> (r: Vec<ObjectProperty>)
    ensures
        r.deep_view() == object_properties_spec(entries@),
{
    let mut out: Vec<ObjectProperty> = Vec::new();
    let mut i: usize = 0;
    proof {
        assert(entries@.subrange(0, 0) =~= Seq::<ObjectEntry>::empty());
        assert(out.deep_view() =~= object_properties_spec(entries@.subrange(0, 0)));
    }
    while i < entries.len()
        invariant
            0 <= i <= entries.len(),
            out.deep_view() == object_properties_spec(entries@.subrange(0, i as int)),
        decreases entries.len() - i,
    {
        let ghost pre = entries@.subrange(0, i as int);
        let ghost post = entries@.subrange(0, i + 1);
        let ghost prev = out.deep_view();
        proof {
            assert(post.drop_last() =~= pre);
            assert(post.last() == entries@[i as int]);
        }
        match &entries[i] {
            ObjectEntry::Property { key: Some(k), value } => {
                let (value_pattern, value, raw) = analyze_expression_to_pattern_value_raw(value);
                out.push(ObjectProperty { key: k.clone(), value_pattern, value, raw });
                proof {
                    assert(out.deep_view() =~= prev + entry_properties(entries@[i as int]));
                }
            },
            ObjectEntry::Property { key: None, .. } => {
                proof {
                    assert(out.deep_view() =~= prev + entry_properties(entries@[i as int]));
                }
            },
            ObjectEntry::Spread => {
                proof {
                    assert(out.deep_view() =~= prev + entry_properties(entries@[i as int]));
                }
            },
        }
        i = i + 1;
    }
    proof {
        assert(entries@.subrange(0, entries.len() as int) =~= entries@);
    }
    out
}

/// What an initializer expression tells the tracker: object-literal
/// properties, both branches of a two-armed conditional merged, and
/// anything else unknown.
pub open spec fn analyze_variable_value_spec(e: ExprNode) -> VariableValueV
    decreases e,
{
    match e {
        ExprNode::ObjectLit(entries) => VariableValueV::ObjectLiteral(
            object_properties_spec(entries@),
        ),
        ExprNode::Conditional { consequent, alternate } => merge_variable_values_spec(
            analyze_variable_value_spec(*consequent),
            analyze_variable_value_spec(*alternate),
        ),
        _ => VariableValueV::Unknown,
    }
}

/// Two branch values merged: two object literals concatenate their property
/// lists, duplicate keys preserved; anything else is unknown.
pub open spec fn merge_variable_values_spec(
    v1: VariableValueV,
    v2: VariableValueV,
) -> VariableValueV {
    match (v1, v2) {
        (VariableValueV::ObjectLiteral(p1), VariableValueV::ObjectLiteral(p2)) => {
            VariableValueV::ObjectLiteral(p1 + p2)
        },
        _ => VariableValueV::Unknown,
    }
}

/// Merge the values of a conditional's two branches.
pub fn merge_variable_values(v1: VariableValue, v2: VariableValue) -> (r: VariableValue)
    ensures
        r@ == merge_variable_values_spec(v1@, v2@),
{
    match (v1, v2) {
        (VariableValue::ObjectLiteral(mut p1), VariableValue::ObjectLiteral(mut p2)) => {
            let ghost d1 = p1.deep_view();
            let ghost d2 = p2.deep_view();
            p1.append(&mut p2);
            proof {
                assert(p1.deep_view() =~= d1 + d2);
            }
            VariableValue::ObjectLiteral(p1)
        },
        _ => VariableValue::Unknown,
    }
}

/// Analyze a variable's initializer.
pub fn analyze_variable_value(e: &ExprNode) -> (r: VariableValue)
    ensures
        r@ == analyze_variable_value_spec(*e),
    decreases *e,
{
    match e {
        ExprNode::ObjectLit(entries) => {
            VariableValue::ObjectLiteral(extract_object_properties(entries))
        },
        ExprNode::Conditional { consequent, alternate } => {
            let cv = analyze_variable_value(consequent);
            let av = analyze_variable_value(alternate);
            merge_variable_values(cv, av)
        },
        _ => VariableValue::Unknown,
    }
}

/// The resolved prop a captured object property becomes.
pub open spec fn property_to_resolved(p: ObjectPropertyV) -> ResolvedPropV {
    ResolvedPropV { key: p.key, value_pattern: p.value_pattern, value: p.value, raw: p.raw }
}

/// Turn captured object properties into resolved spread props.
fn properties_to_resolved(props: &Vec<ObjectProperty>) -> (r: Vec<ResolvedProp>)
    ensures
        r.deep_view() == props.deep_view().map_values(
            |p: ObjectPropertyV| property_to_resolved(p),
        ),
{
    let mut out: Vec<ResolvedProp> = Vec::new();
    let mut i: usize = 0;
    proof {
        assert(out.deep_view() =~= props.deep_view().subrange(0, 0).map_values(
            |p: ObjectPropertyV| property_to_resolved(p),
        ));
    }
    while i < props.len()
        invariant
            0 <= i <= props.len(),
            props.deep_view().len() == props.len(),
            out.deep_view() == props.deep_view().subrange(0, i as int).map_values(
                |p: ObjectPropertyV| property_to_resolved(p),
            ),
        decreases props.len() - i,
    {
        let p = &props[i];
        let ghost prev = out.deep_view();
        out.push(
            ResolvedProp::new(
                p.key.clone(),
                p.value_pattern.clone(),
                match &p.value {
                    Some(v) => Some(v.clone()),
                    None => None,
                },
                p.raw.clone(),
            ),
        );
        proof {
            assert(out.deep_view() =~= prev.push(
                property_to_resolved(props.deep_view()[i as int]),
            ));
            assert(props.deep_view().subrange(0, i + 1) =~= props.deep_view().subrange(
                0,
                i as int,
            ).push(props.deep_view()[i as int]));
            assert(out.deep_view() =~= props.deep_view().subrange(0, i + 1).map_values(
                |p: ObjectPropertyV| property_to_resolved(p),
            ));
        }
        i = i + 1;
    }
    proof {
        assert(props.deep_view().subrange(0, props.len() as int) =~= props.deep_view());
    }
    out
}

/// How one spread argument resolves against the tracker's map:
/// - parentheses are unwrapped;
/// - an inline object literal resolves to its own properties;
/// - a bare identifier resolves through the map, and an unknown or untracked
///   name stays unresolved with the identifier as its raw source;
/// - a member access or call never resolves, keeping a rendered raw source;
/// - a conditional resolves only when both branches resolve, concatenating
///   their properties with duplicates preserved, and otherwise stays
///   unresolved with raw source `<conditional>`;
/// - anything else stays unresolved with raw source `<expression>`.
pub open spec fn analyze_spread_attribute_spec(
    e: ExprNode,
    vars: Map<Seq<char>, VariableValueV>,
) -> SpreadAttributeV
    decreases e,
{
    match e {
        ExprNode::Parenthesized(inner) => analyze_spread_attribute_spec(*inner, vars),
        ExprNode::ObjectLit(entries) => SpreadAttributeV {
            source: "<inline>"@,
            resolved_props: Some(
                object_properties_spec(entries@).map_values(
                    |p: ObjectPropertyV| property_to_resolved(p),
                ),
            ),
        },
        ExprNode::Identifier(name) => {
            if vars.contains_key(name@) {
                match vars[name@] {
                    VariableValueV::ObjectLiteral(props) => SpreadAttributeV {
                        source: name@,
                        resolved_props: Some(
                            props.map_values(|p: ObjectPropertyV| property_to_resolved(p)),
                        ),
                    },
                    VariableValueV::Unknown => SpreadAttributeV {
                        source: name@,
                        resolved_props: None,
                    },
                }
            } else {
                SpreadAttributeV { source: name@, resolved_props: None }
            }
        },
        ExprNode::StaticMember { object, property } => SpreadAttributeV {
            source: match object {
                Some(o) => o@ + "."@ + property@,
                None => "<expr>.<member>"@,
            },
            resolved_props: None,
        },
        ExprNode::Call { callee } => SpreadAttributeV {
            source: match callee {
                Some(c) => c@ + "()"@,
                None => "<fn>()"@,
            },
            resolved_props: None,
        },
        ExprNode::Conditional { consequent, alternate } => {
            let rc = analyze_spread_attribute_spec(*consequent, vars);
            let ra = analyze_spread_attribute_spec(*alternate, vars);
            match (rc.resolved_props, ra.resolved_props) {
                (Some(p1), Some(p2)) => SpreadAttributeV {
                    source: "<conditional>"@,
                    resolved_props: Some(p1 + p2),
                },
                _ => SpreadAttributeV { source: "<conditional>"@, resolved_props: None },
            }
        },
        _ => SpreadAttributeV { source: "<expression>"@, resolved_props: None },
    }
}

/// Resolve one spread argument against the tracker's map.
pub fn analyze_spread_attribute(e: &ExprNode, variables: &VariableMap) -> (r: SpreadAttribute)
    ensures
        r@ == analyze_spread_attribute_spec(*e, variables@),
    decreases *e,
{
    match e {
        ExprNode::Parenthesized(inner) => analyze_spread_attribute(inner, variables),
        ExprNode::ObjectLit(entries) => {
            let properties = extract_object_properties(entries);
            let resolved = properties_to_resolved(&properties);
            SpreadAttribute::new_with_resolved("<inline>".to_owned(), resolved)
        },
        ExprNode::Identifier(name) => {
            match variables.get(name.as_str()) {
                Some(VariableValue::ObjectLiteral(props)) => {
                    let resolved = properties_to_resolved(props);
                    SpreadAttribute::new_with_resolved(name.clone(), resolved)
                },
                Some(VariableValue::Unknown) => SpreadAttribute::new(name.clone()),
                None => SpreadAttribute::new(name.clone()),
            }
        },
        ExprNode::StaticMember { object, property } => {
            let source = match object {
                Some(o) => o.clone().concat(".").concat(property.as_str()),
                None => "<expr>.<member>".to_owned(),
            };
            SpreadAttribute::new(source)
        },
        ExprNode::Call { callee } => {
            let source = match callee {
                Some(c) => c.clone().concat("()"),
                None => "<fn>()".to_owned(),
            };
            SpreadAttribute::new(source)
        },
        ExprNode::Conditional { consequent, alternate } => {
            let consequent_attr = analyze_spread_attribute(consequent, variables);
            let alternate_attr = analyze_spread_attribute(alternate, variables);
            match (consequent_attr.resolved_props, alternate_attr.resolved_props) {
                (Some(mut p1), Some(mut p2)) => {
                    let ghost d1 = p1.deep_view();
                    let ghost d2 = p2.deep_view();
                    p1.append(&mut p2);
                    proof {
                        assert(p1.deep_view() =~= d1 + d2);
                    }
                    SpreadAttribute::new_with_resolved("<conditional>".to_owned(), p1)
                },
                _ => SpreadAttribute::new("<conditional>".to_owned()),
            }
        },
        ExprNode::StringLit(_) => SpreadAttribute::new("<expression>".to_owned()),
        ExprNode::NumberLit(_) => SpreadAttribute::new("<expression>".to_owned()),
        ExprNode::BoolLit(_) => SpreadAttribute::new("<expression>".to_owned()),
        ExprNode::NullLit => SpreadAttribute::new("<expression>".to_owned()),
        ExprNode::BigIntLit(_) => SpreadAttribute::new("<expression>".to_owned()),
        ExprNode::ComputedMember { .. } => SpreadAttribute::new("<expression>".to_owned()),
        ExprNode::PrivateField { .. } => SpreadAttribute::new("<expression>".to_owned()),
        ExprNode::Arrow => SpreadAttribute::new("<expression>".to_owned()),
        ExprNode::JSXElementNode(_) => SpreadAttribute::new("<expression>".to_owned()),
        ExprNode::JSXFragmentNode => SpreadAttribute::new("<expression>".to_owned()),
        ExprNode::EmptyExpr => SpreadAttribute::new("<expression>".to_owned()),
        ExprNode::Other => SpreadAttribute::new("<expression>".to_owned()),
    }
}

/// Spreading a variable the tracker saw initialized with an object literal
/// resolves to exactly what an inline spread of that same literal resolves
/// to.
pub proof fn lemma_spread_variable_matches_inline(
    init: ExprNode,
    name: String,
    vars: Map<Seq<char>, VariableValueV>,
)
    requires
        init is ObjectLit,
        vars.contains_key(name@),
        vars[name@] == analyze_variable_value_spec(init),
    ensures
        analyze_spread_attribute_spec(ExprNode::Identifier(name), vars).resolved_props
            == analyze_spread_attribute_spec(init, vars).resolved_props,
{
}

/// Spreading an identifier the tracker cannot resolve yields the single
/// `(spread)` sentinel prop whose raw source is exactly the identifier.
pub proof fn lemma_spread_unresolved_identifier(
    name: String,
    vars: Map<Seq<char>, VariableValueV>,
)
    requires
        !vars.contains_key(name@) || vars[name@] is Unknown,
    ensures
        analyze_spread_attribute_spec(ExprNode::Identifier(name), vars).resolved_props is None,
        spread_simplified(analyze_spread_attribute_spec(ExprNode::Identifier(name), vars)) == seq![
            spread_sentinel(name@),
        ],
{
}

/// A conditional spread resolves exactly when both branches resolve, to both
/// branches' properties concatenated with duplicate keys preserved; when
/// either branch stays unresolved, the whole spread collapses to the single
/// sentinel prop whose raw source is exactly `<conditional>`.
pub proof fn lemma_spread_conditional(e: ExprNode, vars: Map<Seq<char>, VariableValueV>)
    requires
        e is Conditional,
    ensures
        match e {
            ExprNode::Conditional { consequent, alternate } => {
                let rc = analyze_spread_attribute_spec(*consequent, vars);
                let ra = analyze_spread_attribute_spec(*alternate, vars);
                let r = analyze_spread_attribute_spec(e, vars);
                &&& (rc.resolved_props is Some && ra.resolved_props is Some ==> r.resolved_props
                    == Some(rc.resolved_props->0 + ra.resolved_props->0))
                &&& (rc.resolved_props is None || ra.resolved_props is None ==> {
                    &&& r.resolved_props is None
                    &&& spread_simplified(r) == seq![spread_sentinel("<conditional>"@)]
                })
            },
            _ => true,
        },
{
}

/// The attribute one raw attribute is read as: a regular prop with its name
/// and classified value, or a spread resolved against the tracker's map.
pub open spec fn attribute_of(a: RawAttribute, vars: Map<Seq<char>, VariableValueV>) -> JSXAttributeV {
    match a {
        RawAttribute::Attribute { name, value } => JSXAttributeV::Regular(
            PropAssignmentV { name: attr_name_of(name), value: attr_value_of(value) },
        ),
        RawAttribute::Spread(e) => JSXAttributeV::Spread(analyze_spread_attribute_spec(e, vars)),
    }
}

/// The prop name a raw attribute name is read as.
pub open spec fn attr_name_of(n: RawAttrName) -> PropNameV {
    match n {
        RawAttrName::Ident(name) => PropNameV::Simple(name@),
        RawAttrName::Namespaced { namespace, name } => PropNameV::Namespaced {
            namespace: namespace@,
            name: name@,
        },
    }
}

/// The prop value a raw attribute value is read as; a missing value is an
/// implicit boolean.
pub open spec fn attr_value_of(v: Option<RawAttrValue>) -> PropValueV {
    match v {
        None => PropValueV::BooleanImplicit,
        Some(RawAttrValue::StringLit(s)) => PropValueV::StringLiteral(s@),
        Some(RawAttrValue::ExpressionContainer(e)) => analyze_jsx_expression_spec(e),
        Some(RawAttrValue::Element) => PropValueV::JSXElement("jsx"@),
        Some(RawAttrValue::Fragment) => PropValueV::JSXFragment,
    }
}

/// Read the raw attributes of one opening element, resolving spreads
/// against the tracker's map.
pub fn extract_props(attrs: &Vec<RawAttribute>, variables: &VariableMap) -> (r: Vec<JSXAttribute>)
    ensures
        r.deep_view() == attrs@.map_values(|a: RawAttribute| attribute_of(a, variables@)),
{
    let ghost vars = variables@;
    let mut out: Vec<JSXAttribute> = Vec::new();
    let mut i: usize = 0;
    proof {
        assert(out.deep_view() =~= attrs@.subrange(0, 0).map_values(
            |a: RawAttribute| attribute_of(a, vars),
        ));
    }
    while i < attrs.len()
        invariant
            0 <= i <= attrs.len(),
            vars == variables@,
            out.deep_view() == attrs@.subrange(0, i as int).map_values(
                |a: RawAttribute| attribute_of(a, vars),
            ),
        decreases attrs.len() - i,
    {
        let ghost prev = out.deep_view();
        match &attrs[i] {
            RawAttribute::Attribute { name, value } => {
                let key: PropName = match name {
                    RawAttrName::Ident(n) => PropName::Simple(n.clone()),
                    RawAttrName::Namespaced { namespace, name } => PropName::Namespaced {
                        namespace: namespace.clone(),
                        name: name.clone(),
                    },
                };
                let pv: PropValue = match value {
                    None => PropValue::BooleanImplicit,
                    Some(RawAttrValue::StringLit(s)) => PropValue::StringLiteral(s.clone()),
                    Some(RawAttrValue::ExpressionContainer(e)) => analyze_jsx_expression(e),
                    Some(RawAttrValue::Element) => PropValue::JSXElement("jsx".to_owned()),
                    Some(RawAttrValue::Fragment) => PropValue::JSXFragment,
                };
                out.push(JSXAttribute::Regular(PropAssignment::new(key, pv)));
            },
            RawAttribute::Spread(e) => {
                let spread = analyze_spread_attribute(e, variables);
                out.push(JSXAttribute::Spread(spread));
            },
        }
        proof {
            assert(out.deep_view() =~= prev.push(attribute_of(attrs@[i as int], vars)));
            assert(attrs@.subrange(0, i + 1) =~= attrs@.subrange(0, i as int).push(
                attrs@[i as int],
            ));
            assert(out.deep_view() =~= attrs@.subrange(0, i + 1).map_values(
                |a: RawAttribute| attribute_of(a, vars),
            ));
        }
        i = i + 1;
    }
    proof {
        assert(attrs@.subrange(0, attrs.len() as int) =~= attrs@);
    }
    out
}

} // verus!
