//! The element-usage model: tag references, attributes, prop values,
//! children, and the simplified `(key, pattern, value, raw)` form that the
//! statistics are computed over.
use vstd::prelude::*;
use vstd::string::*;

use crate::source::SourceLocation;
use crate::source::SourceLocationV;
use crate::text::is_lowercase_char;
use crate::text::join_char;
use crate::text::join_spec;

verus! {

/// How an element names its component: a plain identifier, or a
/// member-access path rooted at an identifier.
#[derive(Debug, PartialEq, Eq)]
pub enum JSXElementReference {
    Direct(String),
    MemberAccess { object: String, members: Vec<String> },
}

pub ghost enum JSXElementReferenceV {
    Direct(Seq<char>),
    MemberAccess { object: Seq<char>, members: Seq<Seq<char>> },
}

impl View for JSXElementReference {
    type V = JSXElementReferenceV;

    open spec fn view(&self) -> JSXElementReferenceV {
        match self {
            JSXElementReference::Direct(name) => JSXElementReferenceV::Direct(name@),
            JSXElementReference::MemberAccess { object, members } => {
                JSXElementReferenceV::MemberAccess {
                    object: object@,
                    members: members.deep_view(),
                }
            },
        }
    }
}

impl DeepView for JSXElementReference {
    type V = JSXElementReferenceV;

    open spec fn deep_view(&self) -> JSXElementReferenceV {
        self.view()
    }
}

/// The tag text a reader sees: the identifier, or the dotted member path.
pub open spec fn reference_display_name(r: JSXElementReferenceV) -> Seq<char> {
    match r {
        JSXElementReferenceV::Direct(name) => name,
        JSXElementReferenceV::MemberAccess { object, members } => join_spec(
            seq![object] + members,
            '.',
        ),
    }
}

/// A tag is native when it is a plain identifier whose first character is
/// lowercase.
pub open spec fn reference_is_native(r: JSXElementReferenceV) -> bool {
    match r {
        JSXElementReferenceV::Direct(name) => name.len() > 0 && is_lowercase_char(name[0]),
        JSXElementReferenceV::MemberAccess { .. } => false,
    }
}

impl JSXElementReference {
    pub fn direct(name: String) -> (r: Self)
        ensures
            r@ == JSXElementReferenceV::Direct(name@),
    {
        JSXElementReference::Direct(name)
    }

    pub fn member(object: String, members: Vec<String>) -> (r: Self)
        ensures
            r@ == (JSXElementReferenceV::MemberAccess {
                object: object@,
                members: members.deep_view(),
            }),
    {
        JSXElementReference::MemberAccess { object, members }
    }

    pub fn display_name(&self) -> (r: String)
        ensures
            r@ == reference_display_name(self@),
    {
        match self {
            JSXElementReference::Direct(name) => name.clone(),
            JSXElementReference::MemberAccess { object, members } => {
                let mut parts: Vec<String> = Vec::new();
                parts.push(object.clone());
                let mut i: usize = 0;
                while i < members.len()
                    invariant
                        0 <= i <= members.len(),
                        parts.deep_view() == seq![object@] + members.deep_view().subrange(
                            0,
                            i as int,
                        ),
                    decreases members.len() - i,
                {
                    let ghost prev = parts.deep_view();
                    parts.push(members[i].clone());
                    proof {
                        assert(parts.deep_view() =~= prev.push(members.deep_view()[i as int]));
                        assert(parts.deep_view() =~= seq![object@] + members.deep_view().subrange(
                            0,
                            i + 1,
                        ));
                    }
                    i = i + 1;
                }
                proof {
                    assert(members.deep_view().subrange(0, members.len() as int) =~= members.deep_view());
                }
                join_char(&parts, '.')
            },
        }
    }

    /// The identifier the reference is rooted at; for a member access, the
    /// object before the first dot.
    pub fn get_identifier(&self) -> (r: &str)
        ensures
            r@ == match self@ {
                JSXElementReferenceV::Direct(name) => name,
                JSXElementReferenceV::MemberAccess { object, .. } => object,
            },
    {
        match self {
            JSXElementReference::Direct(name) => name.as_str(),
            JSXElementReference::MemberAccess { object, .. } => object.as_str(),
        }
    }

    pub fn is_native(&self) -> (r: bool)
        ensures
            r == reference_is_native(self@),
    {
        match self {
            JSXElementReference::Direct(name) => {
                let s = name.as_str();
                if s.unicode_len() == 0 {
                    false
                } else {
                    crate::text::char_is_lowercase(s.get_char(0))
                }
            },
            JSXElementReference::MemberAccess { .. } => false,
        }
    }
}

/// The syntactic kind of an expression that stands as a prop value or child.
#[derive(Debug, Clone, Copy, PartialEq, Eq, Structural, Hash)]
pub enum ExpressionKind {
    Literal,
    Identifier,
    MemberExpression,
    CallExpression,
    ArrowFunction,
    ConditionalExpression,
    Complex,
}

/// One child of an element.
#[derive(Debug)]
pub enum ChildNode {
    Text(String),
    JSXElement { tag: String, raw: String },
    JSXFragment,
    Expression { raw: String, kind: ExpressionKind },
}

pub ghost enum ChildNodeV {
    Text(Seq<char>),
    JSXElement { tag: Seq<char>, raw: Seq<char> },
    JSXFragment,
    Expression { raw: Seq<char>, kind: ExpressionKind },
}

impl View for ChildNode {
    type V = ChildNodeV;

    open spec fn view(&self) -> ChildNodeV {
        match self {
            ChildNode::Text(text) => ChildNodeV::Text(text@),
            ChildNode::JSXElement { tag, raw } => ChildNodeV::JSXElement { tag: tag@, raw: raw@ },
            ChildNode::JSXFragment => ChildNodeV::JSXFragment,
            ChildNode::Expression { raw, kind } => ChildNodeV::Expression {
                raw: raw@,
                kind: *kind,
            },
        }
    }
}

impl DeepView for ChildNode {
    type V = ChildNodeV;

    open spec fn deep_view(&self) -> ChildNodeV {
        self.view()
    }
}

/// The raw source form a child contributes to a concatenated children value.
pub open spec fn child_raw_text(c: ChildNodeV) -> Seq<char> {
    match c {
        ChildNodeV::Text(text) => text,
        ChildNodeV::JSXElement { raw, .. } => raw,
        ChildNodeV::JSXFragment => "<>...</>"@,
        ChildNodeV::Expression { raw, .. } => seq!['{'] + raw + seq!['}'],
    }
}

impl ChildNode {
    /// The kind of the child as a label.
    pub fn node_type(&self) -> (r: &str)
        ensures
            r@ == match self@ {
                ChildNodeV::Text(_) => "text"@,
                ChildNodeV::JSXElement { .. } => "jsx"@,
                ChildNodeV::JSXFragment => "fragment"@,
                ChildNodeV::Expression { .. } => "expression"@,
            },
    {
        match self {
            ChildNode::Text(_) => "text",
            ChildNode::JSXElement { .. } => "jsx",
            ChildNode::JSXFragment => "fragment",
            ChildNode::Expression { .. } => "expression",
        }
    }

    /// The raw string form of the child.
    pub fn raw_text(&self) -> (r: String)
        ensures
            r@ == child_raw_text(self@),
    {
        match self {
            ChildNode::Text(text) => text.clone(),
            ChildNode::JSXElement { raw, .. } => raw.clone(),
            ChildNode::JSXFragment => "<>...</>".to_owned(),
            ChildNode::Expression { raw, .. } => {
                let mut s = String::new();
                crate::text::push_char(&mut s, '{');
                s.append(raw.as_str());
                crate::text::push_char(&mut s, '}');
                proof {
                    assert(s@ =~= seq!['{'] + raw@ + seq!['}']);
                }
                s
            },
        }
    }
}

/// A prop's name: plain, or namespaced as `namespace:name`.
#[derive(Debug)]
pub enum PropName {
    Simple(String),
    Namespaced { namespace: String, name: String },
}

pub ghost enum PropNameV {
    Simple(Seq<char>),
    Namespaced { namespace: Seq<char>, name: Seq<char> },
}

impl View for PropName {
    type V = PropNameV;

    open spec fn view(&self) -> PropNameV {
        match self {
            PropName::Simple(name) => PropNameV::Simple(name@),
            PropName::Namespaced { namespace, name } => PropNameV::Namespaced {
                namespace: namespace@,
                name: name@,
            },
        }
    }
}

impl DeepView for PropName {
    type V = PropNameV;

    open spec fn deep_view(&self) -> PropNameV {
        self.view()
    }
}

/// The key text of a prop name: the name, or `namespace:name`.
pub open spec fn prop_name_string(n: PropNameV) -> Seq<char> {
    match n {
        PropNameV::Simple(name) => name,
        PropNameV::Namespaced { namespace, name } => namespace + seq![':'] + name,
    }
}

impl PropName {
    pub fn as_string(&self) -> (r: String)
        ensures
            r@ == prop_name_string(self@),
    {
        match self {
            PropName::Simple(name) => name.clone(),
            PropName::Namespaced { namespace, name } => {
                let mut s = namespace.clone();
                crate::text::push_char(&mut s, ':');
                s.append(name.as_str());
                proof {
                    assert(s@ =~= namespace@ + seq![':'] + name@);
                }
                s
            },
        }
    }
}

/// The value given to a prop.
#[derive(Debug)]
pub enum PropValue {
    StringLiteral(String),
    BooleanImplicit,
    Expression { raw: String, kind: ExpressionKind },
    JSXElement(String),
    JSXFragment,
    Mixed(String),
}

pub ghost enum PropValueV {
    StringLiteral(Seq<char>),
    BooleanImplicit,
    Expression { raw: Seq<char>, kind: ExpressionKind },
    JSXElement(Seq<char>),
    JSXFragment,
    Mixed(Seq<char>),
}

impl View for PropValue {
    type V = PropValueV;

    open spec fn view(&self) -> PropValueV {
        match self {
            PropValue::StringLiteral(s) => PropValueV::StringLiteral(s@),
            PropValue::BooleanImplicit => PropValueV::BooleanImplicit,
            PropValue::Expression { raw, kind } => PropValueV::Expression {
                raw: raw@,
                kind: *kind,
            },
            PropValue::JSXElement(s) => PropValueV::JSXElement(s@),
            PropValue::JSXFragment => PropValueV::JSXFragment,
            PropValue::Mixed(raw) => PropValueV::Mixed(raw@),
        }
    }
}

impl DeepView for PropValue {
    type V = PropValueV;

    open spec fn deep_view(&self) -> PropValueV {
        self.view()
    }
}

/// The pattern label of an expression kind.
pub open spec fn expression_pattern(k: ExpressionKind) -> Seq<char> {
    match k {
        ExpressionKind::Literal => "literal"@,
        ExpressionKind::Identifier => "identifier"@,
        ExpressionKind::MemberExpression => "member"@,
        ExpressionKind::CallExpression => "call"@,
        ExpressionKind::ArrowFunction => "arrow"@,
        ExpressionKind::ConditionalExpression => "conditional"@,
        ExpressionKind::Complex => "expression"@,
    }
}

/// The pattern label a prop value is classified under.
pub open spec fn prop_value_pattern(v: PropValueV) -> Seq<char> {
    match v {
        PropValueV::StringLiteral(_) => "string"@,
        PropValueV::BooleanImplicit => "boolean"@,
        PropValueV::Expression { kind, .. } => expression_pattern(kind),
        PropValueV::JSXElement(_) => "jsx"@,
        PropValueV::JSXFragment => "fragment"@,
        PropValueV::Mixed(_) => "mixed"@,
    }
}

/// The statically-certain value a prop value exposes: only string literals,
/// implicit booleans and literal expressions carry one.
pub open spec fn prop_value_value(v: PropValueV) -> Option<Seq<char>> {
    match v {
        PropValueV::StringLiteral(s) => Some(s),
        PropValueV::BooleanImplicit => Some("true"@),
        PropValueV::Expression { raw, kind } => if kind is Literal {
            Some(raw)
        } else {
            None
        },
        PropValueV::JSXElement(_) => None,
        PropValueV::JSXFragment => None,
        PropValueV::Mixed(_) => None,
    }
}

/// The raw source text recorded for a prop value.
pub open spec fn prop_value_raw(v: PropValueV) -> Seq<char> {
    match v {
        PropValueV::StringLiteral(s) => s,
        PropValueV::BooleanImplicit => "true"@,
        PropValueV::Expression { raw, .. } => raw,
        PropValueV::JSXElement(_) => "jsx"@,
        PropValueV::JSXFragment => "fragment"@,
        PropValueV::Mixed(raw) => raw,
    }
}

impl PropValue {
    /// Classify the value into its `(pattern, value, raw)` triple.
    pub fn to_pattern_value_and_raw(&self) -> (r: (String, Option<String>, String))
        ensures
            r.0@ == prop_value_pattern(self@),
            r.1.deep_view() == prop_value_value(self@),
            r.2@ == prop_value_raw(self@),
    {
        match self {
            PropValue::StringLiteral(s) => ("string".to_owned(), Some(s.clone()), s.clone()),
            PropValue::BooleanImplicit => (
                "boolean".to_owned(),
                Some("true".to_owned()),
                "true".to_owned(),
            ),
            PropValue::Expression { raw, kind } => {
                let pattern: &str = match kind {
                    ExpressionKind::Literal => "literal",
                    ExpressionKind::Identifier => "identifier",
                    ExpressionKind::MemberExpression => "member",
                    ExpressionKind::CallExpression => "call",
                    ExpressionKind::ArrowFunction => "arrow",
                    ExpressionKind::ConditionalExpression => "conditional",
                    ExpressionKind::Complex => "expression",
                };
                let value: Option<String> = if matches!(kind, ExpressionKind::Literal) {
                    Some(raw.clone())
                } else {
                    None
                };
                (pattern.to_owned(), value, raw.clone())
            },
            PropValue::JSXElement(_) => ("jsx".to_owned(), None, "jsx".to_owned()),
            PropValue::JSXFragment => ("fragment".to_owned(), None, "fragment".to_owned()),
            PropValue::Mixed(raw) => ("mixed".to_owned(), None, raw.clone()),
        }
    }
}

/// One simplified prop as stored on a usage and counted in statistics.
#[derive(Debug)]
pub struct SimplifiedProp {
    pub key: String,
    pub value_pattern: String,
    pub value: Option<String>,
    pub raw: String,
}

pub ghost struct SimplifiedPropV {
    pub key: Seq<char>,
    pub value_pattern: Seq<char>,
    pub value: Option<Seq<char>>,
    pub raw: Seq<char>,
}

impl View for SimplifiedProp {
    type V = SimplifiedPropV;

    open spec fn view(&self) -> SimplifiedPropV {
        SimplifiedPropV {
            key: self.key@,
            value_pattern: self.value_pattern@,
            value: self.value.deep_view(),
            raw: self.raw@,
        }
    }
}

impl DeepView for SimplifiedProp {
    type V = SimplifiedPropV;

    open spec fn deep_view(&self) -> SimplifiedPropV {
        self.view()
    }
}

impl SimplifiedProp {
    pub fn key(&self) -> (r: &str)
        ensures
            r@ == self@.key,
    {
        self.key.as_str()
    }

    pub fn value_pattern(&self) -> (r: &str)
        ensures
            r@ == self@.value_pattern,
    {
        self.value_pattern.as_str()
    }

    pub fn value(&self) -> (r: Option<&str>)
        ensures
            r.deep_view() == self@.value,
    {
        match &self.value {
            Some(v) => Some(v.as_str()),
            None => None,
        }
    }

    pub fn raw(&self) -> (r: &str)
        ensures
            r@ == self@.raw,
    {
        self.raw.as_str()
    }
}

/// One property recovered from a spread's source object literal.
#[derive(Debug)]
pub struct ResolvedProp {
    pub key: String,
    pub value_pattern: String,
    pub value: Option<String>,
    pub raw: String,
}

pub ghost struct ResolvedPropV {
    pub key: Seq<char>,
    pub value_pattern: Seq<char>,
    pub value: Option<Seq<char>>,
    pub raw: Seq<char>,
}

impl View for ResolvedProp {
    type V = ResolvedPropV;

    open spec fn view(&self) -> ResolvedPropV {
        ResolvedPropV {
            key: self.key@,
            value_pattern: self.value_pattern@,
            value: self.value.deep_view(),
            raw: self.raw@,
        }
    }
}

impl DeepView for ResolvedProp {
    type V = ResolvedPropV;

    open spec fn deep_view(&self) -> ResolvedPropV {
        self.view()
    }
}

/// The simplified prop a resolved spread property becomes.
pub open spec fn resolved_to_simplified(p: ResolvedPropV) -> SimplifiedPropV {
    SimplifiedPropV { key: p.key, value_pattern: p.value_pattern, value: p.value, raw: p.raw }
}

impl ResolvedProp {
    pub fn new(key: String, value_pattern: String, value: Option<String>, raw: String) -> (r: Self)
        ensures
            r@ == (ResolvedPropV {
                key: key@,
                value_pattern: value_pattern@,
                value: value.deep_view(),
                raw: raw@,
            }),
    {
        ResolvedProp { key, value_pattern, value, raw }
    }

    pub fn key(&self) -> (r: &str)
        ensures
            r@ == self@.key,
    {
        self.key.as_str()
    }

    pub fn value_pattern(&self) -> (r: &str)
        ensures
            r@ == self@.value_pattern,
    {
        self.value_pattern.as_str()
    }

    pub fn value(&self) -> (r: Option<&str>)
        ensures
            r.deep_view() == self@.value,
    {
        match &self.value {
            Some(v) => Some(v.as_str()),
            None => None,
        }
    }

    pub fn raw(&self) -> (r: &str)
        ensures
            r@ == self@.raw,
    {
        self.raw.as_str()
    }

    pub fn to_simplified(&self) -> (r: SimplifiedProp)
        ensures
            r@ == resolved_to_simplified(self@),
    {
        SimplifiedProp {
            key: self.key.clone(),
            value_pattern: self.value_pattern.clone(),
            value: match &self.value {
                Some(v) => Some(v.clone()),
                None => None,
            },
            raw: self.raw.clone(),
        }
    }
}

/// A spread attribute: its raw source text and, where the tracker could
/// resolve it, the properties of the object it spreads.
#[derive(Debug)]
pub struct SpreadAttribute {
    pub source: String,
    pub resolved_props: Option<Vec<ResolvedProp>>,
}

pub ghost struct SpreadAttributeV {
    pub source: Seq<char>,
    pub resolved_props: Option<Seq<ResolvedPropV>>,
}

impl View for SpreadAttribute {
    type V = SpreadAttributeV;

    open spec fn view(&self) -> SpreadAttributeV {
        SpreadAttributeV { source: self.source@, resolved_props: self.resolved_props.deep_view() }
    }
}

impl DeepView for SpreadAttribute {
    type V = SpreadAttributeV;

    open spec fn deep_view(&self) -> SpreadAttributeV {
        self.view()
    }
}

/// The sentinel prop an unresolved spread collapses to: key `(spread)`,
/// pattern `spread`, raw = the spread's source text.
pub open spec fn spread_sentinel(source: Seq<char>) -> SimplifiedPropV {
    SimplifiedPropV {
        key: "(spread)"@,
        value_pattern: "spread"@,
        value: None,
        raw: source,
    }
}

/// What a spread attribute contributes to the simplified props: each
/// resolved property in order, or the single sentinel.
pub open spec fn spread_simplified(s: SpreadAttributeV) -> Seq<SimplifiedPropV> {
    match s.resolved_props {
        Some(props) => props.map_values(|p: ResolvedPropV| resolved_to_simplified(p)),
        None => seq![spread_sentinel(s.source)],
    }
}

impl SpreadAttribute {
    pub fn new(source: String) -> (r: Self)
        ensures
            r@ == (SpreadAttributeV { source: source@, resolved_props: None }),
    {
        SpreadAttribute { source, resolved_props: None }
    }

    pub fn new_with_resolved(source: String, resolved_props: Vec<ResolvedProp>) -> (r: Self)
        ensures
            r@ == (SpreadAttributeV {
                source: source@,
                resolved_props: Some(resolved_props.deep_view()),
            }),
    {
        SpreadAttribute { source, resolved_props: Some(resolved_props) }
    }

    pub fn source(&self) -> (r: &str)
        ensures
            r@ == self@.source,
    {
        self.source.as_str()
    }

    pub fn resolved_props(&self) -> (r: Option<&Vec<ResolvedProp>>)
        ensures
            r.deep_view() == self@.resolved_props,
    {
        match &self.resolved_props {
            Some(props) => Some(props),
            None => None,
        }
    }

    pub fn is_resolved(&self) -> (r: bool)
        ensures
            r == self@.resolved_props is Some,
    {
        self.resolved_props.is_some()
    }

    /// Expand the spread: one simplified prop per resolved property, or the
    /// `(spread)` sentinel when nothing could be resolved.
    pub fn to_simplified_props(&self) -> (r: Vec<SimplifiedProp>)
        ensures
            r.deep_view() == spread_simplified(self@),
    {
        match &self.resolved_props {
            Some(props) => {
                let mut out: Vec<SimplifiedProp> = Vec::new();
                let mut i: usize = 0;
                while i < props.len()
                    invariant
                        0 <= i <= props.len(),
                        out.deep_view() == props.deep_view().subrange(0, i as int).map_values(
                            |p: ResolvedPropV| resolved_to_simplified(p),
                        ),
                    decreases props.len() - i,
                {
                    let ghost prev = out.deep_view();
                    out.push(props[i].to_simplified());
                    proof {
                        assert(out.deep_view() =~= prev.push(
                            resolved_to_simplified(props.deep_view()[i as int]),
                        ));
                        assert(props.deep_view().subrange(0, i + 1) =~= props.deep_view().subrange(
                            0,
                            i as int,
                        ).push(props.deep_view()[i as int]));
                        assert(out.deep_view() =~= props.deep_view().subrange(0, i + 1).map_values(
                            |p: ResolvedPropV| resolved_to_simplified(p),
                        ));
                    }
                    i = i + 1;
                }
                proof {
                    assert(props.deep_view().subrange(0, props.len() as int) =~= props.deep_view());
                }
                out
            },
            None => {
                let sentinel = SimplifiedProp {
                    key: "(spread)".to_owned(),
                    value_pattern: "spread".to_owned(),
                    value: None,
                    raw: self.source.clone(),
                };
                let mut out: Vec<SimplifiedProp> = Vec::new();
                out.push(sentinel);
                proof {
                    assert(out.deep_view() =~= spread_simplified(self@));
                }
                out
            },
        }
    }
}

/// One `key=value` prop assignment.
#[derive(Debug)]
pub struct PropAssignment {
    pub name: PropName,
    pub value: PropValue,
}

pub ghost struct PropAssignmentV {
    pub name: PropNameV,
    pub value: PropValueV,
}

impl View for PropAssignment {
    type V = PropAssignmentV;

    open spec fn view(&self) -> PropAssignmentV {
        PropAssignmentV { name: self.name@, value: self.value@ }
    }
}

impl DeepView for PropAssignment {
    type V = PropAssignmentV;

    open spec fn deep_view(&self) -> PropAssignmentV {
        self.view()
    }
}

/// The simplified prop a regular assignment becomes.
pub open spec fn assignment_simplified(a: PropAssignmentV) -> SimplifiedPropV {
    SimplifiedPropV {
        key: prop_name_string(a.name),
        value_pattern: prop_value_pattern(a.value),
        value: prop_value_value(a.value),
        raw: prop_value_raw(a.value),
    }
}

impl PropAssignment {
    pub fn new(name: PropName, value: PropValue) -> (r: Self)
        ensures
            r@ == (PropAssignmentV { name: name@, value: value@ }),
    {
        PropAssignment { name, value }
    }

    pub fn name(&self) -> (r: &PropName)
        ensures
            r@ == self@.name,
    {
        &self.name
    }

    pub fn value(&self) -> (r: &PropValue)
        ensures
            r@ == self@.value,
    {
        &self.value
    }

    pub fn to_simplified(&self) -> (r: SimplifiedProp)
        ensures
            r@ == assignment_simplified(self@),
    {
        let key = self.name.as_string();
        let (value_pattern, value, raw) = self.value.to_pattern_value_and_raw();
        SimplifiedProp { key, value_pattern, value, raw }
    }
}

/// One attribute on an element: a regular prop or a spread.
#[derive(Debug)]
pub enum JSXAttribute {
    Regular(PropAssignment),
    Spread(SpreadAttribute),
}

pub ghost enum JSXAttributeV {
    Regular(PropAssignmentV),
    Spread(SpreadAttributeV),
}

impl View for JSXAttribute {
    type V = JSXAttributeV;

    open spec fn view(&self) -> JSXAttributeV {
        match self {
            JSXAttribute::Regular(prop) => JSXAttributeV::Regular(prop@),
            JSXAttribute::Spread(spread) => JSXAttributeV::Spread(spread@),
        }
    }
}

impl DeepView for JSXAttribute {
    type V = JSXAttributeV;

    open spec fn deep_view(&self) -> JSXAttributeV {
        self.view()
    }
}

impl JSXAttribute {
    pub fn as_regular(&self) -> (r: Option<&PropAssignment>)
        ensures
            match self@ {
                JSXAttributeV::Regular(prop) => r is Some && r->0@ == prop,
                JSXAttributeV::Spread(_) => r is None,
            },
    {
        match self {
            JSXAttribute::Regular(prop) => Some(prop),
            JSXAttribute::Spread(_) => None,
        }
    }
}

/// One concrete use of an element in source text.
#[derive(Debug)]
pub struct JSXElementOccurrence {
    pub location: SourceLocation,
    pub tag_name: JSXElementReference,
    pub attributes: Vec<JSXAttribute>,
    pub raw_text: String,
    pub children: Vec<ChildNode>,
}

pub ghost struct JSXElementOccurrenceV {
    pub location: SourceLocationV,
    pub tag_name: JSXElementReferenceV,
    pub attributes: Seq<JSXAttributeV>,
    pub raw_text: Seq<char>,
    pub children: Seq<ChildNodeV>,
}

impl View for JSXElementOccurrence {
    type V = JSXElementOccurrenceV;

    open spec fn view(&self) -> JSXElementOccurrenceV {
        JSXElementOccurrenceV {
            location: self.location@,
            tag_name: self.tag_name@,
            attributes: self.attributes.deep_view(),
            raw_text: self.raw_text@,
            children: self.children.deep_view(),
        }
    }
}

impl DeepView for JSXElementOccurrence {
    type V = JSXElementOccurrenceV;

    open spec fn deep_view(&self) -> JSXElementOccurrenceV {
        self.view()
    }
}

impl JSXElementOccurrence {
    pub fn new(
        location: SourceLocation,
        tag_name: JSXElementReference,
        attributes: Vec<JSXAttribute>,
        raw_text: String,
        children: Vec<ChildNode>,
    ) -> (r: Self)
        ensures
            r@ == (JSXElementOccurrenceV {
                location: location@,
                tag_name: tag_name@,
                attributes: attributes.deep_view(),
                raw_text: raw_text@,
                children: children.deep_view(),
            }),
    {
        JSXElementOccurrence { location, tag_name, attributes, raw_text, children }
    }

    pub fn location(&self) -> (r: &SourceLocation)
        ensures
            r@ == self@.location,
    {
        &self.location
    }

    pub fn tag_name(&self) -> (r: &JSXElementReference)
        ensures
            r@ == self@.tag_name,
    {
        &self.tag_name
    }

    pub fn attributes(&self) -> (r: &Vec<JSXAttribute>)
        ensures
            r.deep_view() == self@.attributes,
    {
        &self.attributes
    }

    pub fn raw_text(&self) -> (r: &str)
        ensures
            r@ == self@.raw_text,
    {
        self.raw_text.as_str()
    }

    pub fn children(&self) -> (r: &Vec<ChildNode>)
        ensures
            r.deep_view() == self@.children,
    {
        &self.children
    }
}

impl Clone for JSXElementReference {
    fn clone(&self) -> (r: Self)
        ensures
            r@ == self@,
    {
        match self {
            JSXElementReference::Direct(name) => JSXElementReference::Direct(name.clone()),
            JSXElementReference::MemberAccess { object, members } => {
                let m = members.clone();
                proof {
                    assert forall|i: int| 0 <= i < m.deep_view().len() implies m.deep_view()[i]
                        == members.deep_view()[i] by {
                        assert(cloned::<String>(members[i], m[i]));
                    }
                    assert(m.deep_view() =~= members.deep_view());
                }
                JSXElementReference::MemberAccess { object: object.clone(), members: m }
            },
        }
    }
}

impl Clone for ChildNode {
    fn clone(&self) -> (r: Self)
        ensures
            r@ == self@,
    {
        match self {
            ChildNode::Text(text) => ChildNode::Text(text.clone()),
            ChildNode::JSXElement { tag, raw } => ChildNode::JSXElement {
                tag: tag.clone(),
                raw: raw.clone(),
            },
            ChildNode::JSXFragment => ChildNode::JSXFragment,
            ChildNode::Expression { raw, kind } => ChildNode::Expression {
                raw: raw.clone(),
                kind: *kind,
            },
        }
    }
}

impl Clone for PropName {
    fn clone(&self) -> (r: Self)
        ensures
            r@ == self@,
    {
        match self {
            PropName::Simple(name) => PropName::Simple(name.clone()),
            PropName::Namespaced { namespace, name } => PropName::Namespaced {
                namespace: namespace.clone(),
                name: name.clone(),
            },
        }
    }
}

impl Clone for PropValue {
    fn clone(&self) -> (r: Self)
        ensures
            r@ == self@,
    {
        match self {
            PropValue::StringLiteral(s) => PropValue::StringLiteral(s.clone()),
            PropValue::BooleanImplicit => PropValue::BooleanImplicit,
            PropValue::Expression { raw, kind } => PropValue::Expression {
                raw: raw.clone(),
                kind: *kind,
            },
            PropValue::JSXElement(s) => PropValue::JSXElement(s.clone()),
            PropValue::JSXFragment => PropValue::JSXFragment,
            PropValue::Mixed(raw) => PropValue::Mixed(raw.clone()),
        }
    }
}

/// Clone an optional string, keeping its view.
fn clone_opt_string(v: &Option<String>) -> (r: Option<String>)
    ensures
        r.deep_view() == v.deep_view(),
{
    match v {
        Some(s) => Some(s.clone()),
        None => None,
    }
}

impl Clone for SimplifiedProp {
    fn clone(&self) -> (r: Self)
        ensures
            r@ == self@,
    {
        SimplifiedProp {
            key: self.key.clone(),
            value_pattern: self.value_pattern.clone(),
            value: clone_opt_string(&self.value),
            raw: self.raw.clone(),
        }
    }
}

impl Clone for ResolvedProp {
    fn clone(&self) -> (r: Self)
        ensures
            r@ == self@,
    {
        ResolvedProp {
            key: self.key.clone(),
            value_pattern: self.value_pattern.clone(),
            value: clone_opt_string(&self.value),
            raw: self.raw.clone(),
        }
    }
}

/// Clone a list of resolved spread properties, keeping its view.
pub fn clone_resolved_props(v: &Vec<ResolvedProp>) -> (r: Vec<ResolvedProp>)
    ensures
        r.deep_view() == v.deep_view(),
{
    let c = v.clone();
    proof {
        assert forall|i: int| 0 <= i < c.deep_view().len() implies c.deep_view()[i]
            == v.deep_view()[i] by {
            assert(cloned::<ResolvedProp>(v[i], c[i]));
        }
        assert(c.deep_view() =~= v.deep_view());
    }
    c
}

impl Clone for SpreadAttribute {
    fn clone(&self) -> (r: Self)
        ensures
            r@ == self@,
    {
        SpreadAttribute {
            source: self.source.clone(),
            resolved_props: match &self.resolved_props {
                Some(props) => Some(clone_resolved_props(props)),
                None => None,
            },
        }
    }
}

impl Clone for PropAssignment {
    fn clone(&self) -> (r: Self)
        ensures
            r@ == self@,
    {
        PropAssignment { name: self.name.clone(), value: self.value.clone() }
    }
}

impl Clone for JSXAttribute {
    fn clone(&self) -> (r: Self)
        ensures
            r@ == self@,
    {
        match self {
            JSXAttribute::Regular(prop) => JSXAttribute::Regular(prop.clone()),
            JSXAttribute::Spread(spread) => JSXAttribute::Spread(spread.clone()),
        }
    }
}

impl Clone for JSXElementOccurrence {
    fn clone(&self) -> (r: Self)
        ensures
            r@ == self@,
    {
        let attributes = self.attributes.clone();
        let children = self.children.clone();
        proof {
            assert forall|i: int| 0 <= i < attributes.deep_view().len() implies attributes.deep_view()[i]
                == self.attributes.deep_view()[i] by {
                assert(cloned::<JSXAttribute>(self.attributes[i], attributes[i]));
            }
            assert(attributes.deep_view() =~= self.attributes.deep_view());
            assert forall|i: int| 0 <= i < children.deep_view().len() implies children.deep_view()[i]
                == self.children.deep_view()[i] by {
                assert(cloned::<ChildNode>(self.children[i], children[i]));
            }
            assert(children.deep_view() =~= self.children.deep_view());
        }
        JSXElementOccurrence {
            location: self.location.clone(),
            tag_name: self.tag_name.clone(),
            attributes,
            raw_text: self.raw_text.clone(),
            children,
        }
    }
}

} // verus!
