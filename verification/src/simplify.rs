//! Classification of raw syntactic shapes into the analysis model: tag
//! references, prop values, children, and import bindings.
use vstd::prelude::*;
use vstd::string::*;

use crate::occurrence::ChildNode;
use crate::occurrence::ChildNodeV;
use crate::occurrence::ExpressionKind;
use crate::occurrence::JSXElementReference;
use crate::occurrence::JSXElementReferenceV;
use crate::occurrence::PropValue;
use crate::occurrence::PropValueV;
use crate::occurrence::SimplifiedProp;
use crate::occurrence::SimplifiedPropV;
use crate::occurrence::child_raw_text;
use crate::occurrence::reference_display_name;
use crate::source::ImportBinding;
use crate::source::ImportBindingV;
use crate::source::ModuleSpecifier;
use crate::syntax::ExprNode;
use crate::syntax::RawChild;
use crate::syntax::RawImportEntry;
use crate::syntax::RawTagName;
use crate::text::normalize_indentation_spec;
use crate::text::normalize_text_spec;
use crate::text::split_spec;

verus! {

/// The string a missing object identifier is rendered as.
pub open spec fn opt_str_or(o: Option<String>, alt: Seq<char>) -> Seq<char> {
    match o {
        Some(s) => s@,
        None => alt,
    }
}

pub(crate) fn opt_or_str(o: &Option<String>, alt: &str) -> (r: String)
    ensures
        r@ == opt_str_or(*o, alt@),
{
    match o {
        Some(s) => s.clone(),
        None => alt.to_owned(),
    }
}

/// `true` or `false` as written in source.
pub open spec fn bool_raw(b: bool) -> Seq<char> {
    if b {
        "true"@
    } else {
        "false"@
    }
}

pub(crate) fn bool_raw_string(b: bool) -> (r: String)
    ensures
        r@ == bool_raw(b),
{
    if b {
        "true".to_owned()
    } else {
        "false".to_owned()
    }
}

/// The tag reference a raw tag name is read as: identifiers and `this`
/// directly, namespaced names as `namespace:name`, and a member path split
/// on dots into its object and trailing segments.
pub open spec fn format_component_name_spec(name: RawTagName) -> JSXElementReferenceV {
    match name {
        RawTagName::Identifier(n) => JSXElementReferenceV::Direct(n@),
        RawTagName::Namespaced { namespace, name } => JSXElementReferenceV::Direct(
            namespace@ + ":"@ + name@,
        ),
        RawTagName::Member { object, property } => {
            let full = object@ + "."@ + property@;
            let parts = split_spec(full, '.');
            if parts.len() >= 2 {
                JSXElementReferenceV::MemberAccess { object: parts[0], members: parts.drop_first() }
            } else {
                JSXElementReferenceV::Direct(full)
            }
        },
        RawTagName::This => JSXElementReferenceV::Direct("this"@),
    }
}

/// Read a raw tag name as a tag reference.
pub fn format_component_name(name: &RawTagName) -> (r: JSXElementReference)
    ensures
        r@ == format_component_name_spec(*name),
{
    match name {
        RawTagName::Identifier(n) => JSXElementReference::direct(n.clone()),
        RawTagName::Namespaced { namespace, name } => {
            let full = namespace.clone().concat(":").concat(name.as_str());
            JSXElementReference::direct(full)
        },
        RawTagName::Member { object, property } => {
            let full = object.clone().concat(".").concat(property.as_str());
            let parts = crate::text::split_char(full.as_str(), '.');
            if parts.len() >= 2 {
                let head = parts[0].clone();
                let mut members: Vec<String> = Vec::new();
                let mut i: usize = 1;
                proof {
                    assert(members.deep_view() =~= parts.deep_view().subrange(1, 1));
                }
                while i < parts.len()
                    invariant
                        1 <= i <= parts.len(),
                        parts.deep_view().len() == parts.len(),
                        members.deep_view() == parts.deep_view().subrange(1, i as int),
                    decreases parts.len() - i,
                {
                    let ghost prev = members.deep_view();
                    members.push(parts[i].clone());
                    proof {
                        assert(members.deep_view() =~= prev.push(parts.deep_view()[i as int]));
                        assert(members.deep_view() =~= parts.deep_view().subrange(1, i + 1));
                    }
                    i = i + 1;
                }
                proof {
                    assert(parts.deep_view().subrange(1, parts.len() as int)
                        =~= parts.deep_view().drop_first());
                }
                JSXElementReference::member(head, members)
            } else {
                JSXElementReference::direct(full)
            }
        },
        RawTagName::This => JSXElementReference::direct("this".to_owned()),
    }
}

/// The prop value an expression shape is classified as: literals keep their
/// raw text, references and calls keep a rendered raw form, nested elements
/// and fragments become their own patterns, and everything else is an opaque
/// expression.
pub open spec fn analyze_jsx_expression_spec(e: ExprNode) -> PropValueV {
    match e {
        ExprNode::StringLit(s) => PropValueV::Expression {
            raw: s@,
            kind: ExpressionKind::Literal,
        },
        ExprNode::NumberLit(raw) => PropValueV::Expression {
            raw: raw@,
            kind: ExpressionKind::Literal,
        },
        ExprNode::BoolLit(b) => PropValueV::Expression {
            raw: bool_raw(b),
            kind: ExpressionKind::Literal,
        },
        ExprNode::NullLit => PropValueV::Expression {
            raw: "null"@,
            kind: ExpressionKind::Literal,
        },
        ExprNode::BigIntLit(raw) => PropValueV::Expression {
            raw: raw@,
            kind: ExpressionKind::Literal,
        },
        ExprNode::Identifier(n) => PropValueV::Expression {
            raw: n@,
            kind: ExpressionKind::Identifier,
        },
        ExprNode::StaticMember { object, property } => PropValueV::Expression {
            raw: opt_str_or(object, "<expr>"@) + "."@ + property@,
            kind: ExpressionKind::MemberExpression,
        },
        ExprNode::ComputedMember { object } => PropValueV::Expression {
            raw: opt_str_or(object, "<expr>"@) + "[<computed>]"@,
            kind: ExpressionKind::MemberExpression,
        },
        ExprNode::PrivateField { object, field } => PropValueV::Expression {
            raw: opt_str_or(object, "<expr>"@) + ".#"@ + field@,
            kind: ExpressionKind::MemberExpression,
        },
        ExprNode::Call { callee } => PropValueV::Expression {
            raw: opt_str_or(callee, "<fn>"@) + "()"@,
            kind: ExpressionKind::CallExpression,
        },
        ExprNode::Arrow => PropValueV::Expression {
            raw: "() => {}"@,
            kind: ExpressionKind::ArrowFunction,
        },
        ExprNode::Conditional { .. } => PropValueV::Expression {
            raw: "<condition> ? <consequent> : <alternate>"@,
            kind: ExpressionKind::ConditionalExpression,
        },
        ExprNode::JSXElementNode(_) => PropValueV::JSXElement("jsx"@),
        ExprNode::JSXFragmentNode => PropValueV::JSXFragment,
        ExprNode::EmptyExpr => PropValueV::Expression {
            raw: Seq::<char>::empty(),
            kind: ExpressionKind::Complex,
        },
        ExprNode::Parenthesized(_) => PropValueV::Expression {
            raw: "<expression>"@,
            kind: ExpressionKind::Complex,
        },
        ExprNode::ObjectLit(_) => PropValueV::Expression {
            raw: "<expression>"@,
            kind: ExpressionKind::Complex,
        },
        ExprNode::Other => PropValueV::Expression {
            raw: "<expression>"@,
            kind: ExpressionKind::Complex,
        },
    }
}

/// Classify an expression that stands as a prop value.
pub fn analyze_jsx_expression(e: &ExprNode) -> (r: PropValue)
    ensures
        r@ == analyze_jsx_expression_spec(*e),
{
    match e {
        ExprNode::StringLit(s) => PropValue::Expression {
            raw: s.clone(),
            kind: ExpressionKind::Literal,
        },
        ExprNode::NumberLit(raw) => PropValue::Expression {
            raw: raw.clone(),
            kind: ExpressionKind::Literal,
        },
        ExprNode::BoolLit(b) => PropValue::Expression {
            raw: bool_raw_string(*b),
            kind: ExpressionKind::Literal,
        },
        ExprNode::NullLit => PropValue::Expression {
            raw: "null".to_owned(),
            kind: ExpressionKind::Literal,
        },
        ExprNode::BigIntLit(raw) => PropValue::Expression {
            raw: raw.clone(),
            kind: ExpressionKind::Literal,
        },
        ExprNode::Identifier(n) => PropValue::Expression {
            raw: n.clone(),
            kind: ExpressionKind::Identifier,
        },
        ExprNode::StaticMember { object, property } => PropValue::Expression {
            raw: opt_or_str(object, "<expr>").concat(".").concat(property.as_str()),
            kind: ExpressionKind::MemberExpression,
        },
        ExprNode::ComputedMember { object } => PropValue::Expression {
            raw: opt_or_str(object, "<expr>").concat("[<computed>]"),
            kind: ExpressionKind::MemberExpression,
        },
        ExprNode::PrivateField { object, field } => PropValue::Expression {
            raw: opt_or_str(object, "<expr>").concat(".#").concat(field.as_str()),
            kind: ExpressionKind::MemberExpression,
        },
        ExprNode::Call { callee } => PropValue::Expression {
            raw: opt_or_str(callee, "<fn>").concat("()"),
            kind: ExpressionKind::CallExpression,
        },
        ExprNode::Arrow => PropValue::Expression {
            raw: "() => {}".to_owned(),
            kind: ExpressionKind::ArrowFunction,
        },
        ExprNode::Conditional { .. } => PropValue::Expression {
            raw: "<condition> ? <consequent> : <alternate>".to_owned(),
            kind: ExpressionKind::ConditionalExpression,
        },
        ExprNode::JSXElementNode(_) => PropValue::JSXElement("jsx".to_owned()),
        ExprNode::JSXFragmentNode => PropValue::JSXFragment,
        ExprNode::EmptyExpr => PropValue::Expression {
            raw: String::new(),
            kind: ExpressionKind::Complex,
        },
        ExprNode::Parenthesized(_) => PropValue::Expression {
            raw: "<expression>".to_owned(),
            kind: ExpressionKind::Complex,
        },
        ExprNode::ObjectLit(_) => PropValue::Expression {
            raw: "<expression>".to_owned(),
            kind: ExpressionKind::Complex,
        },
        ExprNode::Other => PropValue::Expression {
            raw: "<expression>".to_owned(),
            kind: ExpressionKind::Complex,
        },
    }
}

/// The child node an expression child is read as: literals and identifiers
/// keep their text, nested elements keep their tag with a shorthand raw
/// form, and anything else is an opaque expression.
pub open spec fn expression_child_spec(e: ExprNode) -> ChildNodeV {
    match e {
        ExprNode::StringLit(s) => ChildNodeV::Expression { raw: s@, kind: ExpressionKind::Literal },
        ExprNode::NumberLit(raw) => ChildNodeV::Expression {
            raw: raw@,
            kind: ExpressionKind::Literal,
        },
        ExprNode::BoolLit(b) => ChildNodeV::Expression {
            raw: bool_raw(b),
            kind: ExpressionKind::Literal,
        },
        ExprNode::NullLit => ChildNodeV::Expression {
            raw: "null"@,
            kind: ExpressionKind::Literal,
        },
        ExprNode::Identifier(n) => ChildNodeV::Expression {
            raw: n@,
            kind: ExpressionKind::Identifier,
        },
        ExprNode::JSXElementNode(name) => ChildNodeV::JSXElement {
            tag: reference_display_name(format_component_name_spec(name)),
            raw: "<"@ + reference_display_name(format_component_name_spec(name)) + " />"@,
        },
        ExprNode::JSXFragmentNode => ChildNodeV::JSXFragment,
        ExprNode::Conditional { .. } => ChildNodeV::Expression {
            raw: "<conditional>"@,
            kind: ExpressionKind::ConditionalExpression,
        },
        ExprNode::Arrow => ChildNodeV::Expression {
            raw: "() => {}"@,
            kind: ExpressionKind::ArrowFunction,
        },
        _ => ChildNodeV::Expression { raw: "<expression>"@, kind: ExpressionKind::Complex },
    }
}

/// Read an expression child as a child node.
pub fn analyze_jsx_expression_to_child_node(e: &ExprNode) -> (r: ChildNode)
    ensures
        r@ == expression_child_spec(*e),
{
    match e {
        ExprNode::StringLit(s) => ChildNode::Expression {
            raw: s.clone(),
            kind: ExpressionKind::Literal,
        },
        ExprNode::NumberLit(raw) => ChildNode::Expression {
            raw: raw.clone(),
            kind: ExpressionKind::Literal,
        },
        ExprNode::BoolLit(b) => ChildNode::Expression {
            raw: bool_raw_string(*b),
            kind: ExpressionKind::Literal,
        },
        ExprNode::NullLit => ChildNode::Expression {
            raw: "null".to_owned(),
            kind: ExpressionKind::Literal,
        },
        ExprNode::Identifier(n) => ChildNode::Expression {
            raw: n.clone(),
            kind: ExpressionKind::Identifier,
        },
        ExprNode::JSXElementNode(name) => {
            let tag = format_component_name(name).display_name();
            let raw = "<".to_owned().concat(tag.as_str()).concat(" />");
            ChildNode::JSXElement { tag, raw }
        },
        ExprNode::JSXFragmentNode => ChildNode::JSXFragment,
        ExprNode::Conditional { .. } => ChildNode::Expression {
            raw: "<conditional>".to_owned(),
            kind: ExpressionKind::ConditionalExpression,
        },
        ExprNode::Arrow => ChildNode::Expression {
            raw: "() => {}".to_owned(),
            kind: ExpressionKind::ArrowFunction,
        },
        ExprNode::BigIntLit(_) => ChildNode::Expression {
            raw: "<expression>".to_owned(),
            kind: ExpressionKind::Complex,
        },
        ExprNode::StaticMember { .. } => ChildNode::Expression {
            raw: "<expression>".to_owned(),
            kind: ExpressionKind::Complex,
        },
        ExprNode::ComputedMember { .. } => ChildNode::Expression {
            raw: "<expression>".to_owned(),
            kind: ExpressionKind::Complex,
        },
        ExprNode::PrivateField { .. } => ChildNode::Expression {
            raw: "<expression>".to_owned(),
            kind: ExpressionKind::Complex,
        },
        ExprNode::Call { .. } => ChildNode::Expression {
            raw: "<expression>".to_owned(),
            kind: ExpressionKind::Complex,
        },
        ExprNode::Parenthesized(_) => ChildNode::Expression {
            raw: "<expression>".to_owned(),
            kind: ExpressionKind::Complex,
        },
        ExprNode::ObjectLit(_) => ChildNode::Expression {
            raw: "<expression>".to_owned(),
            kind: ExpressionKind::Complex,
        },
        ExprNode::EmptyExpr => ChildNode::Expression {
            raw: "<expression>".to_owned(),
            kind: ExpressionKind::Complex,
        },
        ExprNode::Other => ChildNode::Expression {
            raw: "<expression>".to_owned(),
            kind: ExpressionKind::Complex,
        },
    }
}

/// What one raw child contributes to the children list: whitespace-only text
/// contributes nothing, other text its normalized form, an element its tag
/// and indentation-normalized raw source, and a spread child an opaque
/// expression.
pub open spec fn child_contribution(c: RawChild) -> Seq<ChildNodeV> {
    match c {
        RawChild::Text(t) => {
            if normalize_text_spec(t@).len() == 0 {
                Seq::<ChildNodeV>::empty()
            } else {
                seq![ChildNodeV::Text(normalize_text_spec(t@))]
            }
        },
        RawChild::Element { name, raw } => seq![
            ChildNodeV::JSXElement {
                tag: reference_display_name(format_component_name_spec(name)),
                raw: normalize_indentation_spec(raw@),
            },
        ],
        RawChild::Fragment => seq![ChildNodeV::JSXFragment],
        RawChild::ExpressionContainer(e) => seq![expression_child_spec(e)],
        RawChild::Spread => seq![
            ChildNodeV::Expression { raw: "...spread"@, kind: ExpressionKind::Complex },
        ],
    }
}

/// The children list a raw child list is read as, in order.
pub open spec fn extract_children_spec(children: Seq<RawChild>) -> Seq<ChildNodeV>
    decreases children.len(),
{
    if children.len() == 0 {
        Seq::<ChildNodeV>::empty()
    } else {
        extract_children_spec(children.drop_last()) + child_contribution(children.last())
    }
}

/// Read the raw children of an element, dropping whitespace-only text.
pub fn extract_children(children: &Vec<RawChild>) -> (r: Vec<ChildNode>)
    ensures
        r.deep_view() == extract_children_spec(children@),
{
    let mut out: Vec<ChildNode> = Vec::new();
    let mut i: usize = 0;
    proof {
        assert(children@.subrange(0, 0) =~= Seq::<RawChild>::empty());
        assert(out.deep_view() =~= extract_children_spec(children@.subrange(0, 0)));
    }
    while i < children.len()
        invariant
            0 <= i <= children.len(),
            out.deep_view() == extract_children_spec(children@.subrange(0, i as int)),
        decreases children.len() - i,
    {
        let ghost pre = children@.subrange(0, i as int);
        let ghost post = children@.subrange(0, i + 1);
        let ghost prev = out.deep_view();
        proof {
            assert(post.drop_last() =~= pre);
            assert(post.last() == children@[i as int]);
        }
        match &children[i] {
            RawChild::Text(t) => {
                let text_value = crate::text::normalize_text(t.as_str());
                if text_value.as_str().unicode_len() == 0 {
                    proof {
                        assert(out.deep_view() =~= extract_children_spec(post));
                    }
                } else {
                    out.push(ChildNode::Text(text_value));
                    proof {
                        assert(out.deep_view() =~= prev + child_contribution(children@[i as int]));
                    }
                }
            },
            RawChild::Element { name, raw } => {
                let tag = format_component_name(name).display_name();
                let nraw = crate::text::normalize_indentation(raw.as_str());
                out.push(ChildNode::JSXElement { tag, raw: nraw });
                proof {
                    assert(out.deep_view() =~= prev + child_contribution(children@[i as int]));
                }
            },
            RawChild::Fragment => {
                out.push(ChildNode::JSXFragment);
                proof {
                    assert(out.deep_view() =~= prev + child_contribution(children@[i as int]));
                }
            },
            RawChild::ExpressionContainer(e) => {
                out.push(analyze_jsx_expression_to_child_node(e));
                proof {
                    assert(out.deep_view() =~= prev + child_contribution(children@[i as int]));
                }
            },
            RawChild::Spread => {
                out.push(
                    ChildNode::Expression {
                        raw: "...spread".to_owned(),
                        kind: ExpressionKind::Complex,
                    },
                );
                proof {
                    assert(out.deep_view() =~= prev + child_contribution(children@[i as int]));
                }
            },
        }
        i = i + 1;
    }
    proof {
        assert(children@.subrange(0, children.len() as int) =~= children@);
    }
    out
}

/// Whether some child is a text node.
pub open spec fn has_text_child(cs: Seq<ChildNodeV>) -> bool {
    exists|i: int| 0 <= i < cs.len() && (#[trigger] cs[i]) is Text
}

/// Whether some child is a nested element.
pub open spec fn has_jsx_child(cs: Seq<ChildNodeV>) -> bool {
    exists|i: int| 0 <= i < cs.len() && (#[trigger] cs[i]) is JSXElement
}

/// Whether some child is a fragment.
pub open spec fn has_fragment_child(cs: Seq<ChildNodeV>) -> bool {
    exists|i: int| 0 <= i < cs.len() && (#[trigger] cs[i]) is JSXFragment
}

/// Whether some child is an expression.
pub open spec fn has_expression_child(cs: Seq<ChildNodeV>) -> bool {
    exists|i: int| 0 <= i < cs.len() && (#[trigger] cs[i]) is Expression
}

/// How many distinct child kinds occur.
pub open spec fn child_kind_count(cs: Seq<ChildNodeV>) -> int {
    (if has_text_child(cs) {
        1int
    } else {
        0int
    }) + (if has_jsx_child(cs) {
        1int
    } else {
        0int
    }) + (if has_expression_child(cs) {
        1int
    } else {
        0int
    }) + (if has_fragment_child(cs) {
        1int
    } else {
        0int
    })
}

/// The raw forms of all children, concatenated in source order.
pub open spec fn children_raw_concat(cs: Seq<ChildNodeV>) -> Seq<char>
    decreases cs.len(),
{
    if cs.len() == 0 {
        Seq::<char>::empty()
    } else {
        children_raw_concat(cs.drop_last()) + child_raw_text(cs.last())
    }
}

/// The contents of all text children, concatenated in source order.
pub open spec fn children_text_concat(cs: Seq<ChildNodeV>) -> Seq<char>
    decreases cs.len(),
{
    if cs.len() == 0 {
        Seq::<char>::empty()
    } else {
        children_text_concat(cs.drop_last()) + (match cs.last() {
            ChildNodeV::Text(t) => t,
            _ => Seq::<char>::empty(),
        })
    }
}

/// The synthesized `children` prop: none without qualifying children; with
/// several kinds mixed, the `mixed` pattern over the concatenated raw forms;
/// with one kind, that kind's pattern, and only pure text exposes a value.
pub open spec fn children_prop_spec(cs: Seq<ChildNodeV>) -> Option<SimplifiedPropV> {
    if cs.len() == 0 {
        None
    } else {
        let triple = if child_kind_count(cs) > 1 {
            ("mixed"@, None::<Seq<char>>, children_raw_concat(cs))
        } else if has_text_child(cs) && !has_jsx_child(cs) && !has_expression_child(cs)
            && !has_fragment_child(cs) {
            ("string"@, Some(children_text_concat(cs)), children_text_concat(cs))
        } else if has_jsx_child(cs) {
            ("jsx"@, None::<Seq<char>>, children_raw_concat(cs))
        } else if has_fragment_child(cs) {
            ("fragment"@, None::<Seq<char>>, "fragment"@)
        } else if has_expression_child(cs) {
            ("expression"@, None::<Seq<char>>, children_raw_concat(cs))
        } else {
            ("unknown"@, None::<Seq<char>>, "unknown"@)
        };
        Some(
            SimplifiedPropV {
                key: "children"@,
                value_pattern: triple.0,
                value: triple.1,
                raw: triple.2,
            },
        )
    }
}

/// Scanning one more child extends the kind flags and the running
/// concatenations in the evident way.
proof fn lemma_children_snoc(cs: Seq<ChildNodeV>, i: int)
    requires
        0 <= i < cs.len(),
    ensures
        has_text_child(cs.subrange(0, i + 1)) == (has_text_child(cs.subrange(0, i)) || cs[i]
            is Text),
        has_jsx_child(cs.subrange(0, i + 1)) == (has_jsx_child(cs.subrange(0, i)) || cs[i]
            is JSXElement),
        has_fragment_child(cs.subrange(0, i + 1)) == (has_fragment_child(cs.subrange(0, i)) || cs[i]
            is JSXFragment),
        has_expression_child(cs.subrange(0, i + 1)) == (has_expression_child(cs.subrange(0, i))
            || cs[i] is Expression),
        children_raw_concat(cs.subrange(0, i + 1)) == children_raw_concat(cs.subrange(0, i))
            + child_raw_text(cs[i]),
        children_text_concat(cs.subrange(0, i + 1)) == children_text_concat(cs.subrange(0, i)) + (
        match cs[i] {
            ChildNodeV::Text(t) => t,
            _ => Seq::<char>::empty(),
        }),
{
    let pre = cs.subrange(0, i);
    let post = cs.subrange(0, i + 1);
    assert(post.drop_last() =~= pre);
    assert(post.last() == cs[i]);
    assert forall|j: int| 0 <= j < pre.len() implies pre[j] == post[j] by {}
    if has_text_child(pre) {
        let j = choose|j: int| 0 <= j < pre.len() && (#[trigger] pre[j]) is Text;
        assert(post[j] is Text);
    }
    if has_text_child(post) && !(cs[i] is Text) {
        let j = choose|j: int| 0 <= j < post.len() && (#[trigger] post[j]) is Text;
        assert(j < i + 1);
        assert(pre[j] is Text);
    }
    if cs[i] is Text {
        assert(post[i] is Text);
    }
    if has_jsx_child(pre) {
        let j = choose|j: int| 0 <= j < pre.len() && (#[trigger] pre[j]) is JSXElement;
        assert(post[j] is JSXElement);
    }
    if has_jsx_child(post) && !(cs[i] is JSXElement) {
        let j = choose|j: int| 0 <= j < post.len() && (#[trigger] post[j]) is JSXElement;
        assert(pre[j] is JSXElement);
    }
    if cs[i] is JSXElement {
        assert(post[i] is JSXElement);
    }
    if has_fragment_child(pre) {
        let j = choose|j: int| 0 <= j < pre.len() && (#[trigger] pre[j]) is JSXFragment;
        assert(post[j] is JSXFragment);
    }
    if has_fragment_child(post) && !(cs[i] is JSXFragment) {
        let j = choose|j: int| 0 <= j < post.len() && (#[trigger] post[j]) is JSXFragment;
        assert(pre[j] is JSXFragment);
    }
    if cs[i] is JSXFragment {
        assert(post[i] is JSXFragment);
    }
    if has_expression_child(pre) {
        let j = choose|j: int| 0 <= j < pre.len() && (#[trigger] pre[j]) is Expression;
        assert(post[j] is Expression);
    }
    if has_expression_child(post) && !(cs[i] is Expression) {
        let j = choose|j: int| 0 <= j < post.len() && (#[trigger] post[j]) is Expression;
        assert(pre[j] is Expression);
    }
    if cs[i] is Expression {
        assert(post[i] is Expression);
    }
}

/// Synthesize the `children` prop for the (already filtered) children of one
/// occurrence.
pub fn create_children_prop(children: &Vec<ChildNode>) -> (r: Option<SimplifiedProp>)
    ensures
        r.deep_view() == children_prop_spec(children.deep_view()),
{
    if children.len() == 0 {
        return None;
    }
    let ghost cs = children.deep_view();
    let mut has_text = false;
    let mut has_jsx = false;
    let mut has_expression = false;
    let mut has_fragment = false;
    let mut text_acc = String::new();
    let mut raw_acc = String::new();
    let mut i: usize = 0;
    proof {
        assert(cs.subrange(0, 0) =~= Seq::<ChildNodeV>::empty());
    }
    while i < children.len()
        invariant
            0 <= i <= children.len(),
            cs == children.deep_view(),
            cs.len() == children.len(),
            has_text == has_text_child(cs.subrange(0, i as int)),
            has_jsx == has_jsx_child(cs.subrange(0, i as int)),
            has_fragment == has_fragment_child(cs.subrange(0, i as int)),
            has_expression == has_expression_child(cs.subrange(0, i as int)),
            raw_acc@ == children_raw_concat(cs.subrange(0, i as int)),
            text_acc@ == children_text_concat(cs.subrange(0, i as int)),
        decreases children.len() - i,
    {
        proof {
            lemma_children_snoc(cs, i as int);
        }
        let child = &children[i];
        match child {
            ChildNode::Text(text) => {
                has_text = true;
                text_acc.append(text.as_str());
            },
            ChildNode::JSXElement { .. } => {
                has_jsx = true;
            },
            ChildNode::JSXFragment => {
                has_fragment = true;
            },
            ChildNode::Expression { .. } => {
                has_expression = true;
            },
        }
        let rt = child.raw_text();
        raw_acc.append(rt.as_str());
        i = i + 1;
    }
    proof {
        assert(cs.subrange(0, children.len() as int) =~= cs);
    }
    let type_count: u32 = (if has_text {
        1
    } else {
        0
    }) + (if has_jsx {
        1
    } else {
        0
    }) + (if has_expression {
        1
    } else {
        0
    }) + (if has_fragment {
        1
    } else {
        0
    });
    let value_pattern: String;
    let value: Option<String>;
    let raw: String;
    if type_count > 1 {
        value_pattern = "mixed".to_owned();
        value = None;
        raw = raw_acc;
    } else if has_text && !has_jsx && !has_expression && !has_fragment {
        value_pattern = "string".to_owned();
        value = Some(text_acc.clone());
        raw = text_acc;
    } else if has_jsx {
        value_pattern = "jsx".to_owned();
        value = None;
        raw = raw_acc;
    } else if has_fragment {
        value_pattern = "fragment".to_owned();
        value = None;
        raw = "fragment".to_owned();
    } else if has_expression {
        value_pattern = "expression".to_owned();
        value = None;
        raw = raw_acc;
    } else {
        value_pattern = "unknown".to_owned();
        value = None;
        raw = "unknown".to_owned();
    }
    Some(SimplifiedProp { key: "children".to_owned(), value_pattern, value, raw })
}

/// The import bindings a module's import entries are read as, in order.
pub open spec fn import_binding_of(e: RawImportEntry) -> ImportBindingV {
    ImportBindingV {
        source: e.module_request@,
        imported_name: e.imported@,
        local_name: e.local_name@,
    }
}

/// Read the module's import entries as import bindings.
pub fn extract_imports(entries: &Vec<RawImportEntry>) -> (r: Vec<ImportBinding>)
    ensures
        r.deep_view() == entries@.map_values(|e: RawImportEntry| import_binding_of(e)),
{
    let mut out: Vec<ImportBinding> = Vec::new();
    let mut i: usize = 0;
    proof {
        assert(out.deep_view() =~= entries@.subrange(0, 0).map_values(
            |e: RawImportEntry| import_binding_of(e),
        ));
    }
    while i < entries.len()
        invariant
            0 <= i <= entries.len(),
            out.deep_view() == entries@.subrange(0, i as int).map_values(
                |e: RawImportEntry| import_binding_of(e),
            ),
        decreases entries.len() - i,
    {
        let e = &entries[i];
        let ghost prev = out.deep_view();
        let binding = ImportBinding::new(
            ModuleSpecifier::new(e.module_request.clone()),
            e.imported.clone(),
            e.local_name.clone(),
        );
        out.push(binding);
        proof {
            assert(out.deep_view() =~= prev.push(import_binding_of(entries@[i as int])));
            assert(entries@.subrange(0, i + 1) =~= entries@.subrange(0, i as int).push(
                entries@[i as int],
            ));
            assert(out.deep_view() =~= entries@.subrange(0, i + 1).map_values(
                |e: RawImportEntry| import_binding_of(e),
            ));
        }
        i = i + 1;
    }
    proof {
        assert(entries@.subrange(0, entries.len() as int) =~= entries@);
    }
    out
}

/// Children that are entirely whitespace text produce no children prop: the
/// whitespace-only text nodes are all excluded, nothing is left to
/// classify, and no prop is synthesized.
pub proof fn lemma_whitespace_children_drop(children: Seq<RawChild>)
    requires
        forall|i: int|
            0 <= i < children.len() ==> match #[trigger] children[i] {
                RawChild::Text(t) => crate::text::trim_spec(t@).len() == 0,
                _ => false,
            },
    ensures
        extract_children_spec(children) == Seq::<ChildNodeV>::empty(),
        children_prop_spec(extract_children_spec(children)) is None,
    decreases children.len(),
{
    if children.len() == 0 {
        assert(extract_children_spec(children) =~= Seq::<ChildNodeV>::empty());
    } else {
        lemma_whitespace_children_drop(children.drop_last());
        match children.last() {
            RawChild::Text(t) => {
                assert(normalize_text_spec(t@).len() == 0);
                assert(child_contribution(children.last()) =~= Seq::<ChildNodeV>::empty());
            },
            _ => {
                assert(false);
            },
        }
        assert(extract_children_spec(children) =~= Seq::<ChildNodeV>::empty());
    }
}

} // verus!

