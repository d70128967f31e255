//! The plain syntactic facts the analysis reads off one file: tag names,
//! attribute and child shapes, initializer expressions, and import entries.
//! The parser hands occurrences over in this form.
use vstd::prelude::*;

use crate::source::ImportedName;

verus! {

/// A tag name as written: an identifier, a namespaced name, a member path
/// (the object side already rendered as a dotted string), or `this`.
#[derive(Debug)]
pub enum RawTagName {
    Identifier(String),
    Namespaced { namespace: String, name: String },
    Member { object: String, property: String },
    This,
}

/// The flat shape read off an object property's value.
#[derive(Debug)]
pub enum ValueNode {
    StringLit(String),
    NumberLit(String),
    BoolLit(bool),
    NullLit,
    Identifier(String),
    StaticMember { object: Option<String>, property: String },
    Arrow,
    Call { callee: Option<String> },
    Other,
}

/// One entry of an object literal: a property with a static key (a computed
/// key is read as no key), or a nested spread.
#[derive(Debug)]
pub enum ObjectEntry {
    Property { key: Option<String>, value: ValueNode },
    Spread,
}

/// The shape read off an expression that stands as a prop value, a child,
/// a spread argument, or a variable initializer.
#[derive(Debug)]
pub enum ExprNode {
    StringLit(String),
    NumberLit(String),
    BoolLit(bool),
    NullLit,
    BigIntLit(String),
    Identifier(String),
    StaticMember { object: Option<String>, property: String },
    ComputedMember { object: Option<String> },
    PrivateField { object: Option<String>, field: String },
    Call { callee: Option<String> },
    Arrow,
    Conditional { consequent: Box<ExprNode>, alternate: Box<ExprNode> },
    Parenthesized(Box<ExprNode>),
    ObjectLit(Vec<ObjectEntry>),
    JSXElementNode(RawTagName),
    JSXFragmentNode,
    EmptyExpr,
    Other,
}

/// An attribute name as written.
#[derive(Debug)]
pub enum RawAttrName {
    Ident(String),
    Namespaced { namespace: String, name: String },
}

/// An attribute value as written.
#[derive(Debug)]
pub enum RawAttrValue {
    StringLit(String),
    ExpressionContainer(ExprNode),
    Element,
    Fragment,
}

/// One attribute of an opening element.
#[derive(Debug)]
pub enum RawAttribute {
    Attribute { name: RawAttrName, value: Option<RawAttrValue> },
    Spread(ExprNode),
}

/// One child of an element as written: text, a nested element with its raw
/// source, a fragment, an expression container, or a spread child.
#[derive(Debug)]
pub enum RawChild {
    Text(String),
    Element { name: RawTagName, raw: String },
    Fragment,
    ExpressionContainer(ExprNode),
    Spread,
}

/// One import entry of a module: the requested specifier, what is imported,
/// and the local name it is bound to.
#[derive(Debug)]
pub struct RawImportEntry {
    pub module_request: String,
    pub imported: ImportedName,
    pub local_name: String,
}

impl RawImportEntry {
    pub fn new(module_request: String, imported: ImportedName, local_name: String) -> (r: Self)
        ensures
            r.module_request@ == module_request@,
            r.imported@ == imported@,
            r.local_name@ == local_name@,
    {
        RawImportEntry { module_request, imported, local_name }
    }
}

} // verus!
