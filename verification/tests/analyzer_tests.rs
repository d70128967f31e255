use jsx_analyzer::occurrence::{
    ChildNode, ExpressionKind, JSXAttribute, JSXElementReference, PropAssignment, PropName,
    PropValue, SimplifiedProp, SpreadAttribute,
};
use jsx_analyzer::simplify::{
    analyze_jsx_expression, analyze_jsx_expression_to_child_node, create_children_prop,
    extract_children, extract_imports, format_component_name,
};
use jsx_analyzer::text::{normalize_indentation, normalize_text};
use jsx_analyzer::source::ImportedName;
use jsx_analyzer::syntax::{
    ExprNode, ObjectEntry, RawAttrName, RawAttrValue, RawAttribute, RawChild, RawImportEntry,
    RawTagName, ValueNode,
};
use jsx_analyzer::tracker::{
    analyze_spread_attribute, analyze_variable_value, extract_props, merge_variable_values,
    VariableMap, VariableValue,
};

fn object_ab() -> ExprNode {
    ExprNode::ObjectLit(vec![
        ObjectEntry::Property {
            key: Some("a".to_string()),
            value: ValueNode::StringLit("1".to_string()),
        },
        ObjectEntry::Property {
            key: Some("b".to_string()),
            value: ValueNode::StringLit("2".to_string()),
        },
    ])
}

#[test]
fn test_normalize_indentation() {
    let source = "<HoverCardContent\n          align=\"start\"\n          className=\"w-[260px] text-sm\"\n          side=\"left\"\n        >";

    let normalized_source = normalize_indentation(source);

    assert_eq!(
        normalized_source,
        "<HoverCardContent\n  align=\"start\"\n  className=\"w-[260px] text-sm\"\n  side=\"left\"\n>"
    );
}

#[test]
fn test_normalize_text_collapses_whitespace() {
    assert_eq!(normalize_text("  Component \n   not found.  "), "Component not found.");
    assert_eq!(normalize_text("   \n\t  "), "");
    assert_eq!(normalize_text("plain"), "plain");
}

#[test]
fn test_spread_inline_object_simplifies_to_two_string_props() {
    // {...{a:"1", b:"2"}} simplifies to exactly two props with string values
    let vars = VariableMap::new();
    let spread = analyze_spread_attribute(&object_ab(), &vars);
    assert!(spread.is_resolved());
    assert_eq!(spread.source(), "<inline>");
    let props = spread.to_simplified_props();
    assert_eq!(props.len(), 2);
    assert_eq!(props[0].key(), "a");
    assert_eq!(props[0].value_pattern(), "string");
    assert_eq!(props[0].value(), Some("1"));
    assert_eq!(props[1].key(), "b");
    assert_eq!(props[1].value_pattern(), "string");
    assert_eq!(props[1].value(), Some("2"));
}

#[test]
fn test_spread_variable_matches_inline_spread() {
    // const x = {a:"1", b:"2"}; <C {...x}/> resolves like the inline spread
    let mut vars = VariableMap::new();
    vars.insert("x".to_string(), analyze_variable_value(&object_ab()));
    let via_variable = analyze_spread_attribute(&ExprNode::Identifier("x".to_string()), &vars);
    let inline = analyze_spread_attribute(&object_ab(), &vars);
    assert!(via_variable.is_resolved());
    assert_eq!(via_variable.source(), "x");
    let a = via_variable.to_simplified_props();
    let b = inline.to_simplified_props();
    assert_eq!(a.len(), b.len());
    for (pa, pb) in a.iter().zip(b.iter()) {
        assert_eq!(pa.key(), pb.key());
        assert_eq!(pa.value_pattern(), pb.value_pattern());
        assert_eq!(pa.value(), pb.value());
        assert_eq!(pa.raw(), pb.raw());
    }
}

#[test]
fn test_spread_unresolved_identifier_keeps_name() {
    // spreading a function parameter: unresolved, raw equals the identifier
    let vars = VariableMap::new();
    let spread = analyze_spread_attribute(&ExprNode::Identifier("props".to_string()), &vars);
    assert!(!spread.is_resolved());
    assert_eq!(spread.source(), "props");
    let simplified = spread.to_simplified_props();
    assert_eq!(simplified.len(), 1);
    assert_eq!(simplified[0].key(), "(spread)");
    assert_eq!(simplified[0].value_pattern(), "spread");
    assert_eq!(simplified[0].raw(), "props");
}

#[test]
fn test_spread_conditional_both_branches_resolved() {
    // {...(cond ? {a:1} : {b:2})}: both branches resolvable => both keys present
    let cond = ExprNode::Conditional {
        consequent: Box::new(ExprNode::ObjectLit(vec![ObjectEntry::Property {
            key: Some("a".to_string()),
            value: ValueNode::NumberLit("1".to_string()),
        }])),
        alternate: Box::new(ExprNode::ObjectLit(vec![ObjectEntry::Property {
            key: Some("b".to_string()),
            value: ValueNode::NumberLit("2".to_string()),
        }])),
    };
    let vars = VariableMap::new();
    let spread = analyze_spread_attribute(&cond, &vars);
    assert!(spread.is_resolved());
    assert_eq!(spread.source(), "<conditional>");
    let props = spread.to_simplified_props();
    assert_eq!(props.len(), 2);
    assert_eq!(props[0].key(), "a");
    assert_eq!(props[1].key(), "b");
}

#[test]
fn test_spread_conditional_duplicate_keys_preserved() {
    let cond = ExprNode::Conditional {
        consequent: Box::new(ExprNode::ObjectLit(vec![ObjectEntry::Property {
            key: Some("variant".to_string()),
            value: ValueNode::StringLit("primary".to_string()),
        }])),
        alternate: Box::new(ExprNode::ObjectLit(vec![ObjectEntry::Property {
            key: Some("variant".to_string()),
            value: ValueNode::StringLit("secondary".to_string()),
        }])),
    };
    let vars = VariableMap::new();
    let spread = analyze_spread_attribute(&cond, &vars);
    assert!(spread.is_resolved());
    let props = spread.to_simplified_props();
    assert_eq!(props.len(), 2);
    assert_eq!(props[0].key(), "variant");
    assert_eq!(props[1].key(), "variant");
}

#[test]
fn test_spread_conditional_unresolved_branch() {
    // either branch unresolved => raw exactly "<conditional>"
    let cond = ExprNode::Conditional {
        consequent: Box::new(ExprNode::ObjectLit(vec![ObjectEntry::Property {
            key: Some("a".to_string()),
            value: ValueNode::NumberLit("1".to_string()),
        }])),
        alternate: Box::new(ExprNode::Identifier("rest".to_string())),
    };
    let vars = VariableMap::new();
    let spread = analyze_spread_attribute(&cond, &vars);
    assert!(!spread.is_resolved());
    assert_eq!(spread.source(), "<conditional>");
    let simplified = spread.to_simplified_props();
    assert_eq!(simplified.len(), 1);
    assert_eq!(simplified[0].key(), "(spread)");
    assert_eq!(simplified[0].raw(), "<conditional>");
}

#[test]
fn test_spread_call_and_member_unresolved() {
    let vars = VariableMap::new();
    let call = analyze_spread_attribute(
        &ExprNode::Call { callee: Some("getConfig".to_string()) },
        &vars,
    );
    assert!(!call.is_resolved());
    assert_eq!(call.source(), "getConfig()");
    let member = analyze_spread_attribute(
        &ExprNode::StaticMember {
            object: Some("obj".to_string()),
            property: "props".to_string(),
        },
        &vars,
    );
    assert!(!member.is_resolved());
    assert_eq!(member.source(), "obj.props");
}

#[test]
fn test_spread_parenthesized_unwraps() {
    let vars = VariableMap::new();
    let spread =
        analyze_spread_attribute(&ExprNode::Parenthesized(Box::new(object_ab())), &vars);
    assert!(spread.is_resolved());
    assert_eq!(spread.source(), "<inline>");
}

#[test]
fn test_variable_later_declaration_overwrites() {
    let mut vars = VariableMap::new();
    vars.insert("x".to_string(), analyze_variable_value(&object_ab()));
    vars.insert("x".to_string(), analyze_variable_value(&ExprNode::Call { callee: None }));
    let spread = analyze_spread_attribute(&ExprNode::Identifier("x".to_string()), &vars);
    assert!(!spread.is_resolved());
}

#[test]
fn test_merge_variable_values_concatenates() {
    let v1 = analyze_variable_value(&object_ab());
    let v2 = analyze_variable_value(&object_ab());
    match merge_variable_values(v1, v2) {
        VariableValue::ObjectLiteral(props) => assert_eq!(props.len(), 4),
        VariableValue::Unknown => panic!("expected a merged object literal"),
    }
    let v3 = analyze_variable_value(&object_ab());
    let v4 = analyze_variable_value(&ExprNode::Arrow);
    assert!(matches!(merge_variable_values(v3, v4), VariableValue::Unknown));
}

#[test]
fn test_whitespace_children_produce_no_children_prop() {
    // children that are entirely whitespace text yield nothing
    let raw = vec![
        RawChild::Text("   \n   ".to_string()),
        RawChild::Text("\t".to_string()),
    ];
    let children = extract_children(&raw);
    assert!(children.is_empty());
    assert!(create_children_prop(&children).is_none());
}

#[test]
fn test_mixed_children_concatenate_raw_in_source_order() {
    // ["Hello, ", <span/>, {count}] => one "children" prop, pattern "mixed"
    let children = vec![
        ChildNode::Text("Hello, ".to_string()),
        ChildNode::JSXElement { tag: "span".to_string(), raw: "<span/>".to_string() },
        ChildNode::Expression { raw: "count".to_string(), kind: ExpressionKind::Identifier },
    ];
    let prop = create_children_prop(&children).expect("children prop expected");
    assert_eq!(prop.key(), "children");
    assert_eq!(prop.value_pattern(), "mixed");
    assert_eq!(prop.value(), None);
    assert_eq!(prop.raw(), "Hello, <span/>{count}");
}

#[test]
fn test_text_only_children_expose_value() {
    let children = vec![
        ChildNode::Text("Click ".to_string()),
        ChildNode::Text("me".to_string()),
    ];
    let prop = create_children_prop(&children).expect("children prop expected");
    assert_eq!(prop.value_pattern(), "string");
    assert_eq!(prop.value(), Some("Click me"));
    assert_eq!(prop.raw(), "Click me");
}

#[test]
fn test_jsx_only_children() {
    let children = vec![
        ChildNode::JSXElement { tag: "Header".to_string(), raw: "<Header />".to_string() },
        ChildNode::JSXElement { tag: "Body".to_string(), raw: "<Body />".to_string() },
    ];
    let prop = create_children_prop(&children).expect("children prop expected");
    assert_eq!(prop.value_pattern(), "jsx");
    assert_eq!(prop.raw(), "<Header /><Body />");
}

#[test]
fn test_fragment_only_children() {
    let children = vec![ChildNode::JSXFragment];
    let prop = create_children_prop(&children).expect("children prop expected");
    assert_eq!(prop.value_pattern(), "fragment");
    assert_eq!(prop.raw(), "fragment");
}

#[test]
fn test_expression_children_classified() {
    let raw = vec![RawChild::ExpressionContainer(ExprNode::Conditional {
        consequent: Box::new(ExprNode::StringLit("Loading...".to_string())),
        alternate: Box::new(ExprNode::StringLit("Submit".to_string())),
    })];
    let children = extract_children(&raw);
    assert_eq!(children.len(), 1);
    match &children[0] {
        ChildNode::Expression { raw, kind } => {
            assert_eq!(raw, "<conditional>");
            assert!(matches!(kind, ExpressionKind::ConditionalExpression));
        }
        other => panic!("expected an expression child, got {:?}", other),
    }
}

#[test]
fn test_extract_children_normalizes_text_and_raw() {
    let raw = vec![
        RawChild::Text("\n   Component\n   not found.\n ".to_string()),
        RawChild::Element {
            name: RawTagName::Identifier("Header".to_string()),
            raw: "<Header\n          title=\"x\"\n        />".to_string(),
        },
    ];
    let children = extract_children(&raw);
    assert_eq!(children.len(), 2);
    match &children[0] {
        ChildNode::Text(t) => assert_eq!(t, "Component not found."),
        other => panic!("expected text, got {:?}", other),
    }
    match &children[1] {
        ChildNode::JSXElement { tag, raw } => {
            assert_eq!(tag, "Header");
            assert_eq!(raw, "<Header\n  title=\"x\"\n/>");
        }
        other => panic!("expected element, got {:?}", other),
    }
}

#[test]
fn test_analyze_jsx_expression_literals() {
    let count = analyze_jsx_expression(&ExprNode::NumberLit("42".to_string()));
    let (pattern, value, raw) = count.to_pattern_value_and_raw();
    assert_eq!(pattern, "literal");
    assert_eq!(value.as_deref(), Some("42"));
    assert_eq!(raw, "42");

    let enabled = analyze_jsx_expression(&ExprNode::BoolLit(true));
    let (pattern, value, _) = enabled.to_pattern_value_and_raw();
    assert_eq!(pattern, "literal");
    assert_eq!(value.as_deref(), Some("true"));

    let null = analyze_jsx_expression(&ExprNode::NullLit);
    let (pattern, value, _) = null.to_pattern_value_and_raw();
    assert_eq!(pattern, "literal");
    assert_eq!(value.as_deref(), Some("null"));
}

#[test]
fn test_analyze_jsx_expression_identifiers_and_calls() {
    let ident = analyze_jsx_expression(&ExprNode::Identifier("handleClick".to_string()));
    let (pattern, value, raw) = ident.to_pattern_value_and_raw();
    assert_eq!((pattern.as_str(), value, raw.as_str()), ("identifier", None, "handleClick"));

    let member = analyze_jsx_expression(&ExprNode::StaticMember {
        object: Some("state".to_string()),
        property: "isOpen".to_string(),
    });
    let (pattern, _, raw) = member.to_pattern_value_and_raw();
    assert_eq!((pattern.as_str(), raw.as_str()), ("member", "state.isOpen"));

    let call = analyze_jsx_expression(&ExprNode::Call { callee: Some("getValue".to_string()) });
    let (pattern, _, raw) = call.to_pattern_value_and_raw();
    assert_eq!((pattern.as_str(), raw.as_str()), ("call", "getValue()"));

    let arrow = analyze_jsx_expression(&ExprNode::Arrow);
    let (pattern, _, raw) = arrow.to_pattern_value_and_raw();
    assert_eq!((pattern.as_str(), raw.as_str()), ("arrow", "() => {}"));
}

#[test]
fn test_analyze_jsx_expression_conditional_child() {
    let child = analyze_jsx_expression_to_child_node(&ExprNode::JSXElementNode(
        RawTagName::Identifier("Spinner".to_string()),
    ));
    match child {
        ChildNode::JSXElement { tag, raw } => {
            assert_eq!(tag, "Spinner");
            assert_eq!(raw, "<Spinner />");
        }
        other => panic!("expected element, got {:?}", other),
    }
}

#[test]
fn test_format_component_name_variants() {
    let direct = format_component_name(&RawTagName::Identifier("Button".to_string()));
    assert_eq!(direct.display_name(), "Button");

    let ns = format_component_name(&RawTagName::Namespaced {
        namespace: "svg".to_string(),
        name: "path".to_string(),
    });
    assert_eq!(ns.display_name(), "svg:path");

    let member = format_component_name(&RawTagName::Member {
        object: "Icons".to_string(),
        property: "spinner".to_string(),
    });
    match &member {
        JSXElementReference::MemberAccess { object, members } => {
            assert_eq!(object, "Icons");
            assert_eq!(members, &vec!["spinner".to_string()]);
        }
        other => panic!("expected member access, got {:?}", other),
    }
    assert_eq!(member.display_name(), "Icons.spinner");

    let this = format_component_name(&RawTagName::This);
    assert_eq!(this.display_name(), "this");
}

#[test]
fn test_is_native_by_first_character() {
    assert!(JSXElementReference::direct("div".to_string()).is_native());
    assert!(!JSXElementReference::direct("Button".to_string()).is_native());
    assert!(!JSXElementReference::direct("".to_string()).is_native());
    assert!(!JSXElementReference::member("Icons".to_string(), vec!["spinner".to_string()])
        .is_native());
}

#[test]
fn test_extract_props_spread_and_regular() {
    let mut vars = VariableMap::new();
    vars.insert("obj".to_string(), analyze_variable_value(&object_ab()));
    let attrs = vec![
        RawAttribute::Spread(ExprNode::Identifier("obj".to_string())),
        RawAttribute::Attribute {
            name: RawAttrName::Ident("className".to_string()),
            value: Some(RawAttrValue::StringLit("primary".to_string())),
        },
        RawAttribute::Attribute {
            name: RawAttrName::Ident("disabled".to_string()),
            value: None,
        },
    ];
    let props = extract_props(&attrs, &vars);
    assert_eq!(props.len(), 3);
    match &props[0] {
        JSXAttribute::Spread(s) => {
            assert!(s.is_resolved());
            assert_eq!(s.source(), "obj");
            assert_eq!(s.resolved_props().unwrap().len(), 2);
        }
        other => panic!("expected spread, got {:?}", other),
    }
    match &props[1] {
        JSXAttribute::Regular(p) => {
            let simplified = p.to_simplified();
            assert_eq!(simplified.key(), "className");
            assert_eq!(simplified.value_pattern(), "string");
            assert_eq!(simplified.value(), Some("primary"));
        }
        other => panic!("expected regular prop, got {:?}", other),
    }
    match &props[2] {
        JSXAttribute::Regular(p) => {
            let simplified = p.to_simplified();
            assert_eq!(simplified.value_pattern(), "boolean");
            assert_eq!(simplified.value(), Some("true"));
        }
        other => panic!("expected regular prop, got {:?}", other),
    }
}

#[test]
fn test_namespaced_prop_name() {
    let name = PropName::Namespaced { namespace: "xlink".to_string(), name: "href".to_string() };
    assert_eq!(name.as_string(), "xlink:href");
}

#[test]
fn test_prop_value_patterns() {
    let (p, v, r) = PropValue::StringLiteral("hi".to_string()).to_pattern_value_and_raw();
    assert_eq!((p.as_str(), v.as_deref(), r.as_str()), ("string", Some("hi"), "hi"));
    let (p, v, r) = PropValue::BooleanImplicit.to_pattern_value_and_raw();
    assert_eq!((p.as_str(), v.as_deref(), r.as_str()), ("boolean", Some("true"), "true"));
    let (p, v, r) = PropValue::JSXFragment.to_pattern_value_and_raw();
    assert_eq!((p.as_str(), v, r.as_str()), ("fragment", None, "fragment"));
    let (p, _, r) = PropValue::Mixed("a {b} c".to_string()).to_pattern_value_and_raw();
    assert_eq!((p.as_str(), r.as_str()), ("mixed", "a {b} c"));
}

#[test]
fn test_child_node_raw_text_forms() {
    assert_eq!(ChildNode::Text("hi".to_string()).raw_text(), "hi");
    assert_eq!(ChildNode::JSXFragment.raw_text(), "<>...</>");
    assert_eq!(
        ChildNode::Expression { raw: "count".to_string(), kind: ExpressionKind::Identifier }
            .raw_text(),
        "{count}"
    );
    assert_eq!(ChildNode::JSXFragment.node_type(), "fragment");
}

#[test]
fn test_extract_imports_builds_bindings() {
    let entries = vec![
        RawImportEntry::new(
            "./Button".to_string(),
            ImportedName::Default,
            "Button".to_string(),
        ),
        RawImportEntry::new(
            "./Input".to_string(),
            ImportedName::Named("Input".to_string()),
            "Input".to_string(),
        ),
        RawImportEntry::new(
            "./icons".to_string(),
            ImportedName::Namespace,
            "Icons".to_string(),
        ),
    ];
    let bindings = extract_imports(&entries);
    assert_eq!(bindings.len(), 3);
    assert_eq!(bindings[0].local_name(), "Button");
    assert_eq!(bindings[0].imported_name(), &ImportedName::Default);
    assert_eq!(bindings[1].imported_name(), &ImportedName::Named("Input".to_string()));
    assert_eq!(bindings[2].imported_name(), &ImportedName::Namespace);
    assert!(bindings[0].source().is_relative());
    assert!(!SpreadAttribute::new("x".to_string()).is_resolved());
    let _ = PropAssignment::new(
        PropName::Simple("a".to_string()),
        PropValue::StringLiteral("b".to_string()),
    );
    let _ = SimplifiedProp {
        key: "k".to_string(),
        value_pattern: "string".to_string(),
        value: None,
        raw: "r".to_string(),
    };
}
