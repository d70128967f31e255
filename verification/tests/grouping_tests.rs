use jsx_analyzer::aggregate::{group_by_identity, ComponentUsageAggregate, UsageStatistics};
use jsx_analyzer::identity::{
    identity_eq, ComponentDefinition, ComponentIdentity, ComponentSource, ExportName, Package,
};
use jsx_analyzer::manifest::load_package_info;
use jsx_analyzer::occurrence::{
    JSXAttribute, JSXElementOccurrence, JSXElementReference, PropAssignment, PropName, PropValue,
};
use jsx_analyzer::parsed::{build_usages, ParsedFile};
use jsx_analyzer::report::{AnalysisMetadata, AnalysisReport, AnalysisResult};
use jsx_analyzer::resolve::{identify_component, needs_resolution, ResolvedModule};
use jsx_analyzer::source::{
    is_target_file, offset_to_line_col, ImportBinding, ImportedName, ModuleSpecifier, SourceFile,
    SourceLocation, Span,
};
use jsx_analyzer::usage::ComponentUsage;
use jsx_analyzer::AnalysisError;

fn span_at(start: u32) -> Span {
    Span::new(start, start + 10, 1, 1, 1, 11)
}

fn occurrence_at(tag: &str, file: &str, start: u32, attributes: Vec<JSXAttribute>)
    -> JSXElementOccurrence {
    let source_file = SourceFile::new_for_test(
        format!("/proj/{file}"),
        file.to_string(),
    );
    JSXElementOccurrence::new(
        SourceLocation::new(source_file, span_at(start)),
        JSXElementReference::direct(tag.to_string()),
        attributes,
        format!("<{tag} />"),
        Vec::new(),
    )
}

fn string_prop(key: &str, value: &str) -> JSXAttribute {
    JSXAttribute::Regular(PropAssignment::new(
        PropName::Simple(key.to_string()),
        PropValue::StringLiteral(value.to_string()),
    ))
}

fn native_usage(tag: &str, file: &str, start: u32, attrs: Vec<JSXAttribute>) -> ComponentUsage {
    let occurrence = occurrence_at(tag, file, start, attrs);
    let definition = ComponentDefinition::new(
        ComponentIdentity::native(tag.to_string()),
        Some(occurrence.location().clone()),
    );
    ComponentUsage::new(definition, occurrence, None, None)
}

#[test]
fn test_native_element_identity_preserves_tag_name() {
    let div_identity = ComponentIdentity::native("div".to_string());
    let span_identity = ComponentIdentity::native("span".to_string());
    let button_identity = ComponentIdentity::native("button".to_string());

    assert_eq!(div_identity.display_name(), "div");
    assert_eq!(span_identity.display_name(), "span");
    assert_eq!(button_identity.display_name(), "button");

    assert_ne!(div_identity.generate_id(), span_identity.generate_id());
    assert_ne!(div_identity.generate_id(), button_identity.generate_id());
    assert_ne!(span_identity.generate_id(), button_identity.generate_id());
}

#[test]
fn test_native_elements_are_grouped_separately() {
    let div_identity = ComponentIdentity::native("div".to_string());
    let span_identity = ComponentIdentity::native("span".to_string());

    let mut map = std::collections::HashMap::new();
    map.insert(div_identity.clone(), "div_value");
    map.insert(span_identity.clone(), "span_value");

    assert_eq!(map.len(), 2);
    assert_eq!(map.get(&div_identity), Some(&"div_value"));
    assert_eq!(map.get(&span_identity), Some(&"span_value"));
}

#[test]
fn test_generate_id_is_stable_and_escapes_fields() {
    let identity = ComponentIdentity::new(
        ComponentSource::Internal { canonical_path: "src/a:b%c.tsx".to_string() },
        ExportName::direct("default".to_string()),
        Some(Package::new("app".to_string(), "1.0.0".to_string())),
    );
    assert_eq!(identity.generate_id(), identity.generate_id());
    let other = ComponentIdentity::new(
        ComponentSource::Internal { canonical_path: "src/a".to_string() },
        ExportName::direct("b%c.tsx:default".to_string()),
        Some(Package::new("app".to_string(), "1.0.0".to_string())),
    );
    assert_ne!(identity.generate_id(), other.generate_id());
}

#[test]
fn test_same_native_tag_lands_in_one_group() {
    // two usages of one native tag anywhere in the codebase land in one group
    let usages = vec![
        native_usage("div", "a.tsx", 0, vec![]),
        native_usage("span", "a.tsx", 20, vec![]),
        native_usage("div", "b.tsx", 5, vec![]),
    ];
    let groups = group_by_identity(usages);
    assert_eq!(groups.len(), 2);
    let div_group = groups
        .iter()
        .find(|g| g.display_name() == "div")
        .expect("a div group");
    assert_eq!(div_group.statistics().total_count(), 2);
    let span_group = groups
        .iter()
        .find(|g| g.display_name() == "span")
        .expect("a span group");
    assert_eq!(span_group.statistics().total_count(), 1);
    assert_ne!(div_group.id(), span_group.id());
}

#[test]
fn test_grouping_is_insertion_order_independent() {
    let a = native_usage("div", "a.tsx", 0, vec![string_prop("id", "x")]);
    let b = native_usage("span", "a.tsx", 20, vec![]);
    let c = native_usage("div", "b.tsx", 5, vec![string_prop("id", "y")]);
    let forward = vec![a.clone(), b.clone(), c.clone()];
    let shuffled = vec![c, b, a];

    let mut g1 = group_by_identity(forward);
    let mut g2 = group_by_identity(shuffled);
    assert_eq!(g1.len(), g2.len());
    g1.sort_by(|x, y| x.id().cmp(y.id()));
    g2.sort_by(|x, y| x.id().cmp(y.id()));
    for (x, y) in g1.iter_mut().zip(g2.iter_mut()) {
        x.sort_usages();
        y.sort_usages();
        assert_eq!(x.id(), y.id());
        assert!(identity_eq(x.identity(), y.identity()));
        assert_eq!(x.statistics().total_count(), y.statistics().total_count());
        assert_eq!(x.usages().len(), y.usages().len());
        for (ux, uy) in x.usages().iter().zip(y.usages().iter()) {
            assert_eq!(
                ux.occurrence().location().file().display_path(),
                uy.occurrence().location().file().display_path()
            );
            assert_eq!(
                ux.occurrence().location().span().start(),
                uy.occurrence().location().span().start()
            );
        }
    }
}

#[test]
fn test_end_to_end_default_import_two_usages() {
    // a file default-importing Button, used twice with distinct variants
    let file = SourceFile::new("/proj/src/App.tsx".to_string(), "/proj");
    assert_eq!(file.relative(), "src/App.tsx");
    let binding = ImportBinding::new(
        ModuleSpecifier::new("./Button".to_string()),
        ImportedName::Default,
        "Button".to_string(),
    );
    let occ1 = JSXElementOccurrence::new(
        SourceLocation::new(file.clone(), span_at(0)),
        JSXElementReference::direct("Button".to_string()),
        vec![string_prop("variant", "primary")],
        "<Button variant=\"primary\" />".to_string(),
        Vec::new(),
    );
    let occ2 = JSXElementOccurrence::new(
        SourceLocation::new(file.clone(), span_at(50)),
        JSXElementReference::direct("Button".to_string()),
        vec![string_prop("variant", "ghost")],
        "<Button variant=\"ghost\" />".to_string(),
        Vec::new(),
    );
    let parsed = ParsedFile::new(vec![occ1, occ2], vec![binding]);
    let resolution = ResolvedModule::new(
        "/proj/src/Button.tsx".to_string(),
        Some(Package::new("app".to_string(), "1.0.0".to_string())),
    );
    let resolutions = vec![Some(resolution.clone()), Some(resolution)];
    let usages = build_usages(&parsed, &resolutions, true, "/proj", None);
    assert_eq!(usages.len(), 2);

    let groups = group_by_identity(usages);
    assert_eq!(groups.len(), 1);
    let group = &groups[0];
    assert_eq!(group.statistics().total_count(), 2);
    // the export is "default", so the display name falls back to the tag text
    assert_eq!(group.display_name(), "Button");
    match group.identity().source() {
        ComponentSource::Internal { canonical_path } => {
            assert_eq!(canonical_path, "src/Button.tsx")
        }
        other => panic!("expected an internal source, got {:?}", other),
    }
    let variant = group
        .statistics()
        .prop_patterns()
        .iter()
        .find(|p| p.key() == "variant")
        .expect("a variant pattern");
    assert_eq!(variant.distribution().len(), 2);
    assert!(variant.distribution().iter().all(|d| d.count() == 1));
    // stable id across repeated runs over the same identity
    assert_eq!(group.id(), group.identity().generate_id().as_str());
}

#[test]
fn test_namespace_member_export_name() {
    // <Icons.spinner /> via `import * as Icons from "./icons"`: one trailing
    // segment, so the export name is that segment
    let file = SourceFile::new_for_test("/proj/src/App.tsx".to_string(), "src/App.tsx".to_string());
    let binding = ImportBinding::new(
        ModuleSpecifier::new("./icons".to_string()),
        ImportedName::Namespace,
        "Icons".to_string(),
    );
    let occ = JSXElementOccurrence::new(
        SourceLocation::new(file, span_at(0)),
        JSXElementReference::member("Icons".to_string(), vec!["spinner".to_string()]),
        Vec::new(),
        "<Icons.spinner />".to_string(),
        Vec::new(),
    );
    assert_eq!(occ.tag_name().display_name(), "Icons.spinner");
    assert!(needs_resolution(&occ, true));
    let resolution = ResolvedModule::new(
        "/proj/src/icons.tsx".to_string(),
        Some(Package::new("app".to_string(), "1.0.0".to_string())),
    );
    let definition = identify_component(&occ, Some(&binding), Some(&resolution), true, "/proj")
        .expect("an identity");
    assert_eq!(definition.identity().export_name(), &ExportName::Direct("spinner".to_string()));

    // two or more trailing segments keep the first two as object and property
    let occ2 = JSXElementOccurrence::new(
        occ.location().clone(),
        JSXElementReference::member(
            "Icons".to_string(),
            vec!["social".to_string(), "twitter".to_string()],
        ),
        Vec::new(),
        "<Icons.social.twitter />".to_string(),
        Vec::new(),
    );
    let resolution2 = ResolvedModule::new(
        "/proj/src/icons.tsx".to_string(),
        Some(Package::new("app".to_string(), "1.0.0".to_string())),
    );
    let definition2 = identify_component(&occ2, Some(&binding), Some(&resolution2), true, "/proj")
        .expect("an identity");
    match definition2.identity().export_name() {
        ExportName::Member { object, property } => {
            assert_eq!(object, "social");
            assert_eq!(property, "twitter");
        }
        other => panic!("expected a member export, got {:?}", other),
    }
    assert_eq!(definition2.identity().display_name(), "social.twitter");
}

#[test]
fn test_identify_component_drops() {
    let occ = occurrence_at("Button", "App.tsx", 0, vec![]);
    // no binding: dropped
    assert!(identify_component(&occ, None, None, true, "/proj").is_none());
    // binding but no resolution: dropped
    let binding = ImportBinding::new(
        ModuleSpecifier::new("./Button".to_string()),
        ImportedName::Default,
        "Button".to_string(),
    );
    assert!(identify_component(&occ, Some(&binding), None, true, "/proj").is_none());
    // resolution without package metadata: dropped
    let bare = ResolvedModule::new("/proj/src/Button.tsx".to_string(), None);
    assert!(identify_component(&occ, Some(&binding), Some(&bare), true, "/proj").is_none());
    // native tag with native elements excluded: dropped
    let div = occurrence_at("div", "App.tsx", 0, vec![]);
    assert!(identify_component(&div, None, None, false, "/proj").is_none());
    // native tag included: native identity
    let def = identify_component(&div, None, None, true, "/proj").expect("native identity");
    assert!(matches!(def.identity().source(), ComponentSource::Native));
}

#[test]
fn test_identify_component_external_package() {
    let occ = occurrence_at("Button", "App.tsx", 0, vec![]);
    let binding = ImportBinding::new(
        ModuleSpecifier::new("ui-kit".to_string()),
        ImportedName::Named("Button".to_string()),
        "Button".to_string(),
    );
    assert!(binding.source().is_package());
    let resolution = ResolvedModule::new(
        "/proj/node_modules/ui-kit/dist/button.js".to_string(),
        Some(Package::new("ui-kit".to_string(), "2.1.0".to_string())),
    );
    let def = identify_component(&occ, Some(&binding), Some(&resolution), true, "/proj")
        .expect("an identity");
    match def.identity().source() {
        ComponentSource::External { package } => {
            assert_eq!(package.name(), "ui-kit");
            assert_eq!(package.version(), "2.1.0");
        }
        other => panic!("expected an external source, got {:?}", other),
    }
}

#[test]
fn test_find_binding_matches_first_by_local_name() {
    let parsed = ParsedFile::new(
        vec![],
        vec![
            ImportBinding::new(
                ModuleSpecifier::new("./a".to_string()),
                ImportedName::Default,
                "Button".to_string(),
            ),
            ImportBinding::new(
                ModuleSpecifier::new("./b".to_string()),
                ImportedName::Named("Button".to_string()),
                "Button".to_string(),
            ),
        ],
    );
    let occ = occurrence_at("Button", "App.tsx", 0, vec![]);
    let binding = parsed.find_binding_for_element(&occ).expect("a binding");
    assert_eq!(binding.source().as_str(), "./a");
    let other = occurrence_at("Input", "App.tsx", 0, vec![]);
    assert!(parsed.find_binding_for_element(&other).is_none());
}

#[test]
fn test_sorted_statistics_are_deterministic() {
    let mut group = ComponentUsageAggregate::new(
        ComponentIdentity::native("div".to_string()),
        vec![
            native_usage("div", "b.tsx", 7, vec![string_prop("id", "y")]),
            native_usage("div", "a.tsx", 9, vec![string_prop("id", "x")]),
            native_usage("div", "a.tsx", 2, vec![string_prop("id", "x")]),
        ],
    );
    group.sort_usages();
    let paths: Vec<String> = group
        .usages()
        .iter()
        .map(|u| u.occurrence().location().file().display_path())
        .collect();
    assert_eq!(paths, vec!["a.tsx", "a.tsx", "b.tsx"]);
    assert!(group.usages()[0].occurrence().location().span().start() <= group.usages()[1]
        .occurrence()
        .location()
        .span()
        .start());
    let id_pattern = group
        .statistics()
        .prop_patterns()
        .iter()
        .find(|p| p.key() == "id")
        .expect("an id pattern");
    // "x" was seen twice, "y" once; entries are sorted by raw
    assert_eq!(id_pattern.distribution().len(), 2);
    assert_eq!(id_pattern.distribution()[0].raw(), "x");
    assert_eq!(id_pattern.distribution()[0].count(), 2);
    assert_eq!(id_pattern.distribution()[1].raw(), "y");
    assert_eq!(id_pattern.distribution()[1].count(), 1);
}

#[test]
fn test_statistics_collapse_identical_triples() {
    let usages = vec![
        native_usage("div", "a.tsx", 0, vec![string_prop("id", "x")]),
        native_usage("div", "a.tsx", 10, vec![string_prop("id", "x")]),
    ];
    let stats = UsageStatistics::compute(&usages);
    assert_eq!(stats.total_count(), 2);
    assert_eq!(stats.prop_patterns().len(), 1);
    assert_eq!(stats.prop_patterns()[0].distribution().len(), 1);
    assert_eq!(stats.prop_patterns()[0].distribution()[0].count(), 2);
}

#[test]
fn test_usage_serializable_record() {
    let usage = native_usage("div", "a.tsx", 3, vec![string_prop("id", "x")]);
    let record = usage.to_serializable();
    assert_eq!(record.file_path, "a.tsx");
    assert_eq!(record.raw, "<div />");
    assert_eq!(record.span.start(), 3);
    assert_eq!(record.props.len(), 1);
    assert_eq!(record.props[0].key, "id");
    assert_eq!(record.props[0].prop_type, "string");
    let group = ComponentUsageAggregate::new(
        ComponentIdentity::native("div".to_string()),
        vec![native_usage("div", "a.tsx", 3, vec![string_prop("id", "x")])],
    );
    let serial = group.to_serializable();
    assert_eq!(serial.name, "div");
    assert_eq!(serial.instances.len(), 1);
    assert_eq!(serial.props_usages.len(), 1);
    assert_eq!(serial.props_usages[0].key, "id");
    assert_eq!(serial.props_usages[0].distribution[0].count, 1);
}

#[test]
fn test_analysis_result_classification() {
    let ok: Result<AnalysisReport, AnalysisError> = Ok(AnalysisReport::new(
        AnalysisMetadata::new("/proj".to_string()),
        Vec::new(),
    ));
    let success = AnalysisResult::from(ok);
    assert!(success.is_success());
    assert_eq!(success.exit_code(), 0);
    assert_eq!(success.message(), None);

    let none_found = AnalysisResult::from(Err::<AnalysisReport, _>(AnalysisError::new(
        "No target files found".to_string(),
    )));
    assert_eq!(none_found.exit_code(), 1);
    assert_eq!(none_found.message().as_deref(), Some("No target files found"));

    let invalid = AnalysisResult::from(Err::<AnalysisReport, _>(AnalysisError::new(
        "Failed to canonicalize path: missing".to_string(),
    )));
    assert_eq!(invalid.exit_code(), 2);
    assert_eq!(
        invalid.message().as_deref(),
        Some("Invalid path: Failed to canonicalize path: missing")
    );

    let other = AnalysisResult::from(Err::<AnalysisReport, _>(AnalysisError::new(
        "parse failed".to_string(),
    )));
    assert_eq!(other.exit_code(), 3);
    assert_eq!(other.message().as_deref(), Some("parse failed"));
}

#[test]
fn test_load_package_info_reads_manifest_fields() {
    let manifest = "{\"name\": \"my-app\", \"version\": \"0.3.1\", \"private\": true}";
    let package = load_package_info(manifest).expect("a package");
    assert_eq!(package.name(), "my-app");
    assert_eq!(package.version(), "0.3.1");
    // unescaping happens inside the JSON reader
    let escaped = "{\"name\": \"a\\\"b\", \"version\": \"1\"}";
    let package = load_package_info(escaped).expect("a package");
    assert_eq!(package.name(), "a\"b");
    // a missing or non-string field yields nothing
    assert!(load_package_info("{\"name\": \"x\"}").is_none());
    assert!(load_package_info("{\"name\": 3, \"version\": \"1\"}").is_none());
    assert!(load_package_info("not json").is_none());
}

#[test]
fn test_is_target_file_by_extension() {
    let config = jsx_analyzer::config::AnalyzerConfig::default();
    assert!(is_target_file("src/App.tsx", &config.target_extensions));
    assert!(is_target_file("/a/b/c.js", &config.target_extensions));
    assert!(!is_target_file("src/readme.md", &config.target_extensions));
    assert!(!is_target_file("src/Makefile", &config.target_extensions));
    assert!(!is_target_file("src/.gitignore", &config.target_extensions));
}

#[test]
fn test_offset_to_line_col_counts_newlines() {
    let text = "ab\ncd\ne";
    assert_eq!(offset_to_line_col(text, 0), (1, 1));
    assert_eq!(offset_to_line_col(text, 2), (1, 3));
    assert_eq!(offset_to_line_col(text, 3), (2, 1));
    assert_eq!(offset_to_line_col(text, 4), (2, 2));
    assert_eq!(offset_to_line_col(text, 6), (3, 1));
    assert_eq!(offset_to_line_col(text, 99), (1, 1));
}
