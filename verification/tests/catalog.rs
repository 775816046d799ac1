use weaver_resolver::attribute::AttributeCatalog;
use weaver_resolver::lineage::{AttributeLineage, GroupLineage, Provenance};
use weaver_resolver::resolved::{
    semconv_to_resolved_value, Attribute, AttributeRef, Tag, Tags, Value,
};
use weaver_resolver::semconv::{
    AttributeSpec, AttributeType, BasicRequirementLevelSpec, EnumEntriesSpec, Examples,
    PrimitiveOrArrayTypeSpec, RequirementLevel, Stability, ValueSpec,
};
use weaver_resolver::text::Double;

fn string_type() -> AttributeType {
    AttributeType::PrimitiveOrArray(PrimitiveOrArrayTypeSpec::String)
}

fn resolved(name: &str, brief: &str) -> Attribute {
    Attribute {
        name: name.to_owned(),
        attr_type: string_type(),
        brief: brief.to_owned(),
        examples: None,
        tag: None,
        requirement_level: RequirementLevel::Basic(BasicRequirementLevelSpec::Recommended),
        sampling_relevant: None,
        note: String::new(),
        stability: None,
        deprecated: None,
        tags: None,
        value: None,
    }
}

fn id_spec(id: &str, brief: Option<&str>, level: RequirementLevel) -> AttributeSpec {
    AttributeSpec::Id {
        id: id.to_owned(),
        attr_type: string_type(),
        brief: brief.map(|b| b.to_owned()),
        examples: None,
        tag: None,
        requirement_level: level,
        sampling_relevant: None,
        note: String::new(),
        stability: None,
        deprecated: None,
    }
}

fn bare_ref(target: &str) -> AttributeSpec {
    AttributeSpec::Ref {
        target: target.to_owned(),
        brief: None,
        examples: None,
        tag: None,
        requirement_level: None,
        sampling_relevant: None,
        note: None,
        stability: None,
        deprecated: None,
    }
}

#[test]
fn same_attribute_twice_gets_one_reference() {
    let mut catalog = AttributeCatalog::default();
    assert_eq!(catalog.len(), 0);
    let first = catalog.attribute_ref(resolved("http.method", "HTTP method"));
    assert_eq!(catalog.len(), 1);
    let second = catalog.attribute_ref(resolved("http.method", "HTTP method"));
    assert_eq!(catalog.len(), 1);
    assert_eq!(first, second);
    assert_eq!(first, AttributeRef(0));
}

#[test]
fn attributes_that_differ_in_one_field_get_two_references() {
    let mut catalog = AttributeCatalog::default();
    let plain = resolved("http.method", "HTTP method");
    let mut noted = resolved("http.method", "HTTP method");
    noted.note = "see RFC 9110".to_owned();
    assert_eq!(catalog.attribute_ref(plain), AttributeRef(0));
    assert_eq!(catalog.attribute_ref(noted), AttributeRef(1));
    assert_eq!(catalog.len(), 2);
}

#[test]
fn every_field_takes_part_in_equality() {
    let base = resolved("a", "b");
    let mut variants: Vec<Attribute> = Vec::new();
    let mut v = resolved("a", "b");
    v.name = "other".to_owned();
    variants.push(v);
    let mut v = resolved("a", "b");
    v.attr_type = AttributeType::PrimitiveOrArray(PrimitiveOrArrayTypeSpec::Int);
    variants.push(v);
    let mut v = resolved("a", "b");
    v.brief = "other".to_owned();
    variants.push(v);
    let mut v = resolved("a", "b");
    v.examples = Some(Examples::Strings(vec!["GET".to_owned()]));
    variants.push(v);
    let mut v = resolved("a", "b");
    v.tag = Some("t".to_owned());
    variants.push(v);
    let mut v = resolved("a", "b");
    v.requirement_level = RequirementLevel::Recommended { text: "if known".to_owned() };
    variants.push(v);
    let mut v = resolved("a", "b");
    v.sampling_relevant = Some(true);
    variants.push(v);
    let mut v = resolved("a", "b");
    v.note = "n".to_owned();
    variants.push(v);
    let mut v = resolved("a", "b");
    v.stability = Some(Stability::Stable);
    variants.push(v);
    let mut v = resolved("a", "b");
    v.deprecated = Some("use c".to_owned());
    variants.push(v);
    let mut v = resolved("a", "b");
    v.tags = Some(Tags { tags: vec![Tag { key: "k".to_owned(), value: "v".to_owned() }] });
    variants.push(v);
    let mut v = resolved("a", "b");
    v.value = Some(Value::Int { value: 1 });
    variants.push(v);

    let mut catalog = AttributeCatalog::default();
    assert_eq!(catalog.attribute_ref(base), AttributeRef(0));
    let mut expected: u32 = 1;
    for variant in variants {
        assert_eq!(catalog.attribute_ref(variant), AttributeRef(expected));
        expected += 1;
    }
    assert_eq!(catalog.len(), 13);
}

#[test]
fn examples_and_enum_types_compare_by_content() {
    let mut catalog = AttributeCatalog::default();
    let member = |id: &str, value: ValueSpec| EnumEntriesSpec {
        id: id.to_owned(),
        value,
        brief: None,
        note: None,
    };
    let mut a = resolved("net.transport", "");
    a.attr_type = AttributeType::Enum {
        allow_custom_values: false,
        members: vec![member("tcp", ValueSpec::String("ip_tcp".to_owned()))],
    };
    a.examples = Some(Examples::Doubles(vec![Double { bits: 1.5f64.to_bits() }]));
    let mut same = resolved("net.transport", "");
    same.attr_type = AttributeType::Enum {
        allow_custom_values: false,
        members: vec![member("tcp", ValueSpec::String("ip_tcp".to_owned()))],
    };
    same.examples = Some(Examples::Doubles(vec![Double { bits: 1.5f64.to_bits() }]));
    let mut other_member = resolved("net.transport", "");
    other_member.attr_type = AttributeType::Enum {
        allow_custom_values: false,
        members: vec![member("tcp", ValueSpec::Int(6))],
    };
    other_member.examples = Some(Examples::Doubles(vec![Double { bits: 1.5f64.to_bits() }]));
    let mut other_example = resolved("net.transport", "");
    other_example.attr_type = AttributeType::Enum {
        allow_custom_values: false,
        members: vec![member("tcp", ValueSpec::String("ip_tcp".to_owned()))],
    };
    other_example.examples = Some(Examples::Doubles(vec![Double { bits: 2.5f64.to_bits() }]));

    assert_eq!(catalog.attribute_ref(a), AttributeRef(0));
    assert_eq!(catalog.attribute_ref(same), AttributeRef(0));
    assert_eq!(catalog.attribute_ref(other_member), AttributeRef(1));
    assert_eq!(catalog.attribute_ref(other_example), AttributeRef(2));
}

#[test]
fn drain_gives_distinct_attributes_in_order_of_first_request() {
    let mut catalog = AttributeCatalog::default();
    let names = ["c", "a", "b", "a", "d", "c"];
    let mut refs = Vec::new();
    for name in names {
        refs.push(catalog.attribute_ref(resolved(name, "")));
    }
    assert_eq!(
        refs,
        vec![
            AttributeRef(0),
            AttributeRef(1),
            AttributeRef(2),
            AttributeRef(1),
            AttributeRef(3),
            AttributeRef(0)
        ]
    );
    assert_eq!(catalog.attribute_name_index(), vec!["c", "a", "b", "d"]);
    let drained = catalog.drain_attributes();
    assert_eq!(
        drained,
        vec![resolved("c", ""), resolved("a", ""), resolved("b", ""), resolved("d", "")]
    );
}

#[test]
fn drain_of_distinct_attributes_gives_them_back() {
    let mut catalog = AttributeCatalog::default();
    for i in 0..20u32 {
        let reference = catalog.attribute_ref(resolved(&format!("attr.{}", 19 - i), "x"));
        assert_eq!(reference, AttributeRef(i));
    }
    let drained = catalog.drain_attributes();
    assert_eq!(drained.len(), 20);
    for (i, attr) in drained.iter().enumerate() {
        assert_eq!(attr.name, format!("attr.{}", 19 - i));
    }
}

#[test]
fn empty_catalog_drains_to_nothing() {
    let catalog = AttributeCatalog::default();
    assert!(catalog.attribute_name_index().is_empty());
    assert!(catalog.drain_attributes().is_empty());
}

#[test]
fn ref_inherits_unset_fields_and_overrides_set_fields() {
    let mut catalog = AttributeCatalog::default();
    let mut lineage = GroupLineage::new();
    let root = id_spec(
        "http.method",
        Some("HTTP method"),
        RequirementLevel::Basic(BasicRequirementLevelSpec::Required),
    );
    let root_ref = catalog.resolve("registry.http", "", &root, Some(&mut lineage));
    assert_eq!(root_ref, Some(AttributeRef(0)));
    assert!(lineage.attribute_lineage("http.method").is_none());

    let reference = AttributeSpec::Ref {
        target: "http.method".to_owned(),
        brief: Some("override".to_owned()),
        examples: None,
        tag: None,
        requirement_level: None,
        sampling_relevant: None,
        note: None,
        stability: None,
        deprecated: None,
    };
    let resolved_ref = catalog.resolve("span.http.client", "", &reference, Some(&mut lineage));
    assert_eq!(resolved_ref, Some(AttributeRef(1)));

    let recorded = lineage.attribute_lineage("http.method").expect("lineage recorded");
    assert_eq!(
        *recorded,
        AttributeLineage {
            source_group: "registry.http".to_owned(),
            brief: Some(Provenance::Overridden),
            examples: Some(Provenance::Inherited),
            tag: Some(Provenance::Inherited),
            requirement_level: Some(Provenance::Inherited),
            sampling_relevant: Some(Provenance::Inherited),
            note: Some(Provenance::Inherited),
            stability: Some(Provenance::Inherited),
            deprecated: Some(Provenance::Inherited),
        }
    );

    let drained = catalog.drain_attributes();
    assert_eq!(drained.len(), 2);
    assert_eq!(drained[1].name, "http.method");
    assert_eq!(drained[1].brief, "override");
    assert_eq!(
        drained[1].requirement_level,
        RequirementLevel::Basic(BasicRequirementLevelSpec::Required)
    );
    assert_eq!(drained[1].attr_type, string_type());
    assert_eq!(drained[0].brief, "HTTP method");
}

#[test]
fn ref_overrides_every_field_that_it_sets() {
    let mut catalog = AttributeCatalog::default();
    let mut lineage = GroupLineage::new();
    let root = AttributeSpec::Id {
        id: "db.system".to_owned(),
        attr_type: string_type(),
        brief: Some("root brief".to_owned()),
        examples: Some(Examples::String("root".to_owned())),
        tag: Some("root tag".to_owned()),
        requirement_level: RequirementLevel::Basic(BasicRequirementLevelSpec::OptIn),
        sampling_relevant: Some(false),
        note: "root note".to_owned(),
        stability: Some(Stability::Experimental),
        deprecated: Some("root deprecated".to_owned()),
    };
    assert_eq!(catalog.resolve("g", "", &root, None), Some(AttributeRef(0)));
    let reference = AttributeSpec::Ref {
        target: "db.system".to_owned(),
        brief: Some("b".to_owned()),
        examples: Some(Examples::Ints(vec![1, 2])),
        tag: Some("t".to_owned()),
        requirement_level: Some(RequirementLevel::ConditionallyRequired {
            text: "when set".to_owned(),
        }),
        sampling_relevant: Some(true),
        note: Some("n".to_owned()),
        stability: Some(Stability::Stable),
        deprecated: Some("d".to_owned()),
    };
    assert_eq!(catalog.resolve("h", "", &reference, Some(&mut lineage)), Some(AttributeRef(1)));
    let recorded = lineage.attribute_lineage("db.system").expect("lineage recorded");
    assert_eq!(recorded.source_group, "g");
    assert_eq!(recorded.brief, Some(Provenance::Overridden));
    assert_eq!(recorded.examples, Some(Provenance::Overridden));
    assert_eq!(recorded.tag, Some(Provenance::Overridden));
    assert_eq!(recorded.requirement_level, Some(Provenance::Overridden));
    assert_eq!(recorded.sampling_relevant, Some(Provenance::Overridden));
    assert_eq!(recorded.note, Some(Provenance::Overridden));
    assert_eq!(recorded.stability, Some(Provenance::Overridden));
    assert_eq!(recorded.deprecated, Some(Provenance::Overridden));
    let drained = catalog.drain_attributes();
    assert_eq!(
        drained[1],
        Attribute {
            name: "db.system".to_owned(),
            attr_type: string_type(),
            brief: "b".to_owned(),
            examples: Some(Examples::Ints(vec![1, 2])),
            tag: Some("t".to_owned()),
            requirement_level: RequirementLevel::ConditionallyRequired {
                text: "when set".to_owned()
            },
            sampling_relevant: Some(true),
            note: "n".to_owned(),
            stability: Some(Stability::Stable),
            deprecated: Some("d".to_owned()),
            tags: None,
            value: None,
        }
    );
}

#[test]
fn ref_that_sets_nothing_resolves_to_the_root_itself() {
    let mut catalog = AttributeCatalog::default();
    let root = id_spec(
        "http.method",
        Some("HTTP method"),
        RequirementLevel::Basic(BasicRequirementLevelSpec::Required),
    );
    assert_eq!(catalog.resolve("g", "", &root, None), Some(AttributeRef(0)));
    assert_eq!(catalog.resolve("h", "", &bare_ref("http.method"), None), Some(AttributeRef(0)));
    assert_eq!(catalog.len(), 1);
}

#[test]
fn dangling_ref_yields_no_value() {
    let mut catalog = AttributeCatalog::default();
    let mut lineage = GroupLineage::new();
    let result = catalog.resolve("g", "", &bare_ref("nonexistent"), Some(&mut lineage));
    assert_eq!(result, None);
    assert_eq!(catalog.len(), 0);
    assert!(lineage.attribute_lineage("nonexistent").is_none());

    let root = id_spec("known", None, RequirementLevel::Basic(BasicRequirementLevelSpec::OptIn));
    assert_eq!(catalog.resolve("g", "", &root, None), Some(AttributeRef(0)));
    assert_eq!(catalog.resolve("g", "", &bare_ref("nonexistent"), None), None);
    assert_eq!(catalog.len(), 1);
}

#[test]
fn ref_resolves_once_its_target_was_declared() {
    let mut catalog = AttributeCatalog::default();
    assert_eq!(catalog.resolve("g", "", &bare_ref("late"), None), None);
    let root = id_spec("late", None, RequirementLevel::Basic(BasicRequirementLevelSpec::OptIn));
    assert_eq!(catalog.resolve("g", "", &root, None), Some(AttributeRef(0)));
    assert_eq!(catalog.resolve("g", "", &bare_ref("late"), None), Some(AttributeRef(0)));
}

#[test]
fn id_is_named_by_prefix_and_id() {
    let mut catalog = AttributeCatalog::default();
    let decl = id_spec("method", None, RequirementLevel::Basic(BasicRequirementLevelSpec::OptIn));
    assert_eq!(catalog.resolve("g", "http", &decl, None), Some(AttributeRef(0)));
    assert_eq!(catalog.resolve("g", "", &decl, None), Some(AttributeRef(1)));
    assert_eq!(catalog.resolve("g", "", &bare_ref("http.method"), None), Some(AttributeRef(0)));
    assert_eq!(catalog.resolve("g", "", &bare_ref("method"), None), Some(AttributeRef(1)));
    assert_eq!(catalog.attribute_name_index(), vec!["http.method", "method"]);
}

#[test]
fn id_without_brief_gets_the_empty_brief() {
    let mut catalog = AttributeCatalog::default();
    let decl = id_spec("a", None, RequirementLevel::Basic(BasicRequirementLevelSpec::OptIn));
    assert_eq!(catalog.resolve("g", "", &decl, None), Some(AttributeRef(0)));
    let drained = catalog.drain_attributes();
    assert_eq!(drained[0].brief, "");
    assert_eq!(drained[0].tags, None);
    assert_eq!(drained[0].value, None);
}

#[test]
fn later_id_replaces_the_root_but_keeps_references_given() {
    let mut catalog = AttributeCatalog::default();
    let mut lineage = GroupLineage::new();
    let first = id_spec("x", Some("one"), RequirementLevel::Basic(BasicRequirementLevelSpec::OptIn));
    let second =
        id_spec("x", Some("two"), RequirementLevel::Basic(BasicRequirementLevelSpec::Required));
    assert_eq!(catalog.resolve("g1", "", &first, None), Some(AttributeRef(0)));
    assert_eq!(catalog.resolve("g2", "", &second, None), Some(AttributeRef(1)));
    assert_eq!(catalog.resolve("g3", "", &bare_ref("x"), Some(&mut lineage)), Some(AttributeRef(1)));
    assert_eq!(lineage.attribute_lineage("x").expect("recorded").source_group, "g2");
    assert_eq!(catalog.resolve("g1", "", &first, None), Some(AttributeRef(0)));
    assert_eq!(catalog.resolve("g3", "", &bare_ref("x"), Some(&mut lineage)), Some(AttributeRef(0)));
    assert_eq!(lineage.attribute_lineage("x").expect("recorded").source_group, "g1");
    let drained = catalog.drain_attributes();
    assert_eq!(drained.len(), 2);
    assert_eq!(drained[0].brief, "one");
    assert_eq!(drained[1].brief, "two");
}

#[test]
fn lineage_fields_are_recorded_one_by_one() {
    let mut lineage = AttributeLineage::new("group");
    assert_eq!(lineage.source_group, "group");
    assert_eq!(lineage.brief, None);
    assert_eq!(lineage.brief(&None, "parent"), "parent");
    assert_eq!(lineage.brief, Some(Provenance::Inherited));
    assert_eq!(lineage.brief(&Some("local".to_owned()), "parent"), "local");
    assert_eq!(lineage.brief, Some(Provenance::Overridden));
    assert_eq!(lineage.note(&None, "n"), "n");
    assert_eq!(lineage.tag(&Some("t".to_owned()), &None), Some("t".to_owned()));
    assert_eq!(lineage.tag, Some(Provenance::Overridden));
    assert_eq!(lineage.deprecated(&None, &Some("d".to_owned())), Some("d".to_owned()));
    assert_eq!(lineage.deprecated, Some(Provenance::Inherited));
    assert_eq!(lineage.sampling_relevant(&None, &Some(true)), Some(true));
    assert_eq!(lineage.stability(&Some(Stability::Stable), &None), Some(Stability::Stable));
    assert_eq!(lineage.examples(&None, &Some(Examples::Bool(true))), Some(Examples::Bool(true)));
    assert_eq!(
        lineage.requirement_level(
            &None,
            &RequirementLevel::Basic(BasicRequirementLevelSpec::Required)
        ),
        RequirementLevel::Basic(BasicRequirementLevelSpec::Required)
    );
    assert_eq!(lineage.examples, Some(Provenance::Inherited));
    assert_eq!(lineage.requirement_level, Some(Provenance::Inherited));
}

#[test]
fn group_lineage_keeps_the_last_lineage_of_a_name() {
    let mut group = GroupLineage::new();
    let mut first = AttributeLineage::new("g1");
    let _ = first.brief(&None, "");
    let second = AttributeLineage::new("g2");
    group.add_attribute_lineage("a".to_owned(), first);
    group.add_attribute_lineage("a".to_owned(), second);
    let found = group.attribute_lineage("a").expect("recorded");
    assert_eq!(found.source_group, "g2");
    assert_eq!(found.brief, None);
    assert!(group.attribute_lineage("b").is_none());
}

#[test]
fn declared_values_convert_to_resolved_values() {
    assert_eq!(semconv_to_resolved_value(&None), None);
    assert_eq!(semconv_to_resolved_value(&Some(ValueSpec::Int(-7))), Some(Value::Int { value: -7 }));
    assert_eq!(
        semconv_to_resolved_value(&Some(ValueSpec::String("up".to_owned()))),
        Some(Value::String { value: "up".to_owned() })
    );
    assert_eq!(
        semconv_to_resolved_value(&Some(ValueSpec::Double(Double { bits: 0.25f64.to_bits() }))),
        Some(Value::Double { value: Double { bits: 0.25f64.to_bits() } })
    );
}
