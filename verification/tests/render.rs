use weaver_resolver::check::{
    RegistryCheckArgs, RegistryPath, DEFAULT_REGISTRY, DEFAULT_REGISTRY_GIT_SUB_DIR,
};
use weaver_resolver::search::{append_lines, attribute_type_text, LineStyle, TextLine};
use weaver_resolver::semconv::{
    AttributeSpec, AttributeType, BasicRequirementLevelSpec, EnumEntriesSpec,
    PrimitiveOrArrayTypeSpec, RequirementLevel, TemplateTypeSpec, ValueSpec,
};

fn spec_id(id: &str, attr_type: AttributeType, level: RequirementLevel) -> AttributeSpec {
    AttributeSpec::Id {
        id: id.to_owned(),
        attr_type,
        brief: None,
        examples: None,
        tag: None,
        requirement_level: level,
        sampling_relevant: None,
        note: String::new(),
        stability: None,
        deprecated: None,
    }
}

fn raw(content: &str) -> TextLine {
    TextLine { content: content.to_owned(), style: LineStyle::Raw }
}

#[test]
fn no_attributes_append_nothing() {
    let mut text = vec![raw("before")];
    append_lines(&[], &mut text);
    assert_eq!(text, vec![raw("before")]);
}

#[test]
fn attributes_are_listed_under_a_label() {
    let attributes = vec![
        spec_id(
            "http.method",
            AttributeType::PrimitiveOrArray(PrimitiveOrArrayTypeSpec::String),
            RequirementLevel::Basic(BasicRequirementLevelSpec::Required),
        ),
        AttributeSpec::Ref {
            target: "skipped".to_owned(),
            brief: None,
            examples: None,
            tag: None,
            requirement_level: Some(RequirementLevel::Basic(BasicRequirementLevelSpec::Required)),
            sampling_relevant: None,
            note: None,
            stability: None,
            deprecated: None,
        },
        spec_id(
            "http.retries",
            AttributeType::PrimitiveOrArray(PrimitiveOrArrayTypeSpec::Ints),
            RequirementLevel::Basic(BasicRequirementLevelSpec::Recommended),
        ),
        spec_id(
            "http.header",
            AttributeType::Template(TemplateTypeSpec::Strings),
            RequirementLevel::Recommended { text: "required".to_owned() },
        ),
    ];
    let mut text = vec![raw("before")];
    append_lines(&attributes, &mut text);
    assert_eq!(
        text,
        vec![
            raw("before"),
            TextLine { content: "Attributes: ".to_owned(), style: LineStyle::Label },
            raw("- http.method (type=string, required)"),
            raw("- http.retries (type=int[])"),
            raw("- http.header (type=template[string[]])"),
        ]
    );
}

#[test]
fn only_references_leave_the_label_alone() {
    let attributes = vec![AttributeSpec::Ref {
        target: "skipped".to_owned(),
        brief: None,
        examples: None,
        tag: None,
        requirement_level: None,
        sampling_relevant: None,
        note: None,
        stability: None,
        deprecated: None,
    }];
    let mut text = Vec::new();
    append_lines(&attributes, &mut text);
    assert_eq!(text, vec![TextLine { content: "Attributes: ".to_owned(), style: LineStyle::Label }]);
}

#[test]
fn types_have_their_texts() {
    let primitive = |t| attribute_type_text(&AttributeType::PrimitiveOrArray(t));
    assert_eq!(primitive(PrimitiveOrArrayTypeSpec::Boolean), "boolean");
    assert_eq!(primitive(PrimitiveOrArrayTypeSpec::Int), "int");
    assert_eq!(primitive(PrimitiveOrArrayTypeSpec::Double), "double");
    assert_eq!(primitive(PrimitiveOrArrayTypeSpec::String), "string");
    assert_eq!(primitive(PrimitiveOrArrayTypeSpec::Strings), "string[]");
    assert_eq!(primitive(PrimitiveOrArrayTypeSpec::Ints), "int[]");
    assert_eq!(primitive(PrimitiveOrArrayTypeSpec::Doubles), "double[]");
    assert_eq!(primitive(PrimitiveOrArrayTypeSpec::Booleans), "boolean[]");
    let template = |t| attribute_type_text(&AttributeType::Template(t));
    assert_eq!(template(TemplateTypeSpec::Boolean), "template[boolean]");
    assert_eq!(template(TemplateTypeSpec::Int), "template[int]");
    assert_eq!(template(TemplateTypeSpec::Double), "template[double]");
    assert_eq!(template(TemplateTypeSpec::String), "template[string]");
    assert_eq!(template(TemplateTypeSpec::Strings), "template[string[]]");
    assert_eq!(template(TemplateTypeSpec::Ints), "template[int[]]");
    assert_eq!(template(TemplateTypeSpec::Doubles), "template[double[]]");
    assert_eq!(template(TemplateTypeSpec::Booleans), "template[boolean[]]");
    let member = |id: &str| EnumEntriesSpec {
        id: id.to_owned(),
        value: ValueSpec::Int(0),
        brief: None,
        note: None,
    };
    let enumeration = |members| {
        attribute_type_text(&AttributeType::Enum { allow_custom_values: true, members })
    };
    assert_eq!(enumeration(vec![]), "enum {}");
    assert_eq!(enumeration(vec![member("tcp")]), "enum {tcp}");
    assert_eq!(enumeration(vec![member("tcp"), member("udp"), member("pipe")]), "enum {tcp, udp, pipe}");
}

#[test]
fn check_arguments_default_to_the_public_registry() {
    let args = RegistryCheckArgs::default();
    assert_eq!(
        args,
        RegistryCheckArgs {
            registry: RegistryPath::Url {
                url: "https://github.com/open-telemetry/semantic-conventions.git".to_owned()
            },
            registry_git_sub_dir: Some("model".to_owned()),
        }
    );
    assert_eq!(DEFAULT_REGISTRY, "https://github.com/open-telemetry/semantic-conventions.git");
    assert_eq!(DEFAULT_REGISTRY_GIT_SUB_DIR, "model");
}

#[test]
fn registry_paths_are_urls_or_local_directories() {
    let url = |text: &str| RegistryPath::Url { url: text.to_owned() };
    let local = |text: &str| RegistryPath::Local { path: text.to_owned() };
    assert_eq!(RegistryPath::from_text("https://example.com/r.git"), url("https://example.com/r.git"));
    assert_eq!(RegistryPath::from_text("http://example.com/r.git"), url("http://example.com/r.git"));
    assert_eq!(RegistryPath::from_text("https://"), url("https://"));
    assert_eq!(RegistryPath::from_text("http:/"), local("http:/"));
    assert_eq!(RegistryPath::from_text("HTTPS://example.com"), local("HTTPS://example.com"));
    assert_eq!(RegistryPath::from_text("/srv/registry"), local("/srv/registry"));
    assert_eq!(RegistryPath::from_text(""), local(""));
    assert_eq!(RegistryPath::from_text("git@example.com:r.git"), local("git@example.com:r.git"));
    assert_eq!(RegistryPath::from_text("ünï/https://"), local("ünï/https://"));
    assert_eq!(url("https://example.com/r.git").text(), "https://example.com/r.git");
    assert_eq!(local("model").text(), "model");
    assert_eq!(RegistryPath::from_text(DEFAULT_REGISTRY), RegistryCheckArgs::default().registry);
}
