use weaver_resolver::attribute::{resolve_attribute, REF_CYCLE, REF_NOT_FOUND};
use weaver_resolver::error::Error;
use weaver_resolver::registry::SemConvRegistry;
use weaver_resolver::semconv::{
    AttributeSpec, AttributeType, BasicRequirementLevelSpec, PrimitiveOrArrayTypeSpec,
    RequirementLevel,
};

fn spec_id(id: &str, brief: Option<&str>) -> AttributeSpec {
    AttributeSpec::Id {
        id: id.to_owned(),
        attr_type: AttributeType::PrimitiveOrArray(PrimitiveOrArrayTypeSpec::Boolean),
        brief: brief.map(|b| b.to_owned()),
        examples: None,
        tag: None,
        requirement_level: RequirementLevel::Basic(BasicRequirementLevelSpec::OptIn),
        sampling_relevant: Some(true),
        note: "a note".to_owned(),
        stability: None,
        deprecated: None,
    }
}

fn to(target: &str) -> AttributeSpec {
    AttributeSpec::Ref {
        target: target.to_owned(),
        brief: None,
        examples: None,
        tag: None,
        requirement_level: None,
        sampling_relevant: None,
        note: None,
        stability: None,
        deprecated: None,
    }
}

fn failure(name: &str, reason: &str) -> Error {
    Error::FailToResolveAttributes { ids: vec![name.to_owned()], error: reason.to_owned() }
}

/// A registry in which `n0` leads to `n1`, and so on up to the last name, which
/// is declared in full.
fn chain(links: usize) -> SemConvRegistry {
    let mut registry = SemConvRegistry::new();
    for i in 0..links {
        registry.insert_attribute(format!("n{}", i), to(&format!("n{}", i + 1)));
    }
    registry.insert_attribute(format!("n{}", links), spec_id("end", None));
    registry
}

#[test]
fn chain_through_every_attribute_of_the_registry_resolves() {
    for links in [0usize, 1, 2, 7, 40] {
        let registry = chain(links);
        assert_eq!(registry.attribute_count(), links + 1);
        let resolved = resolve_attribute(&registry, &to("n0")).expect("resolves");
        assert_eq!(resolved.name, "end");
        assert_eq!(resolved.brief, "");
        assert_eq!(resolved.note, "a note");
        assert_eq!(resolved.sampling_relevant, Some(true));
    }
}

#[test]
fn chain_that_breaks_off_names_the_missing_link() {
    let mut registry = SemConvRegistry::new();
    registry.insert_attribute("n0".to_owned(), to("n1"));
    registry.insert_attribute("n1".to_owned(), to("n2"));
    assert_eq!(resolve_attribute(&registry, &to("n0")), Err(failure("n2", REF_NOT_FOUND)));
}

#[test]
fn empty_registry_resolves_ids_and_fails_refs() {
    let registry = SemConvRegistry::new();
    assert!(resolve_attribute(&registry, &spec_id("a", Some("b"))).is_ok());
    assert_eq!(resolve_attribute(&registry, &to("a")), Err(failure("a", REF_NOT_FOUND)));
}

#[test]
fn chain_that_comes_back_to_itself_fails() {
    let mut registry = chain(3);
    registry.insert_attribute("n3".to_owned(), to("n1"));
    let resolved = resolve_attribute(&registry, &to("n0"));
    assert!(matches!(
        resolved,
        Err(Error::FailToResolveAttributes { ref error, .. }) if error == REF_CYCLE
    ));
    let mut registry = SemConvRegistry::new();
    registry.insert_attribute("loop".to_owned(), to("loop"));
    assert_eq!(resolve_attribute(&registry, &to("loop")), Err(failure("loop", REF_CYCLE)));
}
