//! Attribute declarations as a telemetry schema lists them: in full, as a
//! reference to one attribute of the registry, or as a reference to a whole group
//! of the registry.

use crate::lineage::chosen;
use crate::resolved::{copy_opt_tags, copy_opt_value, Tags, Value, ValueView};
use crate::semconv::{
    copy_opt_examples, AttributeSpec, AttributeSpecView, AttributeType, AttributeTypeView,
    Examples, ExamplesView, RequirementLevel, RequirementLevelView, Stability,
};
use crate::text::copy_opt_text;
use vstd::prelude::*;

verus! {

/// The view of optional [`Tags`].
pub type TagsView = Option<Seq<(Seq<char>, Seq<char>)>>;

/// An attribute declaration of a schema.
#[derive(Debug, PartialEq)]
#[allow(inconsistent_fields)]
pub enum Attribute {
    /// A reference to an attribute of the registry, with the fields it overrides.
    Ref {
        /// The name of the attribute referred to.
        target: String,
        brief: Option<String>,
        examples: Option<Examples>,
        tag: Option<String>,
        requirement_level: Option<RequirementLevel>,
        sampling_relevant: Option<bool>,
        note: Option<String>,
        stability: Option<Stability>,
        deprecated: Option<String>,
        tags: Option<Tags>,
        value: Option<Value>,
    },
    /// A reference to an attribute group: all of its attributes are meant.
    AttributeGroupRef {
        /// The name of the attribute group.
        attribute_group_ref: String,
        /// Tags to stamp onto each attribute of the group.
        tags: Option<Tags>,
    },
    /// A reference to a resource group: all of its attributes are meant.
    ResourceRef {
        /// The name of the resource group.
        resource_ref: String,
        /// Tags to stamp onto each attribute of the group.
        tags: Option<Tags>,
    },
    /// A reference to a span group: all of its attributes are meant.
    SpanRef {
        /// The name of the span group.
        span_ref: String,
        /// Tags to stamp onto each attribute of the group.
        tags: Option<Tags>,
    },
    /// A reference to an event group: all of its attributes are meant.
    EventRef {
        /// The name of the event group.
        event_ref: String,
        /// Tags to stamp onto each attribute of the group.
        tags: Option<Tags>,
    },
    /// A declaration in full.
    Id {
        /// The name of the attribute.
        id: String,
        attr_type: AttributeType,
        brief: String,
        examples: Option<Examples>,
        tag: Option<String>,
        requirement_level: RequirementLevel,
        sampling_relevant: Option<bool>,
        note: String,
        stability: Option<Stability>,
        deprecated: Option<String>,
        tags: Option<Tags>,
        value: Option<Value>,
    },
}

/// The view of a schema [`Attribute`].
#[allow(inconsistent_fields)]
pub enum AttributeView {
    Ref {
        target: Seq<char>,
        brief: Option<Seq<char>>,
        examples: Option<ExamplesView>,
        tag: Option<Seq<char>>,
        requirement_level: Option<RequirementLevelView>,
        sampling_relevant: Option<bool>,
        note: Option<Seq<char>>,
        stability: Option<Stability>,
        deprecated: Option<Seq<char>>,
        tags: TagsView,
        value: Option<ValueView>,
    },
    AttributeGroupRef { attribute_group_ref: Seq<char>, tags: TagsView },
    ResourceRef { resource_ref: Seq<char>, tags: TagsView },
    SpanRef { span_ref: Seq<char>, tags: TagsView },
    EventRef { event_ref: Seq<char>, tags: TagsView },
    Id {
        id: Seq<char>,
        attr_type: AttributeTypeView,
        brief: Seq<char>,
        examples: Option<ExamplesView>,
        tag: Option<Seq<char>>,
        requirement_level: RequirementLevelView,
        sampling_relevant: Option<bool>,
        note: Seq<char>,
        stability: Option<Stability>,
        deprecated: Option<Seq<char>>,
        tags: TagsView,
        value: Option<ValueView>,
    },
}

impl View for Attribute {
    type V = AttributeView;

    open spec fn view(&self) -> AttributeView {
        match self {
            Attribute::Ref {
                target,
                brief,
                examples,
                tag,
                requirement_level,
                sampling_relevant,
                note,
                stability,
                deprecated,
                tags,
                value,
            } => AttributeView::Ref {
                target: target@,
                brief: brief.deep_view(),
                examples: examples.deep_view(),
                tag: tag.deep_view(),
                requirement_level: requirement_level.deep_view(),
                sampling_relevant: *sampling_relevant,
                note: note.deep_view(),
                stability: *stability,
                deprecated: deprecated.deep_view(),
                tags: tags.deep_view(),
                value: value.deep_view(),
            },
            Attribute::AttributeGroupRef { attribute_group_ref, tags } => {
                AttributeView::AttributeGroupRef {
                    attribute_group_ref: attribute_group_ref@,
                    tags: tags.deep_view(),
                }
            },
            Attribute::ResourceRef { resource_ref, tags } => AttributeView::ResourceRef {
                resource_ref: resource_ref@,
                tags: tags.deep_view(),
            },
            Attribute::SpanRef { span_ref, tags } => AttributeView::SpanRef {
                span_ref: span_ref@,
                tags: tags.deep_view(),
            },
            Attribute::EventRef { event_ref, tags } => AttributeView::EventRef {
                event_ref: event_ref@,
                tags: tags.deep_view(),
            },
            Attribute::Id {
                id,
                attr_type,
                brief,
                examples,
                tag,
                requirement_level,
                sampling_relevant,
                note,
                stability,
                deprecated,
                tags,
                value,
            } => AttributeView::Id {
                id: id@,
                attr_type: attr_type@,
                brief: brief@,
                examples: examples.deep_view(),
                tag: tag.deep_view(),
                requirement_level: requirement_level@,
                sampling_relevant: *sampling_relevant,
                note: note@,
                stability: *stability,
                deprecated: deprecated.deep_view(),
                tags: tags.deep_view(),
                value: value.deep_view(),
            },
        }
    }
}

impl DeepView for Attribute {
    type V = AttributeView;

    open spec fn deep_view(&self) -> AttributeView {
        self@
    }
}

/// A copy of an optional requirement level.
fn copy_opt_level(a: &Option<RequirementLevel>) -> (copy: Option<RequirementLevel>)
    ensures
        copy.deep_view() == a.deep_view(),
{
    match a {
        Some(level) => Some(level.clone()),
        None => None,
    }
}

impl Clone for Attribute {
    fn clone(&self) -> (copy: Self)
        ensures
            copy@ == self@,
    {
        match self {
            Attribute::Ref {
                target,
                brief,
                examples,
                tag,
                requirement_level,
                sampling_relevant,
                note,
                stability,
                deprecated,
                tags,
                value,
            } => Attribute::Ref {
                target: target.clone(),
                brief: copy_opt_text(brief),
                examples: copy_opt_examples(examples),
                tag: copy_opt_text(tag),
                requirement_level: copy_opt_level(requirement_level),
                sampling_relevant: *sampling_relevant,
                note: copy_opt_text(note),
                stability: *stability,
                deprecated: copy_opt_text(deprecated),
                tags: copy_opt_tags(tags),
                value: copy_opt_value(value),
            },
            Attribute::AttributeGroupRef { attribute_group_ref, tags } => {
                Attribute::AttributeGroupRef {
                    attribute_group_ref: attribute_group_ref.clone(),
                    tags: copy_opt_tags(tags),
                }
            },
            Attribute::ResourceRef { resource_ref, tags } => Attribute::ResourceRef {
                resource_ref: resource_ref.clone(),
                tags: copy_opt_tags(tags),
            },
            Attribute::SpanRef { span_ref, tags } => Attribute::SpanRef {
                span_ref: span_ref.clone(),
                tags: copy_opt_tags(tags),
            },
            Attribute::EventRef { event_ref, tags } => Attribute::EventRef {
                event_ref: event_ref.clone(),
                tags: copy_opt_tags(tags),
            },
            Attribute::Id {
                id,
                attr_type,
                brief,
                examples,
                tag,
                requirement_level,
                sampling_relevant,
                note,
                stability,
                deprecated,
                tags,
                value,
            } => Attribute::Id {
                id: id.clone(),
                attr_type: attr_type.clone(),
                brief: brief.clone(),
                examples: copy_opt_examples(examples),
                tag: copy_opt_text(tag),
                requirement_level: requirement_level.clone(),
                sampling_relevant: *sampling_relevant,
                note: note.clone(),
                stability: *stability,
                deprecated: copy_opt_text(deprecated),
                tags: copy_opt_tags(tags),
                value: copy_opt_value(value),
            },
        }
    }
}

impl AttributeView {
    /// Whether the declaration names one attribute: a reference to an attribute,
    /// or a declaration in full.
    pub open spec fn names_attribute(self) -> bool {
        self is Ref || self is Id
    }

    /// The name that identifies the declaration: the name of the attribute or of
    /// the group it refers to, or the name it declares.
    pub open spec fn name(self) -> Seq<char> {
        match self {
            AttributeView::Ref { target, .. } => target,
            AttributeView::AttributeGroupRef { attribute_group_ref, .. } => attribute_group_ref,
            AttributeView::ResourceRef { resource_ref, .. } => resource_ref,
            AttributeView::SpanRef { span_ref, .. } => span_ref,
            AttributeView::EventRef { event_ref, .. } => event_ref,
            AttributeView::Id { id, .. } => id,
        }
    }

    /// The declaration with its tags replaced by `tags`.
    pub open spec fn with_tags(self, tags: TagsView) -> AttributeView {
        match self {
            AttributeView::Ref {
                target,
                brief,
                examples,
                tag,
                requirement_level,
                sampling_relevant,
                note,
                stability,
                deprecated,
                tags: _,
                value,
            } => AttributeView::Ref {
                target,
                brief,
                examples,
                tag,
                requirement_level,
                sampling_relevant,
                note,
                stability,
                deprecated,
                tags,
                value,
            },
            AttributeView::AttributeGroupRef { attribute_group_ref, .. } => {
                AttributeView::AttributeGroupRef { attribute_group_ref, tags }
            },
            AttributeView::ResourceRef { resource_ref, .. } => AttributeView::ResourceRef {
                resource_ref,
                tags,
            },
            AttributeView::SpanRef { span_ref, .. } => AttributeView::SpanRef { span_ref, tags },
            AttributeView::EventRef { event_ref, .. } => AttributeView::EventRef { event_ref, tags },
            AttributeView::Id {
                id,
                attr_type,
                brief,
                examples,
                tag,
                requirement_level,
                sampling_relevant,
                note,
                stability,
                deprecated,
                tags: _,
                value,
            } => AttributeView::Id {
                id,
                attr_type,
                brief,
                examples,
                tag,
                requirement_level,
                sampling_relevant,
                note,
                stability,
                deprecated,
                tags,
                value,
            },
        }
    }

    /// The schema declaration that stands for a declaration of the registry: the
    /// same fields, an absent brief of a declaration in full made the empty text,
    /// and neither tags nor value.
    pub open spec fn from_spec(spec: AttributeSpecView) -> AttributeView {
        match spec {
            AttributeSpecView::Ref {
                target,
                brief,
                examples,
                tag,
                requirement_level,
                sampling_relevant,
                note,
                stability,
                deprecated,
            } => AttributeView::Ref {
                target,
                brief,
                examples,
                tag,
                requirement_level,
                sampling_relevant,
                note,
                stability,
                deprecated,
                tags: None,
                value: None,
            },
            AttributeSpecView::Id {
                id,
                attr_type,
                brief,
                examples,
                tag,
                requirement_level,
                sampling_relevant,
                note,
                stability,
                deprecated,
            } => AttributeView::Id {
                id,
                attr_type,
                brief: chosen(brief, Seq::<char>::empty()),
                examples,
                tag,
                requirement_level,
                sampling_relevant,
                note,
                stability,
                deprecated,
                tags: None,
                value: None,
            },
        }
    }

    /// What a reference resolves to against the registry's entry for it, if it
    /// resolves. Only a reference resolves, and only against a declaration in
    /// full. The result is a declaration in full under the reference's own target
    /// name, with the entry's type, with each other field from the reference where
    /// the reference sets it and from the entry where not, and with the
    /// reference's tags and value.
    pub open spec fn resolved_from(self, entry: Option<AttributeSpecView>) -> Option<
        AttributeView,
    > {
        match (self, entry) {
            (
                AttributeView::Ref {
                    target,
                    brief,
                    examples,
                    tag,
                    requirement_level,
                    sampling_relevant,
                    note,
                    stability,
                    deprecated,
                    tags,
                    value,
                },
                Some(
                    AttributeSpecView::Id {
                        id: _,
                        attr_type,
                        brief: entry_brief,
                        examples: entry_examples,
                        tag: entry_tag,
                        requirement_level: entry_level,
                        sampling_relevant: entry_relevant,
                        note: entry_note,
                        stability: entry_stability,
                        deprecated: entry_deprecated,
                    },
                ),
            ) => Some(
                AttributeView::Id {
                    id: target,
                    attr_type,
                    brief: chosen(brief, chosen(entry_brief, Seq::<char>::empty())),
                    examples: if examples is Some {
                        examples
                    } else {
                        entry_examples
                    },
                    tag: if tag is Some {
                        tag
                    } else {
                        entry_tag
                    },
                    requirement_level: chosen(requirement_level, entry_level),
                    sampling_relevant: if sampling_relevant is Some {
                        sampling_relevant
                    } else {
                        entry_relevant
                    },
                    note: chosen(note, entry_note),
                    stability: if stability is Some {
                        stability
                    } else {
                        entry_stability
                    },
                    deprecated: if deprecated is Some {
                        deprecated
                    } else {
                        entry_deprecated
                    },
                    tags,
                    value,
                },
            ),
            _ => None,
        }
    }
}

impl Attribute {
    /// The name that identifies the declaration.
    pub fn id(&self) -> (name: &str)
        ensures
            name@ == self@.name(),
    {
        match self {
            Attribute::Ref { target, .. } => target.as_str(),
            Attribute::AttributeGroupRef { attribute_group_ref, .. } => attribute_group_ref.as_str(),
            Attribute::ResourceRef { resource_ref, .. } => resource_ref.as_str(),
            Attribute::SpanRef { span_ref, .. } => span_ref.as_str(),
            Attribute::EventRef { event_ref, .. } => event_ref.as_str(),
            Attribute::Id { id, .. } => id.as_str(),
        }
    }

    /// The schema declaration that stands for a declaration of the registry.
    pub fn from_spec(spec: &AttributeSpec) -> (attr: Attribute)
        ensures
            attr@ == AttributeView::from_spec(spec@),
    {
        match spec {
            AttributeSpec::Ref {
                target,
                brief,
                examples,
                tag,
                requirement_level,
                sampling_relevant,
                note,
                stability,
                deprecated,
            } => Attribute::Ref {
                target: target.clone(),
                brief: copy_opt_text(brief),
                examples: copy_opt_examples(examples),
                tag: copy_opt_text(tag),
                requirement_level: copy_opt_level(requirement_level),
                sampling_relevant: *sampling_relevant,
                note: copy_opt_text(note),
                stability: *stability,
                deprecated: copy_opt_text(deprecated),
                tags: None,
                value: None,
            },
            AttributeSpec::Id {
                id,
                attr_type,
                brief,
                examples,
                tag,
                requirement_level,
                sampling_relevant,
                note,
                stability,
                deprecated,
            } => Attribute::Id {
                id: id.clone(),
                attr_type: attr_type.clone(),
                brief: match brief {
                    Some(text) => text.clone(),
                    None => String::new(),
                },
                examples: copy_opt_examples(examples),
                tag: copy_opt_text(tag),
                requirement_level: requirement_level.clone(),
                sampling_relevant: *sampling_relevant,
                note: note.clone(),
                stability: *stability,
                deprecated: copy_opt_text(deprecated),
                tags: None,
                value: None,
            },
        }
    }

    /// Replaces the tags of the declaration by a copy of `tags`.
    pub fn set_tags(&mut self, tags: &Option<Tags>)
        ensures
            final(self)@ == old(self)@.with_tags(tags.deep_view()),
    {
        let copy = copy_opt_tags(tags);
        match self {
            Attribute::Ref { tags: own, .. } => {
                *own = copy;
            },
            Attribute::AttributeGroupRef { tags: own, .. } => {
                *own = copy;
            },
            Attribute::ResourceRef { tags: own, .. } => {
                *own = copy;
            },
            Attribute::SpanRef { tags: own, .. } => {
                *own = copy;
            },
            Attribute::EventRef { tags: own, .. } => {
                *own = copy;
            },
            Attribute::Id { tags: own, .. } => {
                *own = copy;
            },
        }
    }

    /// Resolves a reference against the registry's entry for it. Returns `None`
    /// unless this declaration is a reference and the entry a declaration in full.
    pub fn resolve_from(&self, entry: Option<&AttributeSpec>) -> (resolved: Option<Attribute>)
        ensures
            resolved.deep_view() == self@.resolved_from(entry.deep_view()),
    {
        match (self, entry) {
            (
                Attribute::Ref {
                    target,
                    brief,
                    examples,
                    tag,
                    requirement_level,
                    sampling_relevant,
                    note,
                    stability,
                    deprecated,
                    tags,
                    value,
                },
                Some(
                    AttributeSpec::Id {
                        id: _,
                        attr_type,
                        brief: entry_brief,
                        examples: entry_examples,
                        tag: entry_tag,
                        requirement_level: entry_level,
                        sampling_relevant: entry_relevant,
                        note: entry_note,
                        stability: entry_stability,
                        deprecated: entry_deprecated,
                    },
                ),
            ) => Some(
                Attribute::Id {
                    id: target.clone(),
                    attr_type: attr_type.clone(),
                    brief: match (brief, entry_brief) {
                        (Some(text), _) => text.clone(),
                        (None, Some(text)) => text.clone(),
                        (None, None) => String::new(),
                    },
                    examples: if examples.is_some() {
                        copy_opt_examples(examples)
                    } else {
                        copy_opt_examples(entry_examples)
                    },
                    tag: if tag.is_some() {
                        copy_opt_text(tag)
                    } else {
                        copy_opt_text(entry_tag)
                    },
                    requirement_level: match requirement_level {
                        Some(level) => level.clone(),
                        None => entry_level.clone(),
                    },
                    sampling_relevant: if sampling_relevant.is_some() {
                        *sampling_relevant
                    } else {
                        *entry_relevant
                    },
                    note: match note {
                        Some(text) => text.clone(),
                        None => entry_note.clone(),
                    },
                    stability: if stability.is_some() {
                        *stability
                    } else {
                        *entry_stability
                    },
                    deprecated: if deprecated.is_some() {
                        copy_opt_text(deprecated)
                    } else {
                        copy_opt_text(entry_deprecated)
                    },
                    tags: copy_opt_tags(tags),
                    value: copy_opt_value(value),
                },
            ),
            _ => None,
        }
    }
}

} // verus!
