//! Lineage: for each resolved attribute of a group, which of its fields were
//! inherited from the attribute it refers to and which were set locally.

use crate::name_map::NameMap;
use crate::semconv::{
    copy_opt_examples, Examples, ExamplesView, RequirementLevel, RequirementLevelView, Stability,
};
use crate::text::copy_opt_text;
use vstd::prelude::*;

verus! {

/// Where the value of one field of a resolved attribute came from.
#[derive(Clone, Copy, Debug, PartialEq, Eq, Hash, Structural)]
pub enum Provenance {
    /// The declaration left the field unset: the value is that of the attribute
    /// referred to.
    Inherited,
    /// The declaration set the field itself.
    Overridden,
}

/// The lineage of one resolved attribute. Each field that can be overridden has
/// an entry, which is `None` until a choice for that field has been recorded.
#[derive(Debug, PartialEq)]
pub struct AttributeLineage {
    /// The group that owns the attribute referred to.
    pub source_group: String,
    pub brief: Option<Provenance>,
    pub examples: Option<Provenance>,
    pub tag: Option<Provenance>,
    pub requirement_level: Option<Provenance>,
    pub sampling_relevant: Option<Provenance>,
    pub note: Option<Provenance>,
    pub stability: Option<Provenance>,
    pub deprecated: Option<Provenance>,
}

/// The view of an [`AttributeLineage`].
pub struct AttributeLineageView {
    pub source_group: Seq<char>,
    pub brief: Option<Provenance>,
    pub examples: Option<Provenance>,
    pub tag: Option<Provenance>,
    pub requirement_level: Option<Provenance>,
    pub sampling_relevant: Option<Provenance>,
    pub note: Option<Provenance>,
    pub stability: Option<Provenance>,
    pub deprecated: Option<Provenance>,
}

/// The value that a field takes: the local one where it is set, else the
/// inherited one.
pub open spec fn chosen<T>(local: Option<T>, parent: T) -> T {
    match local {
        Some(value) => value,
        None => parent,
    }
}

/// What is recorded for a field: overridden where the local value is set, else
/// inherited.
pub open spec fn provenance_of<T>(local: Option<T>) -> Provenance {
    match local {
        Some(_) => Provenance::Overridden,
        None => Provenance::Inherited,
    }
}

/// The lineage of an attribute from `source_group` before any field is recorded.
pub open spec fn blank_lineage(source_group: Seq<char>) -> AttributeLineageView {
    AttributeLineageView {
        source_group,
        brief: None,
        examples: None,
        tag: None,
        requirement_level: None,
        sampling_relevant: None,
        note: None,
        stability: None,
        deprecated: None,
    }
}

impl View for AttributeLineage {
    type V = AttributeLineageView;

    open spec fn view(&self) -> AttributeLineageView {
        AttributeLineageView {
            source_group: self.source_group@,
            brief: self.brief,
            examples: self.examples,
            tag: self.tag,
            requirement_level: self.requirement_level,
            sampling_relevant: self.sampling_relevant,
            note: self.note,
            stability: self.stability,
            deprecated: self.deprecated,
        }
    }
}

impl DeepView for AttributeLineage {
    type V = AttributeLineageView;

    open spec fn deep_view(&self) -> AttributeLineageView {
        self@
    }
}

impl AttributeLineage {
    /// The lineage of an attribute inherited from `source_group`, with no field
    /// recorded yet.
    pub fn new(source_group: &str) -> (lineage: Self)
        ensures
            lineage@ == blank_lineage(source_group@),
    {
        AttributeLineage {
            source_group: source_group.to_owned(),
            brief: None,
            examples: None,
            tag: None,
            requirement_level: None,
            sampling_relevant: None,
            note: None,
            stability: None,
            deprecated: None,
        }
    }

    /// Chooses the brief and records where it came from.
    pub fn brief(&mut self, local_value: &Option<String>, parent_value: &str) -> (brief: String)
        ensures
            brief@ == chosen(local_value.deep_view(), parent_value@),
            final(self)@ == (AttributeLineageView {
                brief: Some(provenance_of(local_value.deep_view())),
                ..old(self)@
            }),
    {
        match local_value {
            Some(value) => {
                self.brief = Some(Provenance::Overridden);
                value.clone()
            },
            None => {
                self.brief = Some(Provenance::Inherited);
                parent_value.to_owned()
            },
        }
    }

    /// Chooses the examples and records where they came from.
    pub fn examples(
        &mut self,
        local_value: &Option<Examples>,
        parent_value: &Option<Examples>,
    ) -> (examples: Option<Examples>)
        ensures
            examples.deep_view() == match local_value.deep_view() {
                Some(value) => Some(value),
                None => parent_value.deep_view(),
            },
            final(self)@ == (AttributeLineageView {
                examples: Some(provenance_of(local_value.deep_view())),
                ..old(self)@
            }),
    {
        match local_value {
            Some(value) => {
                self.examples = Some(Provenance::Overridden);
                Some(value.clone())
            },
            None => {
                self.examples = Some(Provenance::Inherited);
                copy_opt_examples(parent_value)
            },
        }
    }

    /// Chooses the tag and records where it came from.
    pub fn tag(&mut self, local_value: &Option<String>, parent_value: &Option<String>) -> (tag:
        Option<String>)
        ensures
            tag.deep_view() == match local_value.deep_view() {
                Some(value) => Some(value),
                None => parent_value.deep_view(),
            },
            final(self)@ == (AttributeLineageView {
                tag: Some(provenance_of(local_value.deep_view())),
                ..old(self)@
            }),
    {
        match local_value {
            Some(value) => {
                self.tag = Some(Provenance::Overridden);
                Some(value.clone())
            },
            None => {
                self.tag = Some(Provenance::Inherited);
                copy_opt_text(parent_value)
            },
        }
    }

    /// Chooses the requirement level and records where it came from.
    pub fn requirement_level(
        &mut self,
        local_value: &Option<RequirementLevel>,
        parent_value: &RequirementLevel,
    ) -> (level: RequirementLevel)
        ensures
            level@ == chosen(local_value.deep_view(), parent_value@),
            final(self)@ == (AttributeLineageView {
                requirement_level: Some(provenance_of(local_value.deep_view())),
                ..old(self)@
            }),
    {
        match local_value {
            Some(value) => {
                self.requirement_level = Some(Provenance::Overridden);
                value.clone()
            },
            None => {
                self.requirement_level = Some(Provenance::Inherited);
                parent_value.clone()
            },
        }
    }

    /// Chooses the sampling relevance and records where it came from.
    pub fn sampling_relevant(
        &mut self,
        local_value: &Option<bool>,
        parent_value: &Option<bool>,
    ) -> (relevant: Option<bool>)
        ensures
            relevant == match *local_value {
                Some(value) => Some(value),
                None => *parent_value,
            },
            final(self)@ == (AttributeLineageView {
                sampling_relevant: Some(provenance_of(*local_value)),
                ..old(self)@
            }),
    {
        match local_value {
            Some(value) => {
                self.sampling_relevant = Some(Provenance::Overridden);
                Some(*value)
            },
            None => {
                self.sampling_relevant = Some(Provenance::Inherited);
                *parent_value
            },
        }
    }

    /// Chooses the note and records where it came from.
    pub fn note(&mut self, local_value: &Option<String>, parent_value: &str) -> (note: String)
        ensures
            note@ == chosen(local_value.deep_view(), parent_value@),
            final(self)@ == (AttributeLineageView {
                note: Some(provenance_of(local_value.deep_view())),
                ..old(self)@
            }),
    {
        match local_value {
            Some(value) => {
                self.note = Some(Provenance::Overridden);
                value.clone()
            },
            None => {
                self.note = Some(Provenance::Inherited);
                parent_value.to_owned()
            },
        }
    }

    /// Chooses the stability and records where it came from.
    pub fn stability(
        &mut self,
        local_value: &Option<Stability>,
        parent_value: &Option<Stability>,
    ) -> (stability: Option<Stability>)
        ensures
            stability == match *local_value {
                Some(value) => Some(value),
                None => *parent_value,
            },
            final(self)@ == (AttributeLineageView {
                stability: Some(provenance_of(*local_value)),
                ..old(self)@
            }),
    {
        match local_value {
            Some(value) => {
                self.stability = Some(Provenance::Overridden);
                Some(*value)
            },
            None => {
                self.stability = Some(Provenance::Inherited);
                *parent_value
            },
        }
    }

    /// Chooses the deprecation note and records where it came from.
    pub fn deprecated(
        &mut self,
        local_value: &Option<String>,
        parent_value: &Option<String>,
    ) -> (deprecated: Option<String>)
        ensures
            deprecated.deep_view() == match local_value.deep_view() {
                Some(value) => Some(value),
                None => parent_value.deep_view(),
            },
            final(self)@ == (AttributeLineageView {
                deprecated: Some(provenance_of(local_value.deep_view())),
                ..old(self)@
            }),
    {
        match local_value {
            Some(value) => {
                self.deprecated = Some(Provenance::Overridden);
                Some(value.clone())
            },
            None => {
                self.deprecated = Some(Provenance::Inherited);
                copy_opt_text(parent_value)
            },
        }
    }
}

/// The lineage of the attributes resolved within one group, by attribute name.
#[derive(Debug)]
pub struct GroupLineage {
    attributes: NameMap<AttributeLineage>,
}

impl GroupLineage {
    /// The names are held in order and each occurs once.
    pub closed spec fn wf(&self) -> bool {
        self.attributes.wf()
    }

    /// The lineage recorded under each attribute name.
    pub closed spec fn view(&self) -> Map<Seq<char>, AttributeLineageView> {
        self.attributes@.map_values(|lineage: AttributeLineage| lineage@)
    }

    /// A group lineage with nothing recorded.
    pub fn new() -> (lineage: Self)
        ensures
            lineage.wf(),
            lineage@ == Map::<Seq<char>, AttributeLineageView>::empty(),
    {
        let lineage = GroupLineage { attributes: NameMap::new() };
        assert(lineage@ =~= Map::<Seq<char>, AttributeLineageView>::empty());
        lineage
    }

    /// Records the lineage of the attribute `attr_id`, in place of what was
    /// recorded for it before.
    pub fn add_attribute_lineage(&mut self, attr_id: String, attribute_lineage: AttributeLineage)
        requires
            old(self).wf(),
        ensures
            final(self).wf(),
            final(self)@ == old(self)@.insert(attr_id@, attribute_lineage@),
    {
        self.attributes.insert(attr_id, attribute_lineage);
        assert(self@ =~= old(self)@.insert(attr_id@, attribute_lineage@));
    }

    /// The lineage recorded for the attribute `attr_id`, if there is one.
    pub fn attribute_lineage(&self, attr_id: &str) -> (found: Option<&AttributeLineage>)
        requires
            self.wf(),
        ensures
            match found {
                Some(lineage) => self@.dom().contains(attr_id@) && lineage@ == self@[attr_id@],
                None => !self@.dom().contains(attr_id@),
            },
    {
        self.attributes.get(attr_id)
    }
}

} // verus!
