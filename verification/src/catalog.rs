//! The attribute catalog: it gives every distinct resolved attribute one stable
//! reference, and keeps the root attributes by name for later references to them.

use crate::lineage::{
    chosen, provenance_of, AttributeLineage, AttributeLineageView, GroupLineage,
};
use crate::name_map::NameMap;
use crate::resolved::{Attribute, AttributeRef, AttributeView};
use crate::semconv::{copy_opt_examples, AttributeSpec, AttributeSpecView};
use crate::text::copy_opt_text;
use vstd::prelude::*;
use vstd::string::StringExecFns;

verus! {

/// A root attribute, with the group that declared it.
#[derive(Debug)]
struct AttributeWithGroupId {
    attribute: Attribute,
    group_id: String,
}

/// The view of a root attribute: the attribute and the group that declared it.
pub struct RootAttributeView {
    pub attribute: AttributeView,
    pub group_id: Seq<char>,
}

impl View for AttributeWithGroupId {
    type V = RootAttributeView;

    closed spec fn view(&self) -> RootAttributeView {
        RootAttributeView { attribute: self.attribute@, group_id: self.group_id@ }
    }
}

/// A catalog of deduplicated resolved attributes with their references.
#[derive(Debug)]
pub struct AttributeCatalog {
    /// The distinct attributes: the one with reference `i` stands at position `i`.
    attributes: Vec<Attribute>,
    /// The root attributes by name. A root attribute is one that was declared in
    /// full, not by reference to another.
    root_attributes: NameMap<AttributeWithGroupId>,
}

/// The view of an [`AttributeCatalog`].
pub struct CatalogView {
    /// The distinct attributes in the order in which they were first seen: the
    /// attribute with reference `i` stands at position `i`.
    pub attributes: Seq<AttributeView>,
    /// The root attributes by name.
    pub roots: Map<Seq<char>, RootAttributeView>,
}

/// The name under which an `Id` declaration is known: the declared id alone, or
/// the prefix and the id joined by a dot where the prefix is not empty.
pub open spec fn root_name(prefix: Seq<char>, id: Seq<char>) -> Seq<char> {
    if prefix.len() == 0 {
        id
    } else {
        prefix + seq!['.'] + id
    }
}

/// The resolved attribute that a declaration in full stands for, under `name`.
/// An absent brief becomes the empty text; tags and value stay unset.
pub open spec fn attribute_from_id(name: Seq<char>, decl: AttributeSpecView) -> AttributeView
    recommends
        decl is Id,
{
    AttributeView {
        name,
        attr_type: decl->attr_type,
        brief: chosen(decl->Id_brief, Seq::<char>::empty()),
        examples: decl->Id_examples,
        tag: decl->Id_tag,
        requirement_level: decl->Id_requirement_level,
        sampling_relevant: decl->Id_sampling_relevant,
        note: decl->Id_note,
        stability: decl->Id_stability,
        deprecated: decl->Id_deprecated,
        tags: None,
        value: None,
    }
}

/// The resolved attribute that a reference to `root` stands for: name, type, tags
/// and value are those of the reference's target and of the root; every other
/// field is the declaration's where it is set and the root's where it is not.
pub open spec fn attribute_from_ref(root: AttributeView, decl: AttributeSpecView) -> AttributeView
    recommends
        decl is Ref,
{
    AttributeView {
        name: decl->target,
        attr_type: root.attr_type,
        brief: chosen(decl->Ref_brief, root.brief),
        examples: match decl->Ref_examples {
            Some(examples) => Some(examples),
            None => root.examples,
        },
        tag: match decl->Ref_tag {
            Some(tag) => Some(tag),
            None => root.tag,
        },
        requirement_level: chosen(decl->Ref_requirement_level, root.requirement_level),
        sampling_relevant: match decl->Ref_sampling_relevant {
            Some(relevant) => Some(relevant),
            None => root.sampling_relevant,
        },
        note: chosen(decl->Ref_note, root.note),
        stability: match decl->Ref_stability {
            Some(stability) => Some(stability),
            None => root.stability,
        },
        deprecated: match decl->Ref_deprecated {
            Some(deprecated) => Some(deprecated),
            None => root.deprecated,
        },
        tags: root.tags,
        value: root.value,
    }
}

/// The lineage of the attribute that a reference resolves to: every field is
/// marked overridden where the declaration sets it and inherited, from the group
/// that owns the root, where it does not.
pub open spec fn lineage_from_ref(
    source_group: Seq<char>,
    decl: AttributeSpecView,
) -> AttributeLineageView
    recommends
        decl is Ref,
{
    AttributeLineageView {
        source_group,
        brief: Some(provenance_of(decl->Ref_brief)),
        examples: Some(provenance_of(decl->Ref_examples)),
        tag: Some(provenance_of(decl->Ref_tag)),
        requirement_level: Some(provenance_of(decl->Ref_requirement_level)),
        sampling_relevant: Some(provenance_of(decl->Ref_sampling_relevant)),
        note: Some(provenance_of(decl->Ref_note)),
        stability: Some(provenance_of(decl->Ref_stability)),
        deprecated: Some(provenance_of(decl->Ref_deprecated)),
    }
}

impl CatalogView {
    /// No attribute occurs twice, and every position fits a reference.
    pub open spec fn wf(self) -> bool {
        &&& self.attributes.no_duplicates()
        &&& self.attributes.len() <= u32::MAX
    }

    /// Whether `attr` can be given a reference: it has one already, or the
    /// catalog is not full.
    pub open spec fn admits(self, attr: AttributeView) -> bool {
        self.attributes.contains(attr) || self.attributes.len() < u32::MAX
    }

    /// The reference of `attr` once it is in the catalog: its position if it is
    /// there already, else the next free position.
    pub open spec fn reference_of(self, attr: AttributeView) -> nat {
        if self.attributes.contains(attr) {
            self.attributes.index_of(attr) as nat
        } else {
            self.attributes.len()
        }
    }

    /// The catalog after `attr` was asked for: unchanged if it holds `attr`
    /// already, else with `attr` at the end.
    pub open spec fn with_attribute(self, attr: AttributeView) -> CatalogView {
        if self.attributes.contains(attr) {
            self
        } else {
            CatalogView { attributes: self.attributes.push(attr), ..self }
        }
    }

    /// The catalog without attributes.
    pub open spec fn empty() -> CatalogView {
        CatalogView { attributes: Seq::empty(), roots: Map::empty() }
    }

    /// The catalog after each of `attrs` was asked for, in their order.
    pub open spec fn with_attributes(self, attrs: Seq<AttributeView>) -> CatalogView
        decreases attrs.len(),
    {
        if attrs.len() == 0 {
            self
        } else {
            self.with_attributes(attrs.drop_last()).with_attribute(attrs.last())
        }
    }

    /// The attribute that `decl` resolves to in this catalog, if it resolves: a
    /// reference resolves only where its target is a root attribute.
    pub open spec fn resolved(self, prefix: Seq<char>, decl: AttributeSpecView) -> Option<
        AttributeView,
    > {
        match decl {
            AttributeSpecView::Ref { target, .. } => {
                if self.roots.dom().contains(target) {
                    Some(attribute_from_ref(self.roots[target].attribute, decl))
                } else {
                    None
                }
            },
            AttributeSpecView::Id { id, .. } => Some(attribute_from_id(root_name(prefix, id), decl)),
        }
    }

    /// The catalog after `decl` was resolved in it for the group `group_id`. A
    /// declaration in full becomes the root attribute of its name, in place of an
    /// earlier one. Whatever resolves is given a reference.
    pub open spec fn after_resolve(
        self,
        group_id: Seq<char>,
        prefix: Seq<char>,
        decl: AttributeSpecView,
    ) -> CatalogView {
        match self.resolved(prefix, decl) {
            Some(attr) => {
                let roots = if decl is Id {
                    self.roots.insert(attr.name, RootAttributeView { attribute: attr, group_id })
                } else {
                    self.roots
                };
                (CatalogView { roots, ..self }).with_attribute(attr)
            },
            None => self,
        }
    }

    /// The lineage that resolving `decl` records, with the attribute name it is
    /// recorded under: only a reference that resolves records one.
    pub open spec fn lineage_of(self, decl: AttributeSpecView) -> Option<
        (Seq<char>, AttributeLineageView),
    > {
        match decl {
            AttributeSpecView::Ref { target, .. } => {
                if self.roots.dom().contains(target) {
                    Some((target, lineage_from_ref(self.roots[target].group_id, decl)))
                } else {
                    None
                }
            },
            AttributeSpecView::Id { .. } => None,
        }
    }
}

/// The attributes of `attrs` without repetitions: each stands where it first
/// occurs.
pub open spec fn first_occurrences(attrs: Seq<AttributeView>) -> Seq<AttributeView>
    decreases attrs.len(),
{
    if attrs.len() == 0 {
        Seq::empty()
    } else if attrs.drop_last().contains(attrs.last()) {
        first_occurrences(attrs.drop_last())
    } else {
        first_occurrences(attrs.drop_last()).push(attrs.last())
    }
}

/// Asking for the same attribute twice gives the same reference both times. The
/// first request makes the catalog larger by exactly one where the attribute is
/// new to it, and leaves it as it is where it is not; the second request always
/// leaves it as it is.
pub proof fn lemma_attribute_ref_idempotent(catalog: CatalogView, attr: AttributeView)
    requires
        catalog.wf(),
    ensures
        catalog.with_attribute(attr).reference_of(attr) == catalog.reference_of(attr),
        catalog.with_attribute(attr).with_attribute(attr) == catalog.with_attribute(attr),
        !catalog.attributes.contains(attr) ==> catalog.with_attribute(attr).attributes.len()
            == catalog.attributes.len() + 1,
        catalog.attributes.contains(attr) ==> catalog.with_attribute(attr) == catalog,
        catalog.with_attribute(attr).attributes.no_duplicates(),
{
    let once = catalog.with_attribute(attr);
    if !catalog.attributes.contains(attr) {
        let n = catalog.attributes.len() as int;
        assert(once.attributes[n] == attr);
        assert(once.attributes.contains(attr));
        let k = once.attributes.index_of(attr);
        assert(0 <= k < once.attributes.len() && once.attributes[k] == attr);
        if k < n {
            assert(catalog.attributes[k] == attr);
        }
    }
}

/// References once given stay: whatever declaration is resolved, for whatever
/// group, every attribute of the catalog keeps its position. A later declaration
/// in full replaces the root attribute of its name for references to come, and
/// changes nothing for those resolved before.
pub proof fn lemma_references_are_stable(
    catalog: CatalogView,
    group_id: Seq<char>,
    prefix: Seq<char>,
    decl: AttributeSpecView,
    i: int,
)
    requires
        0 <= i < catalog.attributes.len(),
    ensures
        i < catalog.after_resolve(group_id, prefix, decl).attributes.len(),
        catalog.after_resolve(group_id, prefix, decl).attributes[i] == catalog.attributes[i],
{
}

/// A catalog that starts empty holds, after any sequence of requests, each
/// attribute asked for once, at the position of its first request among the
/// distinct ones: the reference of an attribute counts the distinct attributes
/// asked for before it.
pub proof fn lemma_references_follow_first_occurrence(attrs: Seq<AttributeView>)
    ensures
        CatalogView::empty().with_attributes(attrs).attributes == first_occurrences(attrs),
        CatalogView::empty().with_attributes(attrs).roots == Map::<
            Seq<char>,
            RootAttributeView,
        >::empty(),
        first_occurrences(attrs).no_duplicates(),
        forall|attr: AttributeView| first_occurrences(attrs).contains(attr) <==> attrs.contains(attr),
    decreases attrs.len(),
{
    if attrs.len() > 0 {
        let before = attrs.drop_last();
        let last = attrs.last();
        lemma_references_follow_first_occurrence(before);
        let held = first_occurrences(before);
        assert forall|attr: AttributeView| first_occurrences(attrs).contains(attr) <==> attrs.contains(
            attr,
        ) by {
            if attrs.contains(attr) {
                let i = choose|i: int| 0 <= i < attrs.len() && attrs[i] == attr;
                if i < before.len() {
                    assert(before[i] == attr);
                    assert(held.contains(attr) <==> before.contains(attr));
                    let j = choose|j: int| 0 <= j < held.len() && held[j] == attr;
                    assert(first_occurrences(attrs)[j] == attr);
                } else if !before.contains(last) {
                    assert(first_occurrences(attrs)[held.len() as int] == attr);
                } else {
                    assert(held.contains(attr) <==> before.contains(attr));
                }
            }
            if first_occurrences(attrs).contains(attr) {
                let j = choose|j: int|
                    0 <= j < first_occurrences(attrs).len() && first_occurrences(attrs)[j] == attr;
                if j < held.len() {
                    assert(held[j] == attr);
                    assert(before.contains(attr));
                    let i = choose|i: int| 0 <= i < before.len() && before[i] == attr;
                    assert(attrs[i] == attr);
                } else {
                    assert(attrs[attrs.len() - 1] == attr);
                }
            }
        }
    }
}

/// Of a sequence of distinct attributes, asked for in their order from a catalog
/// that starts empty, the catalog holds all, each at its own position: drained,
/// it gives back the sequence.
pub proof fn lemma_distinct_attributes_keep_their_order(attrs: Seq<AttributeView>)
    requires
        attrs.no_duplicates(),
    ensures
        CatalogView::empty().with_attributes(attrs).attributes == attrs,
    decreases attrs.len(),
{
    lemma_references_follow_first_occurrence(attrs);
    lemma_first_occurrences_of_distinct(attrs);
}

/// A sequence without repetitions is its own sequence of first occurrences.
proof fn lemma_first_occurrences_of_distinct(attrs: Seq<AttributeView>)
    requires
        attrs.no_duplicates(),
    ensures
        first_occurrences(attrs) == attrs,
    decreases attrs.len(),
{
    if attrs.len() > 0 {
        let before = attrs.drop_last();
        lemma_first_occurrences_of_distinct(before);
        if before.contains(attrs.last()) {
            let i = choose|i: int| 0 <= i < before.len() && before[i] == attrs.last();
            assert(attrs[i] == attrs[attrs.len() - 1]);
        }
        assert(before.push(attrs.last()) =~= attrs);
    }
}

impl Default for AttributeCatalog {
    fn default() -> (catalog: Self)
        ensures
            catalog.wf(),
            catalog@.attributes == Seq::<AttributeView>::empty(),
            catalog@.roots == Map::<Seq<char>, RootAttributeView>::empty(),
    {
        let catalog = AttributeCatalog { attributes: Vec::new(), root_attributes: NameMap::new() };
        proof {
            assert(catalog@.attributes =~= Seq::<AttributeView>::empty());
            assert(catalog@.roots =~= Map::<Seq<char>, RootAttributeView>::empty());
        }
        catalog
    }
}

impl AttributeCatalog {
    /// The attributes and the root attributes that the catalog holds.
    pub closed spec fn view(&self) -> CatalogView {
        CatalogView {
            attributes: self.attributes.deep_view(),
            roots: self.root_attributes@.map_values(|root: AttributeWithGroupId| root@),
        }
    }

    /// The root attributes are held in name order, each name once.
    pub closed spec fn roots_wf(&self) -> bool {
        self.root_attributes.wf()
    }

    /// No attribute has two references, every reference fits, and the root
    /// attributes are in order.
    pub open spec fn wf(&self) -> bool {
        self@.wf() && self.roots_wf()
    }

    /// The number of distinct attributes in the catalog.
    pub fn len(&self) -> (n: usize)
        ensures
            n == self@.attributes.len(),
    {
        self.attributes.len()
    }

    /// Returns the reference of the given attribute or creates a new reference if the
    /// attribute does not exist in the catalog.
    pub fn attribute_ref(&mut self, attr: Attribute) -> (reference: AttributeRef)
        requires
            old(self).wf(),
            old(self)@.admits(attr@),
        ensures
            final(self).wf(),
            final(self)@ == old(self)@.with_attribute(attr@),
            reference.0 == old(self)@.reference_of(attr@),
            final(self)@.attributes[reference.0 as int] == attr@,
    {
        let mut i: usize = 0;
        while i < self.attributes.len()
            invariant
                *self == *old(self),
                self.wf(),
                i <= self.attributes.len(),
                forall|j: int| 0 <= j < i ==> self@.attributes[j] != attr@,
            decreases self.attributes.len() - i,
        {
            if self.attributes[i] == attr {
                proof {
                    let seen = self@.attributes;
                    assert(seen[i as int] == attr@);
                    let k = seen.index_of(attr@);
                    assert(0 <= k < seen.len() && seen[k] == attr@);
                }
                return AttributeRef(i as u32);
            }
            i += 1;
        }
        let reference = AttributeRef(self.attributes.len() as u32);
        self.attributes.push(attr);
        proof {
            let before = old(self)@.attributes;
            assert(!before.contains(attr@));
            assert(self@.attributes =~= before.push(attr@));
            assert(self@.roots == old(self)@.roots);
        }
        reference
    }

    /// Returns a list of deduplicated attributes ordered by their references.
    pub fn drain_attributes(self) -> (attributes: Vec<Attribute>)
        ensures
            attributes.deep_view() == self@.attributes,
    {
        self.attributes
    }

    /// Returns a list of indexed attribute names ordered by their references.
    pub fn attribute_name_index(&self) -> (names: Vec<String>)
        ensures
            names.deep_view() == self@.attributes.map_values(|attr: AttributeView| attr.name),
    {
        let mut names: Vec<String> = Vec::new();
        let mut i: usize = 0;
        while i < self.attributes.len()
            invariant
                i <= self.attributes.len(),
                names.len() == i,
                forall|j: int| 0 <= j < i ==> names[j]@ == self.attributes[j].name@,
            decreases self.attributes.len() - i,
        {
            names.push(self.attributes[i].name.clone());
            i += 1;
        }
        assert(names.deep_view() =~= self@.attributes.map_values(
            |attr: AttributeView| attr.name,
        ));
        names
    }

    /// Tries to resolve the given attribute declaration (reference or declaration in
    /// full) from the catalog. Returns `None` if the declaration is a reference whose
    /// target is not yet a root attribute of the catalog.
    pub fn resolve(
        &mut self,
        group_id: &str,
        prefix: &str,
        attr: &AttributeSpec,
        lineage: Option<&mut GroupLineage>,
    ) -> (reference: Option<AttributeRef>)
        requires
            old(self).wf(),
            old(self)@.resolved(prefix@, attr@) matches Some(resolved) ==> old(self)@.admits(
                resolved,
            ),
            lineage matches Some(sink) ==> sink.wf(),
        ensures
            final(self).wf(),
            final(self)@ == old(self)@.after_resolve(group_id@, prefix@, attr@),
            match old(self)@.resolved(prefix@, attr@) {
                Some(resolved) => reference matches Some(r) && r.0 == old(self)@.reference_of(
                    resolved,
                ) && final(self)@.attributes[r.0 as int] == resolved,
                None => reference is None,
            },
            match lineage {
                Some(sink) => final(sink).wf() && final(sink)@ == (match old(self)@.lineage_of(
                    attr@,
                ) {
                    Some((name, recorded)) => sink@.insert(name, recorded),
                    None => sink@,
                }),
                None => true,
            },
    {
        match attr {
            AttributeSpec::Ref {
                target,
                brief,
                examples,
                tag,
                requirement_level,
                sampling_relevant,
                note,
                stability,
                deprecated,
            } => {
                let root_attr = self.root_attributes.get(target.as_str());
                if let Some(root_attr) = root_attr {
                    let mut attr_lineage = AttributeLineage::new(root_attr.group_id.as_str());

                    // The resolved attribute takes each field from the reference where
                    // the reference sets it, and from the root attribute where not.
                    let resolved_attr = Attribute {
                        name: target.clone(),
                        attr_type: root_attr.attribute.attr_type.clone(),
                        brief: attr_lineage.brief(brief, root_attr.attribute.brief.as_str()),
                        examples: attr_lineage.examples(examples, &root_attr.attribute.examples),
                        tag: attr_lineage.tag(tag, &root_attr.attribute.tag),
                        requirement_level: attr_lineage.requirement_level(
                            requirement_level,
                            &root_attr.attribute.requirement_level,
                        ),
                        sampling_relevant: attr_lineage.sampling_relevant(
                            sampling_relevant,
                            &root_attr.attribute.sampling_relevant,
                        ),
                        note: attr_lineage.note(note, root_attr.attribute.note.as_str()),
                        stability: attr_lineage.stability(stability, &root_attr.attribute.stability),
                        deprecated: attr_lineage.deprecated(
                            deprecated,
                            &root_attr.attribute.deprecated,
                        ),
                        tags: crate::resolved::copy_opt_tags(&root_attr.attribute.tags),
                        value: crate::resolved::copy_opt_value(&root_attr.attribute.value),
                    };
                    proof {
                        assert(resolved_attr@ == attribute_from_ref(
                            old(self)@.roots[target@].attribute,
                            attr@,
                        ));
                        assert(attr_lineage@ == lineage_from_ref(
                            old(self)@.roots[target@].group_id,
                            attr@,
                        ));
                    }

                    let attr_ref = self.attribute_ref(resolved_attr);

                    // The lineage is recorded only where a sink for it was given.
                    if let Some(lineage) = lineage {
                        lineage.add_attribute_lineage(target.clone(), attr_lineage);
                    }
                    Some(attr_ref)
                } else {
                    None
                }
            },
            AttributeSpec::Id {
                id,
                attr_type,
                brief,
                examples,
                tag,
                requirement_level,
                sampling_relevant,
                note,
                stability,
                deprecated,
            } => {
                let root_attr_id = if prefix.is_empty() {
                    id.clone()
                } else {
                    let mut joined = prefix.to_owned();
                    joined.append(".");
                    joined.append(id.as_str());
                    proof {
                        reveal_strlit(".");
                        assert("."@ =~= seq!['.']);
                    }
                    joined
                };

                let declared = Attribute {
                    name: root_attr_id.clone(),
                    attr_type: attr_type.clone(),
                    brief: match brief {
                        Some(text) => text.clone(),
                        None => String::new(),
                    },
                    examples: copy_opt_examples(examples),
                    tag: copy_opt_text(tag),
                    requirement_level: requirement_level.clone(),
                    sampling_relevant: *sampling_relevant,
                    note: note.clone(),
                    stability: *stability,
                    deprecated: copy_opt_text(deprecated),
                    tags: None,
                    value: None,
                };
                assert(declared@ == attribute_from_id(root_name(prefix@, id@), attr@));

                self.root_attributes.insert(
                    root_attr_id,
                    AttributeWithGroupId { attribute: declared.clone(), group_id: group_id.to_owned() },
                );
                proof {
                    assert(self@.roots =~= old(self)@.roots.insert(
                        declared@.name,
                        RootAttributeView { attribute: declared@, group_id: group_id@ },
                    ));
                }
                Some(self.attribute_ref(declared))
            },
        }
    }
}

} // verus!
