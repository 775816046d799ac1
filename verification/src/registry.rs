//! The registry of semantic conventions, as far as attribute resolution reads it:
//! the attributes of each group, and all attributes by name.

use crate::name_map::NameMap;
use crate::semconv::{AttributeSpec, AttributeSpecView};
use vstd::prelude::*;

verus! {

/// The kinds of group that a registry holds.
#[derive(Clone, Copy, Debug, PartialEq, Eq, Hash, Structural)]
pub enum GroupType {
    AttributeGroup,
    Span,
    Event,
    Metric,
    MetricGroup,
    Resource,
    Scope,
}

/// A group of the registry: its kind and its attributes by name.
#[derive(Debug)]
struct Group {
    kind: GroupType,
    attributes: NameMap<AttributeSpec>,
}

/// The view of a group: its kind and its attributes by name.
pub struct GroupView {
    pub kind: GroupType,
    pub attributes: Map<Seq<char>, AttributeSpecView>,
}

/// The view of a [`SemConvRegistry`].
pub struct RegistryView {
    /// The groups by name.
    pub groups: Map<Seq<char>, GroupView>,
    /// All attributes by name.
    pub attributes: Map<Seq<char>, AttributeSpecView>,
}

impl RegistryView {
    /// The attributes, by name, of the group `name` of kind `kind`, if the
    /// registry has such a group.
    pub open spec fn group_attributes(self, name: Seq<char>, kind: GroupType) -> Option<
        Map<Seq<char>, AttributeSpecView>,
    > {
        if self.groups.dom().contains(name) && self.groups[name].kind == kind {
            Some(self.groups[name].attributes)
        } else {
            None
        }
    }

    /// The declaration of the attribute `name`, if the registry has one.
    pub open spec fn attribute(self, name: Seq<char>) -> Option<AttributeSpecView> {
        if self.attributes.dom().contains(name) {
            Some(self.attributes[name])
        } else {
            None
        }
    }
}

/// The declarations by name, as a view: each declaration of the map seen by its
/// own view.
pub open spec fn specs_view(specs: Map<Seq<char>, AttributeSpec>) -> Map<
    Seq<char>,
    AttributeSpecView,
> {
    specs.map_values(|spec: AttributeSpec| spec@)
}

/// The declarations of `entries`, each under the name it is listed with; of two
/// with one name the later one stays.
pub open spec fn by_name(entries: Seq<(Seq<char>, AttributeSpecView)>) -> Map<
    Seq<char>,
    AttributeSpecView,
>
    decreases entries.len(),
{
    if entries.len() == 0 {
        Map::empty()
    } else {
        by_name(entries.drop_last()).insert(entries.last().0, entries.last().1)
    }
}

/// A registry of semantic conventions.
#[derive(Debug)]
pub struct SemConvRegistry {
    groups: NameMap<Group>,
    attributes: NameMap<AttributeSpec>,
}

impl SemConvRegistry {
    /// The groups and attributes that the registry holds.
    pub closed spec fn view(&self) -> RegistryView {
        RegistryView {
            groups: self.groups@.map_values(
                |group: Group|
                    GroupView { kind: group.kind, attributes: specs_view(group.attributes@) },
            ),
            attributes: specs_view(self.attributes@),
        }
    }

    /// Groups and attributes are held in name order, each name once.
    pub closed spec fn wf(&self) -> bool {
        &&& self.groups.wf()
        &&& self.attributes.wf()
        &&& forall|name: Seq<char>| #[trigger]
            self.groups@.dom().contains(name) ==> self.groups@[name].attributes.wf()
    }

    /// A registry without groups or attributes.
    pub fn new() -> (registry: Self)
        ensures
            registry.wf(),
            registry@.groups == Map::<Seq<char>, GroupView>::empty(),
            registry@.attributes == Map::<Seq<char>, AttributeSpecView>::empty(),
    {
        let registry = SemConvRegistry { groups: NameMap::new(), attributes: NameMap::new() };
        proof {
            assert(registry@.groups =~= Map::<Seq<char>, GroupView>::empty());
            assert(registry@.attributes =~= Map::<Seq<char>, AttributeSpecView>::empty());
        }
        registry
    }

    /// Puts the attribute declaration `spec` into the registry under `name`, in
    /// place of an earlier one under that name. A declaration in full stands
    /// under its own name; a reference may stand under any name, which then leads
    /// on to the target of the reference.
    pub fn insert_attribute(&mut self, name: String, spec: AttributeSpec)
        requires
            old(self).wf(),
        ensures
            final(self).wf(),
            final(self)@.groups == old(self)@.groups,
            final(self)@.attributes == old(self)@.attributes.insert(name@, spec@),
    {
        self.attributes.insert(name, spec);
        proof {
            assert(self@.attributes =~= old(self)@.attributes.insert(name@, spec@));
        }
    }

    /// Puts the group `id` of kind `kind` into the registry, in place of an
    /// earlier group of that name. The group holds the declarations of
    /// `attributes`, each under the name it is listed with; of two with one name
    /// the later one stays.
    pub fn insert_group(
        &mut self,
        id: String,
        kind: GroupType,
        attributes: Vec<(String, AttributeSpec)>,
    )
        requires
            old(self).wf(),
        ensures
            final(self).wf(),
            final(self)@.attributes == old(self)@.attributes,
            final(self)@.groups == old(self)@.groups.insert(
                id@,
                GroupView { kind, attributes: by_name(attributes.deep_view()) },
            ),
    {
        let mut members: NameMap<AttributeSpec> = NameMap::new();
        let mut i: usize = 0;
        proof {
            assert(attributes.deep_view().take(0) =~= Seq::<(Seq<char>, AttributeSpecView)>::empty());
            assert(specs_view(members@) =~= by_name(attributes.deep_view().take(0)));
        }
        while i < attributes.len()
            invariant
                i <= attributes.len(),
                members.wf(),
                specs_view(members@) == by_name(attributes.deep_view().take(i as int)),
            decreases attributes.len() - i,
        {
            let name = attributes[i].0.clone();
            let spec = attributes[i].1.clone();
            proof {
                let all = attributes.deep_view();
                assert(all.take(i + 1).drop_last() =~= all.take(i as int));
                assert(all.take(i + 1).last() == (name@, spec@));
                assert(specs_view(members@.insert(name@, spec)) =~= specs_view(members@).insert(
                    name@,
                    spec@,
                ));
            }
            members.insert(name, spec);
            i += 1;
        }
        proof {
            assert(attributes.deep_view().take(i as int) =~= attributes.deep_view());
        }
        self.groups.insert(id, Group { kind, attributes: members });
        proof {
            assert(self@.groups =~= old(self)@.groups.insert(
                id@,
                GroupView { kind, attributes: by_name(attributes.deep_view()) },
            ));
        }
    }

    /// The attributes, by name, of the group `group` of kind `kind`. Returns
    /// `None` where the registry has no group of that name and kind.
    pub fn attributes(&self, group: &str, kind: GroupType) -> (found: Option<
        &NameMap<AttributeSpec>,
    >)
        requires
            self.wf(),
        ensures
            match self@.group_attributes(group@, kind) {
                Some(attributes) => found matches Some(members) && members.wf() && specs_view(
                    members@,
                ) == attributes,
                None => found is None,
            },
    {
        match self.groups.get(group) {
            Some(entry) => {
                if entry.kind == kind {
                    Some(&entry.attributes)
                } else {
                    None
                }
            },
            None => None,
        }
    }

    /// The declaration of the attribute `name`, if the registry has one.
    pub fn attribute(&self, name: &str) -> (found: Option<&AttributeSpec>)
        requires
            self.wf(),
        ensures
            found.deep_view() == self@.attribute(name@),
    {
        self.attributes.get(name)
    }

    /// The number of attributes that the registry holds by name.
    pub fn attribute_count(&self) -> (n: usize)
        requires
            self.wf(),
        ensures
            self@.attributes.dom().finite(),
            n == self@.attributes.dom().len(),
    {
        let n = self.attributes.len();
        assert(self@.attributes.dom() =~= self.attributes@.dom());
        n
    }
}

} // verus!
