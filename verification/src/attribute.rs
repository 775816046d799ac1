//! Attribute resolution.

pub use crate::catalog::AttributeCatalog;
use crate::catalog::attribute_from_id;
use crate::error::{unresolved, Error, ErrorView};
use crate::name_map::NameMap;
use crate::names::{lemma_sorted_lists_agree, strictly_sorted};
use crate::registry::{specs_view, GroupType, RegistryView, SemConvRegistry};
use crate::resolved;
use crate::resolved::Tags;
use crate::schema::{Attribute, AttributeView, TagsView};
use crate::semconv::{copy_opt_examples, AttributeSpec, AttributeSpecView};
use crate::text::copy_opt_text;
use crate::version::{current_name, VersionChanges};
use vstd::prelude::*;

verus! {

/// The reason given where a group that a schema refers to is not in the registry.
pub const GROUP_NOT_FOUND: &'static str = "Group not found in the registry";

/// The reason given where a reference cannot be resolved against the registry.
pub const REF_NOT_RESOLVED: &'static str =
    "Attribute ref cannot be resolved from an attribute id of the registry";

/// The reason given where a reference leads to a name that the registry does not
/// have.
pub const REF_NOT_FOUND: &'static str = "Attribute ref not found in the resolved registry";

/// The reason given where a chain of references comes back to itself.
pub const REF_CYCLE: &'static str = "Attribute ref never leads to an attribute id";

/// The attributes of one group while it is being resolved, by name.
pub type Table = Map<Seq<char>, AttributeView>;

/// The declarations that an executable table holds, each seen by its view.
pub open spec fn table_view(table: Map<Seq<char>, Attribute>) -> Table {
    table.map_values(|attr: Attribute| attr@)
}

/// The group that `decl` refers to and the tags it stamps, where `decl` is a
/// reference to a group of kind `kind`.
pub open spec fn group_ref(decl: AttributeView, kind: GroupType) -> Option<(Seq<char>, TagsView)> {
    match (decl, kind) {
        (AttributeView::AttributeGroupRef { attribute_group_ref, tags }, GroupType::AttributeGroup) => {
            Some((attribute_group_ref, tags))
        },
        (AttributeView::ResourceRef { resource_ref, tags }, GroupType::Resource) => Some(
            (resource_ref, tags),
        ),
        (AttributeView::SpanRef { span_ref, tags }, GroupType::Span) => Some((span_ref, tags)),
        (AttributeView::EventRef { event_ref, tags }, GroupType::Event) => Some((event_ref, tags)),
        _ => None,
    }
}

/// The attributes of a group as schema declarations, each stamped with `tags`.
pub open spec fn stamped(attributes: Map<Seq<char>, AttributeSpecView>, tags: TagsView) -> Table {
    attributes.map_values(|spec: AttributeSpecView| AttributeView::from_spec(spec).with_tags(tags))
}

/// The table after every reference of `decls` to a group of kind `kind` was
/// expanded into it, in the order of `decls`: the attributes of the group, stamped
/// with the reference's tags, replace what stood under their names. The first
/// reference to a group that the registry does not have is the error.
pub open spec fn expand_groups(
    decls: Seq<AttributeView>,
    registry: RegistryView,
    kind: GroupType,
    table: Table,
) -> Result<Table, ErrorView>
    decreases decls.len(),
{
    if decls.len() == 0 {
        Ok(table)
    } else {
        match expand_groups(decls.drop_last(), registry, kind, table) {
            Err(error) => Err(error),
            Ok(expanded) => match group_ref(decls.last(), kind) {
                None => Ok(expanded),
                Some((name, tags)) => match registry.group_attributes(name, kind) {
                    None => Err(unresolved(name, GROUP_NOT_FOUND@)),
                    Some(attributes) => Ok(
                        expanded.union_prefer_right(stamped(attributes, tags)),
                    ),
                },
            },
        }
    }
}

/// The table after every reference of `decls` to a single attribute was resolved
/// into it, in the order of `decls`: the reference is resolved against the
/// registry's entry for the current name of its target, and the result replaces
/// what stood under that current name. The first reference that does not resolve
/// is the error.
pub open spec fn resolve_refs(
    decls: Seq<AttributeView>,
    registry: RegistryView,
    renames: Map<Seq<char>, Seq<char>>,
    table: Table,
) -> Result<Table, ErrorView>
    decreases decls.len(),
{
    if decls.len() == 0 {
        Ok(table)
    } else {
        match resolve_refs(decls.drop_last(), registry, renames, table) {
            Err(error) => Err(error),
            Ok(resolved) => match decls.last() {
                AttributeView::Ref { target, .. } => {
                    let name = current_name(renames, target);
                    match decls.last().resolved_from(registry.attribute(name)) {
                        Some(attr) => Ok(resolved.insert(name, attr)),
                        None => Err(unresolved(target, REF_NOT_RESOLVED@)),
                    }
                },
                _ => Ok(resolved),
            },
        }
    }
}

/// The table after every declaration in full of `decls` was put into it under its
/// name, in the order of `decls`, each replacing what stood there.
pub open spec fn insert_ids(decls: Seq<AttributeView>, table: Table) -> Table
    decreases decls.len(),
{
    if decls.len() == 0 {
        table
    } else {
        let inserted = insert_ids(decls.drop_last(), table);
        match decls.last() {
            AttributeView::Id { id, .. } => inserted.insert(id, decls.last()),
            _ => inserted,
        }
    }
}

/// The attributes that `decls` resolve to, by name: the references to attribute
/// groups are expanded first, then those to resource groups, to span groups and
/// to event groups, then the references to single attributes are resolved, and
/// last the declarations in full are put in. What comes later replaces what came
/// earlier under the same name, and the first failure is the error of the whole.
pub open spec fn resolved_table(
    decls: Seq<AttributeView>,
    registry: RegistryView,
    renames: Map<Seq<char>, Seq<char>>,
) -> Result<Table, ErrorView> {
    match expand_groups(decls, registry, GroupType::AttributeGroup, Map::empty()) {
        Err(error) => Err(error),
        Ok(groups) => match expand_groups(decls, registry, GroupType::Resource, groups) {
            Err(error) => Err(error),
            Ok(resources) => match expand_groups(decls, registry, GroupType::Span, resources) {
                Err(error) => Err(error),
                Ok(spans) => match expand_groups(decls, registry, GroupType::Event, spans) {
                    Err(error) => Err(error),
                    Ok(events) => match resolve_refs(decls, registry, renames, events) {
                        Err(error) => Err(error),
                        Ok(refs) => Ok(insert_ids(decls, refs)),
                    },
                },
            },
        }
    }
}

/// `listed` holds exactly the attributes of `table`, in the name order of the
/// names they stand under.
pub open spec fn lists_by_name(table: Table, listed: Seq<AttributeView>) -> bool {
    exists|names: Seq<Seq<char>>|
        {
            &&& #[trigger] strictly_sorted(names)
            &&& names.len() == listed.len()
            &&& forall|name: Seq<char>| table.dom().contains(name) <==> names.contains(name)
            &&& forall|i: int| 0 <= i < names.len() ==> listed[i] == table[names[i]]
        }
}

/// A table is listed by name in one way only: what `resolve_attributes` returns
/// is fixed by the table that the declarations resolve to.
pub proof fn lemma_lists_by_name_is_unique(
    table: Table,
    listed: Seq<AttributeView>,
    other: Seq<AttributeView>,
)
    requires
        lists_by_name(table, listed),
        lists_by_name(table, other),
    ensures
        listed == other,
{
    let names = choose|names: Seq<Seq<char>>|
        {
            &&& #[trigger] strictly_sorted(names)
            &&& names.len() == listed.len()
            &&& forall|name: Seq<char>| table.dom().contains(name) <==> names.contains(name)
            &&& forall|i: int| 0 <= i < names.len() ==> listed[i] == table[names[i]]
        };
    let others = choose|names: Seq<Seq<char>>|
        {
            &&& #[trigger] strictly_sorted(names)
            &&& names.len() == other.len()
            &&& forall|name: Seq<char>| table.dom().contains(name) <==> names.contains(name)
            &&& forall|i: int| 0 <= i < names.len() ==> other[i] == table[names[i]]
        };
    lemma_sorted_lists_agree(names, others);
    assert(listed =~= other);
}

/// A declaration in full wins: where no later declaration in full has its name,
/// it is what the resolved table holds under that name, whatever the groups and
/// references of the list brought in under it.
pub proof fn lemma_declaration_in_full_wins(
    decls: Seq<AttributeView>,
    registry: RegistryView,
    renames: Map<Seq<char>, Seq<char>>,
    i: int,
)
    requires
        0 <= i < decls.len(),
        decls[i] is Id,
        forall|j: int| i < j < decls.len() && decls[j] is Id ==> decls[j].name() != decls[i].name(),
        resolved_table(decls, registry, renames) is Ok,
    ensures
        resolved_table(decls, registry, renames)->Ok_0.dom().contains(decls[i].name()),
        resolved_table(decls, registry, renames)->Ok_0[decls[i].name()] == decls[i],
{
    let groups = expand_groups(decls, registry, GroupType::AttributeGroup, Map::empty())->Ok_0;
    let resources = expand_groups(decls, registry, GroupType::Resource, groups)->Ok_0;
    let spans = expand_groups(decls, registry, GroupType::Span, resources)->Ok_0;
    let events = expand_groups(decls, registry, GroupType::Event, spans)->Ok_0;
    let refs = resolve_refs(decls, registry, renames, events)->Ok_0;
    lemma_last_id_stays(decls, refs, i);
}

/// Of the declarations in full put into a table, the last one of a name stays
/// under it.
proof fn lemma_last_id_stays(decls: Seq<AttributeView>, table: Table, i: int)
    requires
        0 <= i < decls.len(),
        decls[i] is Id,
        forall|j: int| i < j < decls.len() && decls[j] is Id ==> decls[j].name() != decls[i].name(),
    ensures
        insert_ids(decls, table).dom().contains(decls[i].name()),
        insert_ids(decls, table)[decls[i].name()] == decls[i],
    decreases decls.len(),
{
    if i < decls.len() - 1 {
        let before = decls.drop_last();
        assert(before[i] == decls[i]);
        assert forall|j: int| i < j < before.len() && before[j] is Id implies before[j].name()
            != before[i].name() by {
            assert(before[j] == decls[j]);
        }
        lemma_last_id_stays(before, table, i);
        let last = decls[decls.len() - 1];
        if last is Id {
            assert(last.name() != decls[i].name());
        }
    }
}

/// Puts the attributes of a group into the table, each stamped with `tags`.
fn copy_into_resolved_attrs(
    attrs: &NameMap<AttributeSpec>,
    tags: &Option<Tags>,
    resolved_attrs: &mut NameMap<Attribute>,
)
    requires
        attrs.wf(),
        old(resolved_attrs).wf(),
    ensures
        final(resolved_attrs).wf(),
        table_view(final(resolved_attrs)@) == table_view(old(resolved_attrs)@).union_prefer_right(
            stamped(specs_view(attrs@), tags.deep_view()),
        ),
{
    let ghost before = table_view(resolved_attrs@);
    let ghost group = stamped(specs_view(attrs@), tags.deep_view());
    let n = attrs.len();
    let mut j: usize = 0;
    proof {
        assert(attrs.names().take(0) =~= Seq::<Seq<char>>::empty());
        assert(table_view(resolved_attrs@) =~= before.union_prefer_right(
            group.restrict(attrs.names().take(0).to_set()),
        ));
    }
    while j < n
        invariant
            attrs.wf(),
            resolved_attrs.wf(),
            n == attrs.names().len(),
            j <= n,
            group == stamped(specs_view(attrs@), tags.deep_view()),
            table_view(resolved_attrs@) == before.union_prefer_right(
                group.restrict(attrs.names().take(j as int).to_set()),
            ),
        decreases n - j,
    {
        let attr_id = attrs.name_at(j);
        let mut attr = Attribute::from_spec(attrs.value_at(j));
        attr.set_tags(tags);
        proof {
            let names = attrs.names();
            assert(names.contains(names[j as int]));
            assert(attrs@.dom().contains(names[j as int]));
            assert(attrs@[names[j as int]] == attrs.values()[j as int]);
            assert(attr@ == group[attr_id@]);
            assert(names.take(j + 1) =~= names.take(j as int).push(attr_id@));
            names.take(j as int).lemma_push_to_set_commute(attr_id@);
            assert(table_view(resolved_attrs@.insert(attr_id@, attr)) =~= table_view(
                resolved_attrs@,
            ).insert(attr_id@, attr@));
            assert(before.union_prefer_right(group.restrict(names.take(j + 1).to_set()))
                =~= before.union_prefer_right(
                group.restrict(names.take(j as int).to_set()),
            ).insert(attr_id@, attr@));
        }
        resolved_attrs.insert(attr_id.clone(), attr);
        j += 1;
    }
    proof {
        let names = attrs.names();
        assert(names.take(n as int) =~= names);
        assert(group.restrict(names.to_set()) =~= group) by {
            assert forall|k: Seq<char>| group.dom().contains(k) implies names.to_set().contains(
                k,
            ) by {
                assert(attrs@.dom().contains(k));
            }
        }
    }
}

/// Expands every reference of `attributes` to a group of kind `kind` into the
/// table.
fn expand_group_refs(
    attributes: &[Attribute],
    semconv_registry: &SemConvRegistry,
    kind: GroupType,
    resolved_attrs: &mut NameMap<Attribute>,
) -> (outcome: Result<(), Error>)
    requires
        semconv_registry.wf(),
        old(resolved_attrs).wf(),
    ensures
        final(resolved_attrs).wf(),
        match expand_groups(
            attributes.deep_view(),
            semconv_registry@,
            kind,
            table_view(old(resolved_attrs)@),
        ) {
            Ok(table) => outcome is Ok && table_view(final(resolved_attrs)@) == table,
            Err(error) => outcome matches Err(e) && e@ == error,
        },
{
    let ghost decls = attributes.deep_view();
    let ghost start = table_view(resolved_attrs@);
    let mut i: usize = 0;
    proof {
        assert(decls.take(0) =~= Seq::<AttributeView>::empty());
    }
    while i < attributes.len()
        invariant
            semconv_registry.wf(),
            resolved_attrs.wf(),
            decls == attributes.deep_view(),
            start == table_view(old(resolved_attrs)@),
            i <= attributes.len(),
            expand_groups(decls.take(i as int), semconv_registry@, kind, start) == Ok::<
                Table,
                ErrorView,
            >(table_view(resolved_attrs@)),
        decreases attributes.len() - i,
    {
        proof {
            assert(decls.take(i + 1).drop_last() =~= decls.take(i as int));
            assert(decls.take(i + 1).last() == attributes[i as int]@);
        }
        let reference: Option<(&String, &Option<Tags>)> = match (&attributes[i], kind) {
            (Attribute::AttributeGroupRef { attribute_group_ref, tags }, GroupType::AttributeGroup) => {
                Some((attribute_group_ref, tags))
            },
            (Attribute::ResourceRef { resource_ref, tags }, GroupType::Resource) => Some(
                (resource_ref, tags),
            ),
            (Attribute::SpanRef { span_ref, tags }, GroupType::Span) => Some((span_ref, tags)),
            (Attribute::EventRef { event_ref, tags }, GroupType::Event) => Some((event_ref, tags)),
            _ => None,
        };
        if let Some((name, tags)) = reference {
            assert(group_ref(attributes[i as int]@, kind) == Some((name@, tags.deep_view())));
            match semconv_registry.attributes(name.as_str(), kind) {
                Some(attrs) => {
                    copy_into_resolved_attrs(attrs, tags, resolved_attrs);
                },
                None => {
                    let error = Error::fail_to_resolve(name.as_str(), GROUP_NOT_FOUND);
                    proof {
                        assert(expand_groups(decls.take(i + 1), semconv_registry@, kind, start)
                            == Err::<Table, ErrorView>(unresolved(name@, GROUP_NOT_FOUND@)));
                        lemma_expand_groups_error(decls, semconv_registry@, kind, start, i + 1);
                    }
                    return Err(error);
                },
            }
        } else {
            assert(group_ref(attributes[i as int]@, kind) is None);
        }
        i += 1;
    }
    proof {
        assert(decls.take(i as int) =~= decls);
    }
    Ok(())
}

/// An error met while the references of a prefix of `decls` are expanded is the
/// error of expanding all of `decls`.
proof fn lemma_expand_groups_error(
    decls: Seq<AttributeView>,
    registry: RegistryView,
    kind: GroupType,
    table: Table,
    n: int,
)
    requires
        0 <= n <= decls.len(),
        expand_groups(decls.take(n), registry, kind, table) is Err,
    ensures
        expand_groups(decls, registry, kind, table) == expand_groups(
            decls.take(n),
            registry,
            kind,
            table,
        ),
    decreases decls.len() - n,
{
    if n == decls.len() {
        assert(decls.take(n) =~= decls);
    } else {
        assert(decls.take(n + 1).drop_last() =~= decls.take(n));
        lemma_expand_groups_error(decls, registry, kind, table, n + 1);
    }
}

/// An error met while the references of a prefix of `decls` are resolved is the
/// error of resolving all of `decls`.
proof fn lemma_resolve_refs_error(
    decls: Seq<AttributeView>,
    registry: RegistryView,
    renames: Map<Seq<char>, Seq<char>>,
    table: Table,
    n: int,
)
    requires
        0 <= n <= decls.len(),
        resolve_refs(decls.take(n), registry, renames, table) is Err,
    ensures
        resolve_refs(decls, registry, renames, table) == resolve_refs(
            decls.take(n),
            registry,
            renames,
            table,
        ),
    decreases decls.len() - n,
{
    if n == decls.len() {
        assert(decls.take(n) =~= decls);
    } else {
        assert(decls.take(n + 1).drop_last() =~= decls.take(n));
        lemma_resolve_refs_error(decls, registry, renames, table, n + 1);
    }
}

/// Resolves every reference of `attributes` to a single attribute into the table.
fn resolve_attribute_refs(
    attributes: &[Attribute],
    semconv_registry: &SemConvRegistry,
    version_changes: &VersionChanges,
    resolved_attrs: &mut NameMap<Attribute>,
) -> (outcome: Result<(), Error>)
    requires
        semconv_registry.wf(),
        version_changes.wf(),
        old(resolved_attrs).wf(),
    ensures
        final(resolved_attrs).wf(),
        match resolve_refs(
            attributes.deep_view(),
            semconv_registry@,
            version_changes@,
            table_view(old(resolved_attrs)@),
        ) {
            Ok(table) => outcome is Ok && table_view(final(resolved_attrs)@) == table,
            Err(error) => outcome matches Err(e) && e@ == error,
        },
{
    let ghost decls = attributes.deep_view();
    let ghost start = table_view(resolved_attrs@);
    let mut i: usize = 0;
    proof {
        assert(decls.take(0) =~= Seq::<AttributeView>::empty());
    }
    while i < attributes.len()
        invariant
            semconv_registry.wf(),
            version_changes.wf(),
            resolved_attrs.wf(),
            decls == attributes.deep_view(),
            start == table_view(old(resolved_attrs)@),
            i <= attributes.len(),
            resolve_refs(decls.take(i as int), semconv_registry@, version_changes@, start) == Ok::<
                Table,
                ErrorView,
            >(table_view(resolved_attrs@)),
        decreases attributes.len() - i,
    {
        proof {
            assert(decls.take(i + 1).drop_last() =~= decls.take(i as int));
            assert(decls.take(i + 1).last() == attributes[i as int]@);
        }
        if let Attribute::Ref { target, .. } = &attributes[i] {
            let normalized_ref = version_changes.get_attribute_name(target.as_str());
            let sem_conv_attr = semconv_registry.attribute(normalized_ref.as_str());
            match attributes[i].resolve_from(sem_conv_attr) {
                Some(resolved_attribute) => {
                    proof {
                        assert(table_view(resolved_attrs@.insert(normalized_ref@, resolved_attribute))
                            =~= table_view(resolved_attrs@).insert(
                            normalized_ref@,
                            resolved_attribute@,
                        ));
                    }
                    resolved_attrs.insert(normalized_ref, resolved_attribute);
                },
                None => {
                    let error = Error::fail_to_resolve(target.as_str(), REF_NOT_RESOLVED);
                    proof {
                        assert(resolve_refs(
                            decls.take(i + 1),
                            semconv_registry@,
                            version_changes@,
                            start,
                        ) == Err::<Table, ErrorView>(unresolved(target@, REF_NOT_RESOLVED@)));
                        lemma_resolve_refs_error(
                            decls,
                            semconv_registry@,
                            version_changes@,
                            start,
                            i + 1,
                        );
                    }
                    return Err(error);
                },
            }
        }
        i += 1;
    }
    proof {
        assert(decls.take(i as int) =~= decls);
    }
    Ok(())
}

/// Puts every declaration in full of `attributes` into the table.
fn insert_attribute_ids(attributes: &[Attribute], resolved_attrs: &mut NameMap<Attribute>)
    requires
        old(resolved_attrs).wf(),
    ensures
        final(resolved_attrs).wf(),
        table_view(final(resolved_attrs)@) == insert_ids(
            attributes.deep_view(),
            table_view(old(resolved_attrs)@),
        ),
{
    let ghost decls = attributes.deep_view();
    let ghost start = table_view(resolved_attrs@);
    let mut i: usize = 0;
    proof {
        assert(decls.take(0) =~= Seq::<AttributeView>::empty());
    }
    while i < attributes.len()
        invariant
            resolved_attrs.wf(),
            decls == attributes.deep_view(),
            i <= attributes.len(),
            insert_ids(decls.take(i as int), start) == table_view(resolved_attrs@),
        decreases attributes.len() - i,
    {
        proof {
            assert(decls.take(i + 1).drop_last() =~= decls.take(i as int));
            assert(decls.take(i + 1).last() == attributes[i as int]@);
        }
        if let Attribute::Id { id, .. } = &attributes[i] {
            let attribute = attributes[i].clone();
            proof {
                assert(table_view(resolved_attrs@.insert(id@, attribute)) =~= table_view(
                    resolved_attrs@,
                ).insert(id@, attribute@));
            }
            resolved_attrs.insert(id.clone(), attribute);
        }
        i += 1;
    }
    proof {
        assert(decls.take(i as int) =~= decls);
    }
}

/// Resolves a collection of attribute declarations against the registry into the
/// attributes of one group.
///
/// References to attribute groups are expanded first, then references to resource
/// groups, to span groups and to event groups; then references to single
/// attributes are resolved, under the current name that the version changes give
/// to their target; last the declarations in full are added. What is resolved
/// later replaces, under the same name, what was resolved earlier. The result
/// lists the attributes in the order of their names.
///
/// A reference to a group that the registry does not have, or to an attribute
/// that it does not declare in full, fails the whole resolution: the error names
/// the first such reference in the order just given.
pub fn resolve_attributes(
    attributes: &[Attribute],
    semconv_registry: &SemConvRegistry,
    version_changes: VersionChanges,
) -> (resolved: Result<Vec<Attribute>, Error>)
    requires
        semconv_registry.wf(),
        version_changes.wf(),
    ensures
        match resolved_table(attributes.deep_view(), semconv_registry@, version_changes@) {
            Ok(table) => resolved matches Ok(listed) && lists_by_name(table, listed.deep_view()),
            Err(error) => resolved matches Err(e) && e@ == error,
        },
{
    let mut resolved_attrs: NameMap<Attribute> = NameMap::new();
    proof {
        assert(table_view(resolved_attrs@) =~= Map::<Seq<char>, AttributeView>::empty());
    }
    match expand_group_refs(
        attributes,
        semconv_registry,
        GroupType::AttributeGroup,
        &mut resolved_attrs,
    ) {
        Err(error) => {
            return Err(error);
        },
        Ok(_) => {},
    }
    match expand_group_refs(attributes, semconv_registry, GroupType::Resource, &mut resolved_attrs) {
        Err(error) => {
            return Err(error);
        },
        Ok(_) => {},
    }
    match expand_group_refs(attributes, semconv_registry, GroupType::Span, &mut resolved_attrs) {
        Err(error) => {
            return Err(error);
        },
        Ok(_) => {},
    }
    match expand_group_refs(attributes, semconv_registry, GroupType::Event, &mut resolved_attrs) {
        Err(error) => {
            return Err(error);
        },
        Ok(_) => {},
    }
    match resolve_attribute_refs(
        attributes,
        semconv_registry,
        &version_changes,
        &mut resolved_attrs,
    ) {
        Err(error) => {
            return Err(error);
        },
        Ok(_) => {},
    }
    insert_attribute_ids(attributes, &mut resolved_attrs);

    let ghost names = resolved_attrs.names();
    let ghost table = table_view(resolved_attrs@);
    let ghost held = resolved_attrs.values();
    let listed = resolved_attrs.into_values();
    proof {
        assert forall|i: int| 0 <= i < names.len() implies listed.deep_view()[i]
            == table[names[i]] by {
            assert(names.contains(names[i]));
            assert(resolved_attrs@[names[i]] == held[i]);
        }
        assert(strictly_sorted(names));
        assert(lists_by_name(table, listed.deep_view()));
    }
    Ok(listed)
}

/// Whether one of `decls` is identified by `name`.
pub open spec fn named_in(decls: Seq<AttributeView>, name: Seq<char>) -> bool {
    exists|i: int| 0 <= i < decls.len() && #[trigger] decls[i].name() == name
}

/// Whether every one of `decls` names a single attribute, none a group.
pub open spec fn all_name_attributes(decls: Seq<AttributeView>) -> bool {
    forall|i: int| 0 <= i < decls.len() ==> (#[trigger] decls[i]).names_attribute()
}

/// The main declarations in their order, followed by those inherited ones whose
/// name no main declaration has, in their order.
pub open spec fn merged(main: Seq<AttributeView>, inherited: Seq<AttributeView>) -> Seq<
    AttributeView,
> {
    main + inherited.filter(|attr: AttributeView| !named_in(main, attr.name()))
}

/// Whether every declaration of `attrs` names a single attribute, as merging
/// asks of both of its lists.
pub fn names_single_attributes(attrs: &[Attribute]) -> (single: bool)
    ensures
        single == all_name_attributes(attrs.deep_view()),
{
    let mut i: usize = 0;
    while i < attrs.len()
        invariant
            i <= attrs.len(),
            forall|j: int| 0 <= j < i ==> (#[trigger] attrs.deep_view()[j]).names_attribute(),
        decreases attrs.len() - i,
    {
        match &attrs[i] {
            Attribute::Ref { .. } => {},
            Attribute::Id { .. } => {},
            _ => {
                assert(!attrs.deep_view()[i as int].names_attribute());
                return false;
            },
        }
        i += 1;
    }
    true
}

/// Merges the given main attributes with the inherited attributes.
/// Main attributes have precedence over inherited attributes: an inherited
/// attribute is dropped where a main attribute has its name, and kept whole where
/// none has.
///
/// References to groups must have been expanded before: every declaration on
/// either side names a single attribute.
pub fn merge_attributes(main_attrs: &[Attribute], inherited_attrs: &[Attribute]) -> (merged_attrs:
    Vec<Attribute>)
    requires
        all_name_attributes(main_attrs.deep_view()),
        all_name_attributes(inherited_attrs.deep_view()),
    ensures
        merged_attrs.deep_view() == merged(main_attrs.deep_view(), inherited_attrs.deep_view()),
{
    let ghost main = main_attrs.deep_view();
    let ghost inherited = inherited_attrs.deep_view();
    let ghost fresh = |attr: AttributeView| !named_in(main, attr.name());
    let mut merged_attrs: Vec<Attribute> = Vec::new();
    let mut main_attr_ids: NameMap<()> = NameMap::new();
    let mut i: usize = 0;
    while i < main_attrs.len()
        invariant
            main == main_attrs.deep_view(),
            i <= main_attrs.len(),
            main_attr_ids.wf(),
            forall|name: Seq<char>|
                main_attr_ids@.dom().contains(name) <==> named_in(main.take(i as int), name),
            merged_attrs.deep_view() == main.take(i as int),
        decreases main_attrs.len() - i,
    {
        let ghost seen = main_attr_ids@.dom();
        let ghost listed = merged_attrs.deep_view();
        let attr = main_attrs[i].clone();
        main_attr_ids.insert(main_attrs[i].id().to_owned(), ());
        merged_attrs.push(attr);
        proof {
            let name = main[i as int].name();
            assert(merged_attrs.deep_view() =~= listed.push(main[i as int]));
            assert(main.take(i + 1) =~= main.take(i as int).push(main[i as int]));
            assert forall|k: Seq<char>| main_attr_ids@.dom().contains(k) <==> named_in(
                main.take(i + 1),
                k,
            ) by {
                if named_in(main.take(i + 1), k) {
                    let w = choose|w: int|
                        0 <= w < main.take(i + 1).len() && #[trigger] main.take(i + 1)[w].name() == k;
                    if w < i {
                        assert(main.take(i as int)[w].name() == k);
                    }
                }
                if seen.contains(k) {
                    let w = choose|w: int|
                        0 <= w < main.take(i as int).len() && #[trigger] main.take(i as int)[w].name()
                            == k;
                    assert(main.take(i + 1)[w].name() == k);
                }
                if k == name {
                    assert(main.take(i + 1)[i as int].name() == k);
                }
            }
        }
        i += 1;
    }
    proof {
        assert(main.take(i as int) =~= main);
        assert(inherited.take(0) =~= Seq::<AttributeView>::empty());
        reveal(Seq::filter);
        assert(inherited.take(0).filter(fresh) =~= Seq::<AttributeView>::empty());
        assert(merged_attrs.deep_view() =~= main + inherited.take(0).filter(fresh));
    }
    let mut j: usize = 0;
    while j < inherited_attrs.len()
        invariant
            main == main_attrs.deep_view(),
            inherited == inherited_attrs.deep_view(),
            fresh == |attr: AttributeView| !named_in(main, attr.name()),
            j <= inherited_attrs.len(),
            main_attr_ids.wf(),
            forall|name: Seq<char>| main_attr_ids@.dom().contains(name) <==> named_in(main, name),
            merged_attrs.deep_view() == main + inherited.take(j as int).filter(fresh),
        decreases inherited_attrs.len() - j,
    {
        let ghost listed = merged_attrs.deep_view();
        proof {
            assert(inherited.take(j + 1) =~= inherited.take(j as int).push(inherited[j as int]));
            inherited.take(j as int).lemma_filter_push(inherited[j as int], fresh);
        }
        let inherited_attr = &inherited_attrs[j];
        if main_attr_ids.get(inherited_attr.id()).is_none() {
            merged_attrs.push(inherited_attr.clone());
            proof {
                assert(fresh(inherited[j as int]));
                assert(merged_attrs.deep_view() =~= listed.push(inherited[j as int]));
                assert(listed.push(inherited[j as int]) =~= main + inherited.take(
                    j as int,
                ).filter(fresh).push(inherited[j as int]));
            }
        } else {
            assert(!fresh(inherited[j as int]));
        }
        j += 1;
    }
    proof {
        assert(inherited.take(j as int) =~= inherited);
    }
    merged_attrs
}

/// Where a chain of references ends.
pub enum ChainEnd {
    /// At a declaration in full.
    Declared(AttributeSpecView),
    /// At a reference to a name that the registry does not have.
    Missing(Seq<char>),
    /// Nowhere within the steps allowed: the reference to the given name was the
    /// last one followed.
    Unfinished(Seq<char>),
}

/// Where the chain of references that starts at `decl` ends, if each reference is
/// looked up in the registry and at most `steps` of them are followed.
pub open spec fn follow_refs(registry: RegistryView, decl: AttributeSpecView, steps: nat) -> ChainEnd
    decreases steps,
{
    match decl {
        AttributeSpecView::Id { .. } => ChainEnd::Declared(decl),
        AttributeSpecView::Ref { target, .. } => match registry.attribute(target) {
            None => ChainEnd::Missing(target),
            Some(next) => if steps == 0 {
                ChainEnd::Unfinished(target)
            } else {
                follow_refs(registry, next, (steps - 1) as nat)
            },
        },
    }
}

/// The resolved attribute that `decl` stands for in the registry: the declaration
/// in full at the end of its chain of references, under that declaration's own
/// name. As many references are followed as the registry has attributes, which
/// is as many as a chain that ends can have.
pub open spec fn resolved_attribute(registry: RegistryView, decl: AttributeSpecView) -> Result<
    resolved::AttributeView,
    ErrorView,
> {
    match follow_refs(registry, decl, registry.attributes.dom().len()) {
        ChainEnd::Declared(found) => Ok(attribute_from_id(found->id, found)),
        ChainEnd::Missing(name) => Err(unresolved(name, REF_NOT_FOUND@)),
        ChainEnd::Unfinished(name) => Err(unresolved(name, REF_CYCLE@)),
    }
}

/// Converts a semantic convention attribute to a resolved attribute.
///
/// A reference is looked up in the registry by the name of its target, and so is
/// what is found there, until a declaration in full is reached: that one is
/// converted, and the fields that the references set are not applied. It is an
/// error if a name is not in the registry, or if the references lead back to one
/// another and so never reach a declaration in full.
pub fn resolve_attribute(registry: &SemConvRegistry, attr: &AttributeSpec) -> (resolved: Result<
    resolved::Attribute,
    Error,
>)
    requires
        registry.wf(),
    ensures
        match resolved_attribute(registry@, attr@) {
            Ok(attribute) => resolved matches Ok(a) && a@ == attribute,
            Err(error) => resolved matches Err(e) && e@ == error,
        },
{
    let mut current: &AttributeSpec = attr;
    let mut steps: usize = registry.attribute_count();
    loop
        invariant
            registry.wf(),
            follow_refs(registry@, current@, steps as nat) == follow_refs(
                registry@,
                attr@,
                registry@.attributes.dom().len(),
            ),
        decreases steps,
    {
        match current {
            AttributeSpec::Ref { target, .. } => {
                match registry.attribute(target.as_str()) {
                    None => {
                        return Err(Error::fail_to_resolve(target.as_str(), REF_NOT_FOUND));
                    },
                    Some(sem_conv_attr) => {
                        if steps == 0 {
                            return Err(Error::fail_to_resolve(target.as_str(), REF_CYCLE));
                        }
                        steps -= 1;
                        current = sem_conv_attr;
                    },
                }
            },
            AttributeSpec::Id {
                id,
                attr_type,
                brief,
                examples,
                tag,
                requirement_level,
                sampling_relevant,
                note,
                stability,
                deprecated,
            } => {
                return Ok(
                    resolved::Attribute {
                        name: id.clone(),
                        attr_type: attr_type.clone(),
                        brief: match brief {
                            Some(text) => text.clone(),
                            None => String::new(),
                        },
                        examples: copy_opt_examples(examples),
                        tag: copy_opt_text(tag),
                        requirement_level: requirement_level.clone(),
                        sampling_relevant: *sampling_relevant,
                        note: note.clone(),
                        stability: *stability,
                        deprecated: copy_opt_text(deprecated),
                        tags: None,
                        value: None,
                    },
                );
            },
        }
    }
}

/// The declaration reached from `decl` after `count` references were followed,
/// if that many can be followed.
pub open spec fn reached(registry: RegistryView, decl: AttributeSpecView, count: nat) -> Option<
    AttributeSpecView,
>
    decreases count,
{
    if count == 0 {
        Some(decl)
    } else {
        match decl {
            AttributeSpecView::Id { .. } => None,
            AttributeSpecView::Ref { target, .. } => match registry.attribute(target) {
                None => None,
                Some(next) => reached(registry, next, (count - 1) as nat),
            },
        }
    }
}

/// What is reached in `a` steps, and from there in `b` steps, is reached in
/// `a + b` steps.
proof fn lemma_reached_onwards(
    registry: RegistryView,
    decl: AttributeSpecView,
    a: nat,
    mid: AttributeSpecView,
    b: nat,
)
    requires
        reached(registry, decl, a) == Some(mid),
    ensures
        reached(registry, decl, a + b) == reached(registry, mid, b),
    decreases a,
{
    if a > 0 {
        let next = registry.attribute(decl->target)->0;
        lemma_reached_onwards(registry, next, (a - 1) as nat, mid, b);
        assert(reached(registry, decl, a + b) == reached(registry, next, (a + b - 1) as nat));
    }
}

/// Where `count` references can be followed, fewer can be.
proof fn lemma_reached_before(registry: RegistryView, decl: AttributeSpecView, count: nat, fewer: nat)
    requires
        reached(registry, decl, count) is Some,
        fewer <= count,
    ensures
        reached(registry, decl, fewer) is Some,
    decreases fewer,
{
    if fewer > 0 {
        let next = registry.attribute(decl->target)->0;
        lemma_reached_before(registry, next, (count - 1) as nat, (fewer - 1) as nat);
    }
}

/// Following the chain from a declaration that is reached on it ends where
/// following the whole chain ends.
proof fn lemma_follow_from_reached(
    registry: RegistryView,
    decl: AttributeSpecView,
    count: nat,
    mid: AttributeSpecView,
    steps: nat,
)
    requires
        reached(registry, decl, count) == Some(mid),
        count <= steps,
    ensures
        follow_refs(registry, decl, steps) == follow_refs(registry, mid, (steps - count) as nat),
    decreases count,
{
    if count > 0 {
        let next = registry.attribute(decl->target)->0;
        lemma_follow_from_reached(registry, next, (count - 1) as nat, mid, (steps - 1) as nat);
    }
}

/// A chain on which more references can be followed than there are steps does
/// not end within these steps.
proof fn lemma_follow_runs_out(registry: RegistryView, decl: AttributeSpecView, steps: nat)
    requires
        reached(registry, decl, steps + 1) is Some,
    ensures
        follow_refs(registry, decl, steps) is Unfinished,
    decreases steps,
{
    if steps > 0 {
        let next = registry.attribute(decl->target)->0;
        lemma_follow_runs_out(registry, next, (steps - 1) as nat);
    }
}

/// A chain that comes back to where it started never ends.
proof fn lemma_cycle_never_ends(
    registry: RegistryView,
    decl: AttributeSpecView,
    period: nat,
    steps: nat,
)
    requires
        period > 0,
        reached(registry, decl, period) == Some(decl),
    ensures
        follow_refs(registry, decl, steps) is Unfinished,
    decreases steps,
{
    if steps < period {
        lemma_reached_before(registry, decl, period, steps + 1);
        lemma_follow_runs_out(registry, decl, steps);
    } else {
        lemma_follow_from_reached(registry, decl, period, decl, steps);
        lemma_cycle_never_ends(registry, decl, period, (steps - period) as nat);
    }
}

/// A chain that ends, and that has not come through any of the names `seen` that
/// lead to it, ends within as many steps as the registry has names besides.
proof fn lemma_chain_fits(
    registry: RegistryView,
    decl: AttributeSpecView,
    steps: nat,
    seen: Set<Seq<char>>,
)
    requires
        registry.attributes.dom().finite(),
        seen.subset_of(registry.attributes.dom()),
        !(follow_refs(registry, decl, steps) is Unfinished),
        forall|name: Seq<char>| #[trigger]
            seen.contains(name) ==> exists|count: nat| #[trigger]
                reached(registry, registry.attributes[name], count) == Some(decl),
    ensures
        seen.len() <= registry.attributes.dom().len(),
        follow_refs(registry, decl, (registry.attributes.dom().len() - seen.len()) as nat)
            == follow_refs(registry, decl, steps),
    decreases steps,
{
    let names = registry.attributes.dom();
    vstd::set_lib::lemma_len_subset(seen, names);
    match decl {
        AttributeSpecView::Id { .. } => {},
        AttributeSpecView::Ref { target, .. } => {
            if registry.attribute(target) is Some {
                let next = registry.attributes[target];
                assert(reached(registry, decl, 1) == Some(next)) by {
                    assert(reached(registry, next, 0) == Some(next));
                }
                if seen.contains(target) {
                    let count = choose|count: nat| #[trigger]
                        reached(registry, registry.attributes[target], count) == Some(decl);
                    lemma_reached_onwards(registry, decl, 1, next, count);
                    lemma_cycle_never_ends(registry, decl, 1 + count, steps);
                }
                let seen_now = seen.insert(target);
                assert forall|name: Seq<char>| #[trigger] seen_now.contains(name) implies exists|
                    count: nat,
                | #[trigger] reached(registry, registry.attributes[name], count) == Some(next) by {
                    if name == target {
                        assert(reached(registry, registry.attributes[name], 0) == Some(next));
                    } else {
                        let count = choose|count: nat| #[trigger]
                            reached(registry, registry.attributes[name], count) == Some(decl);
                        lemma_reached_onwards(registry, registry.attributes[name], count, decl, 1);
                        assert(reached(registry, registry.attributes[name], count + 1) == Some(
                            next,
                        ));
                    }
                }
                assert(seen.finite()) by {
                    vstd::set_lib::lemma_set_subset_finite(names, seen);
                }
                lemma_chain_fits(registry, next, (steps - 1) as nat, seen_now);
            }
        },
    }
}

/// A chain of references that ends at all, however long it is, ends within as
/// many steps as the registry has attributes: `resolve_attribute` then resolves
/// it to its end, and reports no chain as endless that is not.
pub proof fn lemma_chains_that_end_are_followed(
    registry: RegistryView,
    decl: AttributeSpecView,
    steps: nat,
)
    requires
        registry.attributes.dom().finite(),
        !(follow_refs(registry, decl, steps) is Unfinished),
    ensures
        follow_refs(registry, decl, registry.attributes.dom().len()) == follow_refs(
            registry,
            decl,
            steps,
        ),
{
    lemma_chain_fits(registry, decl, steps, Set::empty());
}

} // verus!
