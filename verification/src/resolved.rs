//! Fully resolved attributes: every field populated, ready for code generation.

use crate::semconv::{
    copy_opt_examples, same_opt_examples, AttributeType, AttributeTypeView, Examples,
    ExamplesView, RequirementLevel, RequirementLevelView, Stability, ValueSpec, ValueSpecView,
};
use crate::text::{copy_opt_text, same_opt_text, Double};
use vstd::prelude::*;
use vstd::std_specs::cmp::PartialEqSpecImpl;

verus! {

/// The handle that a catalog gives to a resolved attribute: its position in the
/// order in which distinct attributes were first seen.
#[derive(Clone, Copy, Debug, PartialEq, Eq, Hash, Structural)]
pub struct AttributeRef(pub u32);

/// One tag: a key and the value given to it.
#[derive(Debug)]
pub struct Tag {
    pub key: String,
    pub value: String,
}

/// Tags stamped onto an attribute, in the order in which they are listed.
#[derive(Debug)]
pub struct Tags {
    pub tags: Vec<Tag>,
}

impl View for Tag {
    type V = (Seq<char>, Seq<char>);

    open spec fn view(&self) -> (Seq<char>, Seq<char>) {
        (self.key@, self.value@)
    }
}

impl DeepView for Tag {
    type V = (Seq<char>, Seq<char>);

    open spec fn deep_view(&self) -> (Seq<char>, Seq<char>) {
        self@
    }
}

impl Clone for Tag {
    fn clone(&self) -> (copy: Self)
        ensures
            copy@ == self@,
    {
        Tag { key: self.key.clone(), value: self.value.clone() }
    }
}

impl View for Tags {
    type V = Seq<(Seq<char>, Seq<char>)>;

    open spec fn view(&self) -> Seq<(Seq<char>, Seq<char>)> {
        self.tags.deep_view()
    }
}

impl DeepView for Tags {
    type V = Seq<(Seq<char>, Seq<char>)>;

    open spec fn deep_view(&self) -> Seq<(Seq<char>, Seq<char>)> {
        self@
    }
}

impl Clone for Tags {
    fn clone(&self) -> (copy: Self)
        ensures
            copy@ == self@,
    {
        let tags = self.tags.clone();
        assert(tags.deep_view() =~= self.tags.deep_view());
        Tags { tags }
    }
}

impl PartialEq for Tags {
    fn eq(&self, other: &Self) -> (same: bool) {
        let a = &self.tags;
        let b = &other.tags;
        if a.len() != b.len() {
            assert(a.deep_view().len() != b.deep_view().len());
            return false;
        }
        let mut i: usize = 0;
        while i < a.len()
            invariant
                *a == self.tags,
                *b == other.tags,
                a.len() == b.len(),
                i <= a.len(),
                forall|j: int| 0 <= j < i ==> a[j]@ == b[j]@,
            decreases a.len() - i,
        {
            if !(a[i].key == b[i].key && a[i].value == b[i].value) {
                assert(a.deep_view()[i as int] != b.deep_view()[i as int]);
                return false;
            }
            i += 1;
        }
        assert(a.deep_view() =~= b.deep_view());
        true
    }
}

impl PartialEqSpecImpl for Tags {
    open spec fn obeys_eq_spec() -> bool {
        true
    }

    open spec fn eq_spec(&self, other: &Self) -> bool {
        self@ == other@
    }
}

/// A copy of optional tags.
pub fn copy_opt_tags(a: &Option<Tags>) -> (copy: Option<Tags>)
    ensures
        copy.deep_view() == a.deep_view(),
{
    match a {
        Some(tags) => Some(tags.clone()),
        None => None,
    }
}

/// The value fixed for a resolved attribute.
#[derive(Debug)]
#[allow(inconsistent_fields)]
pub enum Value {
    Int { value: i64 },
    Double { value: Double },
    String { value: String },
}

/// The view of a [`Value`].
#[allow(inconsistent_fields)]
pub enum ValueView {
    Int { value: i64 },
    Double { value: Double },
    String { value: Seq<char> },
}

impl View for Value {
    type V = ValueView;

    open spec fn view(&self) -> ValueView {
        match self {
            Value::Int { value } => ValueView::Int { value: *value },
            Value::Double { value } => ValueView::Double { value: *value },
            Value::String { value } => ValueView::String { value: value@ },
        }
    }
}

impl DeepView for Value {
    type V = ValueView;

    open spec fn deep_view(&self) -> ValueView {
        self@
    }
}

impl Clone for Value {
    fn clone(&self) -> (copy: Self)
        ensures
            copy@ == self@,
    {
        match self {
            Value::Int { value } => Value::Int { value: *value },
            Value::Double { value } => Value::Double { value: *value },
            Value::String { value } => Value::String { value: value.clone() },
        }
    }
}

impl PartialEq for Value {
    fn eq(&self, other: &Self) -> (same: bool) {
        match (self, other) {
            (Value::Int { value: a }, Value::Int { value: b }) => *a == *b,
            (Value::Double { value: a }, Value::Double { value: b }) => a.bits == b.bits,
            (Value::String { value: a }, Value::String { value: b }) => *a == *b,
            _ => false,
        }
    }
}

impl PartialEqSpecImpl for Value {
    open spec fn obeys_eq_spec() -> bool {
        true
    }

    open spec fn eq_spec(&self, other: &Self) -> bool {
        self@ == other@
    }
}

/// A copy of an optional value.
pub fn copy_opt_value(a: &Option<Value>) -> (copy: Option<Value>)
    ensures
        copy.deep_view() == a.deep_view(),
{
    match a {
        Some(value) => Some(value.clone()),
        None => None,
    }
}

/// The resolved value that stands for the value of an enumeration member.
pub open spec fn resolved_value(value: ValueSpecView) -> ValueView {
    match value {
        ValueSpecView::Int(v) => ValueView::Int { value: v },
        ValueSpecView::Double(v) => ValueView::Double { value: v },
        ValueSpecView::String(v) => ValueView::String { value: v },
    }
}

/// Converts the value of a declaration, if there is one, to a resolved value of
/// the same kind and content.
pub fn semconv_to_resolved_value(value: &Option<ValueSpec>) -> (resolved: Option<Value>)
    ensures
        resolved.deep_view() == match value.deep_view() {
            Some(v) => Some(resolved_value(v)),
            None => None,
        },
{
    match value {
        Some(ValueSpec::String(s)) => Some(Value::String { value: s.clone() }),
        Some(ValueSpec::Int(i)) => Some(Value::Int { value: *i }),
        Some(ValueSpec::Double(d)) => Some(Value::Double { value: *d }),
        None => None,
    }
}

/// A fully resolved attribute.
#[derive(Debug)]
pub struct Attribute {
    pub name: String,
    pub attr_type: AttributeType,
    pub brief: String,
    pub examples: Option<Examples>,
    pub tag: Option<String>,
    pub requirement_level: RequirementLevel,
    pub sampling_relevant: Option<bool>,
    pub note: String,
    pub stability: Option<Stability>,
    pub deprecated: Option<String>,
    pub tags: Option<Tags>,
    pub value: Option<Value>,
}

/// The view of a resolved [`Attribute`]. Two resolved attributes are the same
/// attribute exactly when their views are equal, field by field.
pub struct AttributeView {
    pub name: Seq<char>,
    pub attr_type: AttributeTypeView,
    pub brief: Seq<char>,
    pub examples: Option<ExamplesView>,
    pub tag: Option<Seq<char>>,
    pub requirement_level: RequirementLevelView,
    pub sampling_relevant: Option<bool>,
    pub note: Seq<char>,
    pub stability: Option<Stability>,
    pub deprecated: Option<Seq<char>>,
    pub tags: Option<Seq<(Seq<char>, Seq<char>)>>,
    pub value: Option<ValueView>,
}

impl View for Attribute {
    type V = AttributeView;

    open spec fn view(&self) -> AttributeView {
        AttributeView {
            name: self.name@,
            attr_type: self.attr_type@,
            brief: self.brief@,
            examples: self.examples.deep_view(),
            tag: self.tag.deep_view(),
            requirement_level: self.requirement_level@,
            sampling_relevant: self.sampling_relevant,
            note: self.note@,
            stability: self.stability,
            deprecated: self.deprecated.deep_view(),
            tags: self.tags.deep_view(),
            value: self.value.deep_view(),
        }
    }
}

impl DeepView for Attribute {
    type V = AttributeView;

    open spec fn deep_view(&self) -> AttributeView {
        self@
    }
}

impl Clone for Attribute {
    fn clone(&self) -> (copy: Self)
        ensures
            copy@ == self@,
    {
        Attribute {
            name: self.name.clone(),
            attr_type: self.attr_type.clone(),
            brief: self.brief.clone(),
            examples: copy_opt_examples(&self.examples),
            tag: copy_opt_text(&self.tag),
            requirement_level: self.requirement_level.clone(),
            sampling_relevant: self.sampling_relevant,
            note: self.note.clone(),
            stability: self.stability,
            deprecated: copy_opt_text(&self.deprecated),
            tags: copy_opt_tags(&self.tags),
            value: copy_opt_value(&self.value),
        }
    }
}

impl PartialEq for Attribute {
    fn eq(&self, other: &Self) -> (same: bool) {
        self.name == other.name && self.attr_type == other.attr_type && self.brief == other.brief
            && same_opt_examples(&self.examples, &other.examples) && same_opt_text(
            &self.tag,
            &other.tag,
        ) && self.requirement_level == other.requirement_level && (match (
            self.sampling_relevant,
            other.sampling_relevant,
        ) {
            (None, None) => true,
            (Some(a), Some(b)) => a == b,
            _ => false,
        }) && self.note == other.note && (match (self.stability, other.stability) {
            (None, None) => true,
            (Some(a), Some(b)) => a == b,
            _ => false,
        }) && same_opt_text(&self.deprecated, &other.deprecated) && (match (
            &self.tags,
            &other.tags,
        ) {
            (None, None) => true,
            (Some(a), Some(b)) => *a == *b,
            _ => false,
        }) && (match (&self.value, &other.value) {
            (None, None) => true,
            (Some(a), Some(b)) => *a == *b,
            _ => false,
        })
    }
}

impl PartialEqSpecImpl for Attribute {
    open spec fn obeys_eq_spec() -> bool {
        true
    }

    open spec fn eq_spec(&self, other: &Self) -> bool {
        self@ == other@
    }
}

} // verus!
