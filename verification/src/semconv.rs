//! Attribute declarations as they are authored in a semantic convention registry.
//!
//! Every type that owns text has a view in which each `String` is a `Seq<char>` and
//! each `Vec` a `Seq`. Contracts speak of these views, and two values count as the
//! same value exactly when their views are equal.

use crate::text::{
    copy_opt_text, copy_texts, same_bools, same_doubles, same_ints, same_opt_text, same_texts,
    Double,
};
use vstd::prelude::*;
use vstd::std_specs::cmp::PartialEqSpecImpl;

verus! {

/// The primitive and array types an attribute can have.
#[derive(Clone, Copy, Debug, PartialEq, Eq, Hash, Structural)]
pub enum PrimitiveOrArrayTypeSpec {
    Boolean,
    Int,
    Double,
    String,
    Strings,
    Ints,
    Doubles,
    Booleans,
}

/// The types a template attribute can have.
#[derive(Clone, Copy, Debug, PartialEq, Eq, Hash, Structural)]
pub enum TemplateTypeSpec {
    Boolean,
    Int,
    Double,
    String,
    Strings,
    Ints,
    Doubles,
    Booleans,
}

/// The three plain requirement levels.
#[derive(Clone, Copy, Debug, PartialEq, Eq, Hash, Structural)]
pub enum BasicRequirementLevelSpec {
    Required,
    Recommended,
    OptIn,
}

/// How settled an attribute is.
#[derive(Clone, Copy, Debug, PartialEq, Eq, Hash, Structural)]
pub enum Stability {
    Deprecated,
    Experimental,
    Stable,
}

/// The value of one member of an enumeration.
#[derive(Debug)]
pub enum ValueSpec {
    Int(i64),
    Double(Double),
    String(String),
}

/// The view of a [`ValueSpec`].
pub enum ValueSpecView {
    Int(i64),
    Double(Double),
    String(Seq<char>),
}

impl View for ValueSpec {
    type V = ValueSpecView;

    open spec fn view(&self) -> ValueSpecView {
        match self {
            ValueSpec::Int(v) => ValueSpecView::Int(*v),
            ValueSpec::Double(v) => ValueSpecView::Double(*v),
            ValueSpec::String(v) => ValueSpecView::String(v@),
        }
    }
}

impl DeepView for ValueSpec {
    type V = ValueSpecView;

    open spec fn deep_view(&self) -> ValueSpecView {
        self@
    }
}

impl Clone for ValueSpec {
    fn clone(&self) -> (copy: Self)
        ensures
            copy@ == self@,
    {
        match self {
            ValueSpec::Int(v) => ValueSpec::Int(*v),
            ValueSpec::Double(v) => ValueSpec::Double(*v),
            ValueSpec::String(v) => ValueSpec::String(v.clone()),
        }
    }
}

impl PartialEq for ValueSpec {
    fn eq(&self, other: &Self) -> (same: bool) {
        match (self, other) {
            (ValueSpec::Int(a), ValueSpec::Int(b)) => *a == *b,
            (ValueSpec::Double(a), ValueSpec::Double(b)) => a.bits == b.bits,
            (ValueSpec::String(a), ValueSpec::String(b)) => *a == *b,
            _ => false,
        }
    }
}

impl PartialEqSpecImpl for ValueSpec {
    open spec fn obeys_eq_spec() -> bool {
        true
    }

    open spec fn eq_spec(&self, other: &Self) -> bool {
        self@ == other@
    }
}

/// One member of an enumeration type.
#[derive(Debug)]
pub struct EnumEntriesSpec {
    /// The member's identifier.
    pub id: String,
    /// The member's value.
    pub value: ValueSpec,
    /// A short description of the member.
    pub brief: Option<String>,
    /// A longer note on the member.
    pub note: Option<String>,
}

/// The view of an [`EnumEntriesSpec`].
pub struct EnumEntriesSpecView {
    pub id: Seq<char>,
    pub value: ValueSpecView,
    pub brief: Option<Seq<char>>,
    pub note: Option<Seq<char>>,
}

impl View for EnumEntriesSpec {
    type V = EnumEntriesSpecView;

    open spec fn view(&self) -> EnumEntriesSpecView {
        EnumEntriesSpecView {
            id: self.id@,
            value: self.value@,
            brief: self.brief.deep_view(),
            note: self.note.deep_view(),
        }
    }
}

impl DeepView for EnumEntriesSpec {
    type V = EnumEntriesSpecView;

    open spec fn deep_view(&self) -> EnumEntriesSpecView {
        self@
    }
}

impl Clone for EnumEntriesSpec {
    fn clone(&self) -> (copy: Self)
        ensures
            copy@ == self@,
    {
        EnumEntriesSpec {
            id: self.id.clone(),
            value: self.value.clone(),
            brief: copy_opt_text(&self.brief),
            note: copy_opt_text(&self.note),
        }
    }
}

impl PartialEq for EnumEntriesSpec {
    fn eq(&self, other: &Self) -> (same: bool) {
        self.id == other.id && self.value == other.value && same_opt_text(&self.brief, &other.brief)
            && same_opt_text(&self.note, &other.note)
    }
}

impl PartialEqSpecImpl for EnumEntriesSpec {
    open spec fn obeys_eq_spec() -> bool {
        true
    }

    open spec fn eq_spec(&self, other: &Self) -> bool {
        self@ == other@
    }
}

/// Whether two lists of enumeration members are the same.
fn same_members(a: &Vec<EnumEntriesSpec>, b: &Vec<EnumEntriesSpec>) -> (same: bool)
    ensures
        same == (a.deep_view() == b.deep_view()),
{
    if a.len() != b.len() {
        assert(a.deep_view().len() != b.deep_view().len());
        return false;
    }
    let mut i: usize = 0;
    while i < a.len()
        invariant
            a.len() == b.len(),
            i <= a.len(),
            forall|j: int| 0 <= j < i ==> a[j]@ == b[j]@,
        decreases a.len() - i,
    {
        if !(a[i] == b[i]) {
            assert(a.deep_view()[i as int] != b.deep_view()[i as int]);
            return false;
        }
        i += 1;
    }
    assert(a.deep_view() =~= b.deep_view());
    true
}

/// The type of an attribute.
#[derive(Debug)]
pub enum AttributeType {
    /// A primitive or array type.
    PrimitiveOrArray(PrimitiveOrArrayTypeSpec),
    /// A template type.
    Template(TemplateTypeSpec),
    /// An enumeration.
    Enum {
        /// Whether values outside the listed members are allowed.
        allow_custom_values: bool,
        /// The members of the enumeration.
        members: Vec<EnumEntriesSpec>,
    },
}

/// The view of an [`AttributeType`].
pub enum AttributeTypeView {
    PrimitiveOrArray(PrimitiveOrArrayTypeSpec),
    Template(TemplateTypeSpec),
    Enum { allow_custom_values: bool, members: Seq<EnumEntriesSpecView> },
}

impl View for AttributeType {
    type V = AttributeTypeView;

    open spec fn view(&self) -> AttributeTypeView {
        match self {
            AttributeType::PrimitiveOrArray(t) => AttributeTypeView::PrimitiveOrArray(*t),
            AttributeType::Template(t) => AttributeTypeView::Template(*t),
            AttributeType::Enum { allow_custom_values, members } => AttributeTypeView::Enum {
                allow_custom_values: *allow_custom_values,
                members: members.deep_view(),
            },
        }
    }
}

impl DeepView for AttributeType {
    type V = AttributeTypeView;

    open spec fn deep_view(&self) -> AttributeTypeView {
        self@
    }
}

impl Clone for AttributeType {
    fn clone(&self) -> (copy: Self)
        ensures
            copy@ == self@,
    {
        match self {
            AttributeType::PrimitiveOrArray(t) => AttributeType::PrimitiveOrArray(*t),
            AttributeType::Template(t) => AttributeType::Template(*t),
            AttributeType::Enum { allow_custom_values, members } => {
                let copied = members.clone();
                assert(copied.deep_view() =~= members.deep_view());
                AttributeType::Enum { allow_custom_values: *allow_custom_values, members: copied }
            },
        }
    }
}

impl PartialEq for AttributeType {
    fn eq(&self, other: &Self) -> (same: bool) {
        match (self, other) {
            (AttributeType::PrimitiveOrArray(a), AttributeType::PrimitiveOrArray(b)) => *a == *b,
            (AttributeType::Template(a), AttributeType::Template(b)) => *a == *b,
            (
                AttributeType::Enum { allow_custom_values: a, members: x },
                AttributeType::Enum { allow_custom_values: b, members: y },
            ) => *a == *b && same_members(x, y),
            _ => false,
        }
    }
}

impl PartialEqSpecImpl for AttributeType {
    open spec fn obeys_eq_spec() -> bool {
        true
    }

    open spec fn eq_spec(&self, other: &Self) -> bool {
        self@ == other@
    }
}

/// Example values of an attribute.
#[derive(Debug)]
pub enum Examples {
    Bool(bool),
    Int(i64),
    Double(Double),
    String(String),
    Ints(Vec<i64>),
    Doubles(Vec<Double>),
    Bools(Vec<bool>),
    Strings(Vec<String>),
}

/// The view of [`Examples`].
pub enum ExamplesView {
    Bool(bool),
    Int(i64),
    Double(Double),
    String(Seq<char>),
    Ints(Seq<i64>),
    Doubles(Seq<Double>),
    Bools(Seq<bool>),
    Strings(Seq<Seq<char>>),
}

impl View for Examples {
    type V = ExamplesView;

    open spec fn view(&self) -> ExamplesView {
        match self {
            Examples::Bool(v) => ExamplesView::Bool(*v),
            Examples::Int(v) => ExamplesView::Int(*v),
            Examples::Double(v) => ExamplesView::Double(*v),
            Examples::String(v) => ExamplesView::String(v@),
            Examples::Ints(v) => ExamplesView::Ints(v@),
            Examples::Doubles(v) => ExamplesView::Doubles(v@),
            Examples::Bools(v) => ExamplesView::Bools(v@),
            Examples::Strings(v) => ExamplesView::Strings(v.deep_view()),
        }
    }
}

impl DeepView for Examples {
    type V = ExamplesView;

    open spec fn deep_view(&self) -> ExamplesView {
        self@
    }
}

impl Clone for Examples {
    fn clone(&self) -> (copy: Self)
        ensures
            copy@ == self@,
    {
        match self {
            Examples::Bool(v) => Examples::Bool(*v),
            Examples::Int(v) => Examples::Int(*v),
            Examples::Double(v) => Examples::Double(*v),
            Examples::String(v) => Examples::String(v.clone()),
            Examples::Ints(v) => {
                let copied = v.clone();
                assert(copied@ =~= v@);
                Examples::Ints(copied)
            },
            Examples::Doubles(v) => {
                let copied = v.clone();
                assert(copied@ =~= v@);
                Examples::Doubles(copied)
            },
            Examples::Bools(v) => {
                let copied = v.clone();
                assert(copied@ =~= v@);
                Examples::Bools(copied)
            },
            Examples::Strings(v) => Examples::Strings(copy_texts(v)),
        }
    }
}

impl PartialEq for Examples {
    fn eq(&self, other: &Self) -> (same: bool) {
        match (self, other) {
            (Examples::Bool(a), Examples::Bool(b)) => *a == *b,
            (Examples::Int(a), Examples::Int(b)) => *a == *b,
            (Examples::Double(a), Examples::Double(b)) => a.bits == b.bits,
            (Examples::String(a), Examples::String(b)) => *a == *b,
            (Examples::Ints(a), Examples::Ints(b)) => same_ints(a, b),
            (Examples::Doubles(a), Examples::Doubles(b)) => same_doubles(a, b),
            (Examples::Bools(a), Examples::Bools(b)) => same_bools(a, b),
            (Examples::Strings(a), Examples::Strings(b)) => same_texts(a, b),
            _ => false,
        }
    }
}

impl PartialEqSpecImpl for Examples {
    open spec fn obeys_eq_spec() -> bool {
        true
    }

    open spec fn eq_spec(&self, other: &Self) -> bool {
        self@ == other@
    }
}

/// How strongly an attribute is asked for.
#[derive(Debug)]
pub enum RequirementLevel {
    /// One of the plain levels.
    Basic(BasicRequirementLevelSpec),
    /// Required under the condition that the text describes.
    ConditionallyRequired {
        /// The condition.
        text: String,
    },
    /// Recommended under the condition that the text describes.
    Recommended {
        /// The condition.
        text: String,
    },
}

/// The view of a [`RequirementLevel`].
pub enum RequirementLevelView {
    Basic(BasicRequirementLevelSpec),
    ConditionallyRequired { text: Seq<char> },
    Recommended { text: Seq<char> },
}

impl View for RequirementLevel {
    type V = RequirementLevelView;

    open spec fn view(&self) -> RequirementLevelView {
        match self {
            RequirementLevel::Basic(level) => RequirementLevelView::Basic(*level),
            RequirementLevel::ConditionallyRequired { text } => {
                RequirementLevelView::ConditionallyRequired { text: text@ }
            },
            RequirementLevel::Recommended { text } => RequirementLevelView::Recommended {
                text: text@,
            },
        }
    }
}

impl DeepView for RequirementLevel {
    type V = RequirementLevelView;

    open spec fn deep_view(&self) -> RequirementLevelView {
        self@
    }
}

impl Clone for RequirementLevel {
    fn clone(&self) -> (copy: Self)
        ensures
            copy@ == self@,
    {
        match self {
            RequirementLevel::Basic(level) => RequirementLevel::Basic(*level),
            RequirementLevel::ConditionallyRequired { text } => {
                RequirementLevel::ConditionallyRequired { text: text.clone() }
            },
            RequirementLevel::Recommended { text } => RequirementLevel::Recommended {
                text: text.clone(),
            },
        }
    }
}

impl PartialEq for RequirementLevel {
    fn eq(&self, other: &Self) -> (same: bool) {
        match (self, other) {
            (RequirementLevel::Basic(a), RequirementLevel::Basic(b)) => *a == *b,
            (
                RequirementLevel::ConditionallyRequired { text: a },
                RequirementLevel::ConditionallyRequired { text: b },
            ) => *a == *b,
            (RequirementLevel::Recommended { text: a }, RequirementLevel::Recommended { text: b }) => {
                *a == *b
            },
            _ => false,
        }
    }
}

impl PartialEqSpecImpl for RequirementLevel {
    open spec fn obeys_eq_spec() -> bool {
        true
    }

    open spec fn eq_spec(&self, other: &Self) -> bool {
        self@ == other@
    }
}

/// A copy of optional examples.
pub fn copy_opt_examples(a: &Option<Examples>) -> (copy: Option<Examples>)
    ensures
        copy.deep_view() == a.deep_view(),
{
    match a {
        Some(examples) => Some(examples.clone()),
        None => None,
    }
}

/// Whether two optional examples are the same.
pub fn same_opt_examples(a: &Option<Examples>, b: &Option<Examples>) -> (same: bool)
    ensures
        same == (a.deep_view() == b.deep_view()),
{
    match (a, b) {
        (None, None) => true,
        (Some(x), Some(y)) => *x == *y,
        _ => false,
    }
}

/// An attribute as a registry declares it: in full, or as an override of an
/// attribute that is declared in full elsewhere.
#[derive(Debug, PartialEq)]
#[allow(inconsistent_fields)]
pub enum AttributeSpec {
    /// A reference to an attribute declared elsewhere. Every field that is set
    /// overrides the field of that attribute; every field left unset inherits it.
    Ref {
        /// The name of the attribute referred to.
        target: String,
        brief: Option<String>,
        examples: Option<Examples>,
        tag: Option<String>,
        requirement_level: Option<RequirementLevel>,
        sampling_relevant: Option<bool>,
        note: Option<String>,
        stability: Option<Stability>,
        deprecated: Option<String>,
    },
    /// A complete declaration.
    Id {
        /// The name of the attribute.
        id: String,
        attr_type: AttributeType,
        brief: Option<String>,
        examples: Option<Examples>,
        tag: Option<String>,
        requirement_level: RequirementLevel,
        sampling_relevant: Option<bool>,
        note: String,
        stability: Option<Stability>,
        deprecated: Option<String>,
    },
}

/// The view of an [`AttributeSpec`].
#[allow(inconsistent_fields)]
pub enum AttributeSpecView {
    Ref {
        target: Seq<char>,
        brief: Option<Seq<char>>,
        examples: Option<ExamplesView>,
        tag: Option<Seq<char>>,
        requirement_level: Option<RequirementLevelView>,
        sampling_relevant: Option<bool>,
        note: Option<Seq<char>>,
        stability: Option<Stability>,
        deprecated: Option<Seq<char>>,
    },
    Id {
        id: Seq<char>,
        attr_type: AttributeTypeView,
        brief: Option<Seq<char>>,
        examples: Option<ExamplesView>,
        tag: Option<Seq<char>>,
        requirement_level: RequirementLevelView,
        sampling_relevant: Option<bool>,
        note: Seq<char>,
        stability: Option<Stability>,
        deprecated: Option<Seq<char>>,
    },
}

impl View for AttributeSpec {
    type V = AttributeSpecView;

    open spec fn view(&self) -> AttributeSpecView {
        match self {
            AttributeSpec::Ref {
                target,
                brief,
                examples,
                tag,
                requirement_level,
                sampling_relevant,
                note,
                stability,
                deprecated,
            } => AttributeSpecView::Ref {
                target: target@,
                brief: brief.deep_view(),
                examples: examples.deep_view(),
                tag: tag.deep_view(),
                requirement_level: requirement_level.deep_view(),
                sampling_relevant: *sampling_relevant,
                note: note.deep_view(),
                stability: *stability,
                deprecated: deprecated.deep_view(),
            },
            AttributeSpec::Id {
                id,
                attr_type,
                brief,
                examples,
                tag,
                requirement_level,
                sampling_relevant,
                note,
                stability,
                deprecated,
            } => AttributeSpecView::Id {
                id: id@,
                attr_type: attr_type@,
                brief: brief.deep_view(),
                examples: examples.deep_view(),
                tag: tag.deep_view(),
                requirement_level: requirement_level@,
                sampling_relevant: *sampling_relevant,
                note: note@,
                stability: *stability,
                deprecated: deprecated.deep_view(),
            },
        }
    }
}

impl DeepView for AttributeSpec {
    type V = AttributeSpecView;

    open spec fn deep_view(&self) -> AttributeSpecView {
        self@
    }
}

impl Clone for AttributeSpec {
    fn clone(&self) -> (copy: Self)
        ensures
            copy@ == self@,
    {
        match self {
            AttributeSpec::Ref {
                target,
                brief,
                examples,
                tag,
                requirement_level,
                sampling_relevant,
                note,
                stability,
                deprecated,
            } => AttributeSpec::Ref {
                target: target.clone(),
                brief: copy_opt_text(brief),
                examples: copy_opt_examples(examples),
                tag: copy_opt_text(tag),
                requirement_level: match requirement_level {
                    Some(level) => Some(level.clone()),
                    None => None,
                },
                sampling_relevant: *sampling_relevant,
                note: copy_opt_text(note),
                stability: *stability,
                deprecated: copy_opt_text(deprecated),
            },
            AttributeSpec::Id {
                id,
                attr_type,
                brief,
                examples,
                tag,
                requirement_level,
                sampling_relevant,
                note,
                stability,
                deprecated,
            } => AttributeSpec::Id {
                id: id.clone(),
                attr_type: attr_type.clone(),
                brief: copy_opt_text(brief),
                examples: copy_opt_examples(examples),
                tag: copy_opt_text(tag),
                requirement_level: requirement_level.clone(),
                sampling_relevant: *sampling_relevant,
                note: note.clone(),
                stability: *stability,
                deprecated: copy_opt_text(deprecated),
            },
        }
    }
}

} // verus!
