//! Attribute rendering: the lines of text that list the attributes of a group.

use crate::semconv::{
    AttributeSpec, AttributeSpecView, AttributeType, AttributeTypeView, BasicRequirementLevelSpec,
    EnumEntriesSpec, EnumEntriesSpecView, PrimitiveOrArrayTypeSpec, RequirementLevel,
    RequirementLevelView, TemplateTypeSpec,
};
use vstd::prelude::*;
use vstd::string::StringExecFns;

verus! {

/// How a line of text is to be shown.
#[derive(Clone, Copy, Debug, PartialEq, Eq, Hash, Structural)]
pub enum LineStyle {
    /// In the colour that the theme has for labels.
    Label,
    /// Without any styling.
    Raw,
}

/// A line of text with its style.
#[derive(Debug, PartialEq)]
pub struct TextLine {
    pub content: String,
    pub style: LineStyle,
}

/// The view of a [`TextLine`].
pub struct TextLineView {
    pub content: Seq<char>,
    pub style: LineStyle,
}

impl View for TextLine {
    type V = TextLineView;

    open spec fn view(&self) -> TextLineView {
        TextLineView { content: self.content@, style: self.style }
    }
}

impl DeepView for TextLine {
    type V = TextLineView;

    open spec fn deep_view(&self) -> TextLineView {
        self@
    }
}

/// The texts of `parts` in their order, with `separator` between each two.
pub open spec fn joined(parts: Seq<Seq<char>>, separator: Seq<char>) -> Seq<char>
    decreases parts.len(),
{
    if parts.len() == 0 {
        Seq::empty()
    } else if parts.len() == 1 {
        parts[0]
    } else {
        joined(parts.drop_last(), separator) + separator + parts.last()
    }
}

/// The text of a primitive or array type.
pub open spec fn primitive_text(t: PrimitiveOrArrayTypeSpec) -> Seq<char> {
    match t {
        PrimitiveOrArrayTypeSpec::Boolean => "boolean"@,
        PrimitiveOrArrayTypeSpec::Int => "int"@,
        PrimitiveOrArrayTypeSpec::Double => "double"@,
        PrimitiveOrArrayTypeSpec::String => "string"@,
        PrimitiveOrArrayTypeSpec::Strings => "string[]"@,
        PrimitiveOrArrayTypeSpec::Ints => "int[]"@,
        PrimitiveOrArrayTypeSpec::Doubles => "double[]"@,
        PrimitiveOrArrayTypeSpec::Booleans => "boolean[]"@,
    }
}

/// The text of a template type.
pub open spec fn template_text(t: TemplateTypeSpec) -> Seq<char> {
    match t {
        TemplateTypeSpec::Boolean => "template[boolean]"@,
        TemplateTypeSpec::Int => "template[int]"@,
        TemplateTypeSpec::Double => "template[double]"@,
        TemplateTypeSpec::String => "template[string]"@,
        TemplateTypeSpec::Strings => "template[string[]]"@,
        TemplateTypeSpec::Ints => "template[int[]]"@,
        TemplateTypeSpec::Doubles => "template[double[]]"@,
        TemplateTypeSpec::Booleans => "template[boolean[]]"@,
    }
}

/// The text of an attribute type. An enumeration is shown by the identifiers of
/// its members, separated by commas and enclosed in braces.
pub open spec fn type_text(t: AttributeTypeView) -> Seq<char> {
    match t {
        AttributeTypeView::PrimitiveOrArray(primitive) => primitive_text(primitive),
        AttributeTypeView::Template(template) => template_text(template),
        AttributeTypeView::Enum { members, .. } => "enum {"@ + joined(
            members.map_values(|member: EnumEntriesSpecView| member.id),
            ", "@,
        ) + "}"@,
    }
}

/// The line that lists an attribute declared in full: a dash, the name, and in
/// parentheses the type and, where the attribute is required, the word for that.
pub open spec fn attribute_line(
    id: Seq<char>,
    attr_type: AttributeTypeView,
    requirement_level: RequirementLevelView,
) -> Seq<char> {
    let required = requirement_level == RequirementLevelView::Basic(
        BasicRequirementLevelSpec::Required,
    );
    "- "@ + id + " (type="@ + type_text(attr_type) + (if required {
        ", required"@
    } else {
        Seq::empty()
    }) + ")"@
}

/// The line for one declaration, if it gets one: only a declaration in full does.
pub open spec fn line_of(decl: AttributeSpecView) -> Option<TextLineView> {
    match decl {
        AttributeSpecView::Id { id, attr_type, requirement_level, .. } => Some(
            TextLineView {
                content: attribute_line(id, attr_type, requirement_level),
                style: LineStyle::Raw,
            },
        ),
        AttributeSpecView::Ref { .. } => None,
    }
}

/// The lines that list `attributes`: none where there are no attributes; else a
/// label line, and one line for each declaration in full, in their order.
pub open spec fn attribute_lines(attributes: Seq<AttributeSpecView>) -> Seq<TextLineView> {
    if attributes.len() == 0 {
        Seq::empty()
    } else {
        seq![TextLineView { content: "Attributes: "@, style: LineStyle::Label }]
            + attributes.filter_map(|decl: AttributeSpecView| line_of(decl))
    }
}

/// The text of the identifiers of `members`, separated by commas.
fn member_ids(members: &Vec<EnumEntriesSpec>) -> (text: String)
    ensures
        text@ == joined(
            members.deep_view().map_values(|member: EnumEntriesSpecView| member.id),
            ", "@,
        ),
{
    let ghost ids = members.deep_view().map_values(|member: EnumEntriesSpecView| member.id);
    let mut text = String::new();
    let mut i: usize = 0;
    proof {
        assert(ids.take(0) =~= Seq::<Seq<char>>::empty());
    }
    while i < members.len()
        invariant
            i <= members.len(),
            ids == members.deep_view().map_values(|member: EnumEntriesSpecView| member.id),
            text@ == joined(ids.take(i as int), ", "@),
        decreases members.len() - i,
    {
        proof {
            assert(ids.take(i + 1).drop_last() =~= ids.take(i as int));
            assert(ids.take(i + 1).last() == members[i as int].id@);
            if i == 0 {
                assert(text@ + members[i as int].id@ =~= members[i as int].id@);
            }
        }
        if i > 0 {
            text.append(", ");
        }
        text.append(members[i].id.as_str());
        i += 1;
    }
    proof {
        assert(ids.take(i as int) =~= ids);
    }
    text
}

/// The text of an attribute type.
pub fn attribute_type_text(attr_type: &AttributeType) -> (text: String)
    ensures
        text@ == type_text(attr_type@),
{
    match attr_type {
        AttributeType::PrimitiveOrArray(primitive) => match primitive {
            PrimitiveOrArrayTypeSpec::Boolean => "boolean".to_owned(),
            PrimitiveOrArrayTypeSpec::Int => "int".to_owned(),
            PrimitiveOrArrayTypeSpec::Double => "double".to_owned(),
            PrimitiveOrArrayTypeSpec::String => "string".to_owned(),
            PrimitiveOrArrayTypeSpec::Strings => "string[]".to_owned(),
            PrimitiveOrArrayTypeSpec::Ints => "int[]".to_owned(),
            PrimitiveOrArrayTypeSpec::Doubles => "double[]".to_owned(),
            PrimitiveOrArrayTypeSpec::Booleans => "boolean[]".to_owned(),
        },
        AttributeType::Template(template) => match template {
            TemplateTypeSpec::Boolean => "template[boolean]".to_owned(),
            TemplateTypeSpec::Int => "template[int]".to_owned(),
            TemplateTypeSpec::Double => "template[double]".to_owned(),
            TemplateTypeSpec::String => "template[string]".to_owned(),
            TemplateTypeSpec::Strings => "template[string[]]".to_owned(),
            TemplateTypeSpec::Ints => "template[int[]]".to_owned(),
            TemplateTypeSpec::Doubles => "template[double[]]".to_owned(),
            TemplateTypeSpec::Booleans => "template[boolean[]]".to_owned(),
        },
        AttributeType::Enum { members, .. } => {
            let mut text = "enum {".to_owned();
            let ids = member_ids(members);
            text.append(ids.as_str());
            text.append("}");
            text
        },
    }
}

/// Append attributes to the text.
pub fn append_lines(attributes: &[AttributeSpec], text: &mut Vec<TextLine>)
    ensures
        final(text).deep_view() == old(text).deep_view() + attribute_lines(attributes.deep_view()),
{
    let ghost decls = attributes.deep_view();
    let ghost before = text.deep_view();
    let ghost line = |decl: AttributeSpecView| line_of(decl);
    if attributes.len() != 0 {
        text.push(TextLine { content: "Attributes: ".to_owned(), style: LineStyle::Label });
        let ghost label = TextLineView { content: "Attributes: "@, style: LineStyle::Label };
        proof {
            assert(decls.take(0) =~= Seq::<AttributeSpecView>::empty());
            assert(text.deep_view() =~= before + seq![label] + decls.take(0).filter_map(line));
        }
        let mut i: usize = 0;
        while i < attributes.len()
            invariant
                decls == attributes.deep_view(),
                line == |decl: AttributeSpecView| line_of(decl),
                i <= attributes.len(),
                text.deep_view() == before + seq![label] + decls.take(i as int).filter_map(line),
            decreases attributes.len() - i,
        {
            let ghost shown = text.deep_view();
            proof {
                assert(decls.take(i + 1).drop_last() =~= decls.take(i as int));
                assert(decls.take(i + 1).last() == attributes[i as int]@);
            }
            if let AttributeSpec::Id { id, attr_type, requirement_level, .. } = &attributes[i] {
                let mut content = "- ".to_owned();
                content.append(id.as_str());
                content.append(" (type=");
                let type_text = attribute_type_text(attr_type);
                content.append(type_text.as_str());
                if let RequirementLevel::Basic(BasicRequirementLevelSpec::Required) =
                    requirement_level {
                    content.append(", required");
                } else {
                    assert(content@ + Seq::<char>::empty() =~= content@);
                }
                content.append(")");
                let rendered = TextLine { content, style: LineStyle::Raw };
                assert(Some(rendered@) == line_of(attributes[i as int]@));
                text.push(rendered);
                proof {
                    assert(text.deep_view() =~= shown.push(rendered@));
                    assert(shown.push(rendered@) =~= before + seq![label] + (decls.take(
                        i as int,
                    ).filter_map(line) + seq![rendered@]));
                }
            }
            i += 1;
        }
        proof {
            assert(decls.take(i as int) =~= decls);
            assert(before + seq![label] + decls.filter_map(line) =~= before + (seq![label]
                + decls.filter_map(line)));
        }
    } else {
        assert(text.deep_view() =~= before + attribute_lines(decls));
    }
}

} // verus!
