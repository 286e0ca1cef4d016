//! Formatting values shared by the style's rendering elements and the
//! output buffer.

use vstd::prelude::*;

verus! {

/// Font style.
#[derive(Copy, Clone, Debug, PartialEq, Eq, Structural, Hash)]
pub enum FontStyle {
    Normal,
    Italic,
}

/// Font variant.
#[derive(Copy, Clone, Debug, PartialEq, Eq, Structural, Hash)]
pub enum FontVariant {
    Normal,
    SmallCaps,
}

/// Font weight.
#[derive(Copy, Clone, Debug, PartialEq, Eq, Structural, Hash)]
pub enum FontWeight {
    Normal,
    Bold,
    Light,
}

/// Text decoration.
#[derive(Copy, Clone, Debug, PartialEq, Eq, Structural, Hash)]
pub enum TextDecoration {
    NoDecoration,
    Underline,
}

/// Vertical alignment.
#[derive(Copy, Clone, Debug, PartialEq, Eq, Structural, Hash)]
pub enum VerticalAlign {
    NoAlign,
    Baseline,
    Sup,
    Sub,
}

/// Formatting flags; an unset field inherits from the surrounding scope.
#[derive(Copy, Clone, Debug, PartialEq, Eq, Structural, Hash)]
pub struct Formatting {
    pub font_style: Option<FontStyle>,
    pub font_variant: Option<FontVariant>,
    pub font_weight: Option<FontWeight>,
    pub text_decoration: Option<TextDecoration>,
    pub vertical_align: Option<VerticalAlign>,
}

/// The field of `child` where it is set, else the field of `base`.
pub open spec fn or_else<A>(child: Option<A>, base: Option<A>) -> Option<A> {
    if child is Some { child } else { base }
}

/// `child` merged over `base`: the child's set fields win.
pub open spec fn formatting_applied(child: Formatting, base: Formatting) -> Formatting {
    Formatting {
        font_style: or_else(child.font_style, base.font_style),
        font_variant: or_else(child.font_variant, base.font_variant),
        font_weight: or_else(child.font_weight, base.font_weight),
        text_decoration: or_else(child.text_decoration, base.text_decoration),
        vertical_align: or_else(child.vertical_align, base.vertical_align),
    }
}

/// Whether no field of the formatting is set.
pub open spec fn formatting_is_empty(f: Formatting) -> bool {
    f.font_style is None && f.font_variant is None && f.font_weight is None
        && f.text_decoration is None && f.vertical_align is None
}

fn pick<A: Copy>(child: Option<A>, base: Option<A>) -> (r: Option<A>)
    ensures
        r == or_else(child, base),
{
    match child {
        Some(c) => Some(c),
        None => base,
    }
}

impl Formatting {
    /// The formatting with no field set.
    pub fn plain() -> (r: Formatting)
        ensures
            formatting_is_empty(r),
    {
        Formatting {
            font_style: None,
            font_variant: None,
            font_weight: None,
            text_decoration: None,
            vertical_align: None,
        }
    }

    /// Whether no field is set.
    pub fn is_empty(&self) -> (r: bool)
        ensures
            r == formatting_is_empty(*self),
    {
        self.font_style.is_none() && self.font_variant.is_none() && self.font_weight.is_none()
            && self.text_decoration.is_none() && self.vertical_align.is_none()
    }

    /// Merge with a base formatting: fields set here override the base.
    pub fn apply(self, base: Formatting) -> (r: Formatting)
        ensures
            r == formatting_applied(self, base),
    {
        Formatting {
            font_style: pick(self.font_style, base.font_style),
            font_variant: pick(self.font_variant, base.font_variant),
            font_weight: pick(self.font_weight, base.font_weight),
            text_decoration: pick(self.text_decoration, base.text_decoration),
            vertical_align: pick(self.vertical_align, base.vertical_align),
        }
    }
}

/// A case transform, applied to exactly the text written inside its scope.
#[derive(Copy, Clone, Debug, PartialEq, Eq, Structural, Hash)]
pub enum TextCase {
    Uppercase,
    Lowercase,
    TitleCase,
    SentenceCase,
    CapitalizeFirst,
    CapitalizeAll,
}

/// How a committed region is laid out.
#[derive(Copy, Clone, Debug, PartialEq, Eq, Structural, Hash)]
pub enum Display {
    Block,
    LeftMargin,
    RightInline,
    Indent,
}

/// A semantic tag on a committed region, for later passes over the output.
#[derive(Copy, Clone, Debug, PartialEq, Eq, Structural, Hash)]
pub enum ElemMeta {
    Text,
    Number,
    CitationNumber,
    Label,
    Date,
    Names,
}

/// Prefix and suffix, written only around non-empty content.
#[derive(Clone, Debug, PartialEq, Eq)]
pub struct Affixes {
    pub prefix: Vec<char>,
    pub suffix: Vec<char>,
}

impl Affixes {
    /// Affixes that add nothing.
    pub fn none() -> (r: Affixes)
        ensures
            r.prefix@.len() == 0,
            r.suffix@.len() == 0,
    {
        Affixes { prefix: Vec::new(), suffix: Vec::new() }
    }
}

} // verus!
