//! The rich-document node vocabulary produced by the editor, and the
//! mapping from its marks and alignment attributes to the printer's
//! style state.  Parsing the editor's JSON happens outside this crate;
//! the logic here works on these plain values.

use vstd::prelude::*;

use crate::builder::PrintBuilder;
use crate::elements::{Justify, TextDecoration};
use crate::strutil::str_eq;

verus! {

/// The node types of the editor document tree.
#[derive(Clone, Copy, Debug, PartialEq, Eq, Hash, Structural)]
pub enum NodeType {
    /// The root document node
    Doc,
    /// A paragraph block
    Paragraph,
    /// Inline text content
    Text,
    /// Heading levels 1-4
    Heading,
    /// An unordered (bullet) list
    BulletList,
    /// An ordered (numbered) list
    OrderedList,
    /// A list item within bulletList or orderedList
    ListItem,
    /// A fenced code block
    CodeBlock,
    /// A hard line break
    HardBreak,
    /// A horizontal rule/divider
    HorizontalRule,
    /// A task/checkbox list
    TaskList,
    /// An item within a taskList
    TaskItem,
}

/// Mark types applied to inline content.
#[derive(Clone, Copy, Debug, PartialEq, Eq, Hash, Structural)]
pub enum MarkType {
    /// Bold text
    Bold,
    /// Italic text, rendered as underline on the device
    Italic,
    /// Inline code
    Code,
    /// Strikethrough, rendered by wrapping with dashes
    Strike,
}

/// Text alignment of a paragraph or heading.
#[derive(Clone, Copy, Debug, PartialEq, Eq, Hash, Structural)]
pub enum TextAlign {
    Left,
    Center,
    Right,
}

impl Default for TextAlign {
    fn default() -> (r: Self)
        ensures
            r == TextAlign::Left,
    {
        TextAlign::Left
    }
}

impl TextAlign {
    /// The alignment named by an attribute value: anything but "center"
    /// and "right" is the default.
    pub fn from_value(value: &str) -> (r: Self)
        ensures
            r == (if value@ == "center"@ {
                TextAlign::Center
            } else if value@ == "right"@ {
                TextAlign::Right
            } else {
                TextAlign::Left
            }),
    {
        if str_eq(value, "center") {
            TextAlign::Center
        } else if str_eq(value, "right") {
            TextAlign::Right
        } else {
            TextAlign::Left
        }
    }
}

/// The numbering style of an ordered list.
#[derive(Clone, Copy, Debug, PartialEq, Eq, Hash, Structural)]
pub enum OrderedListType {
    LowerCaseLetter,
    UpperCaseLetter,
    LowerCaseRoman,
    UpperCaseRoman,
    Number,
}

impl Default for OrderedListType {
    fn default() -> (r: Self)
        ensures
            r == OrderedListType::Number,
    {
        OrderedListType::Number
    }
}

impl OrderedListType {
    /// The numbering style named by an attribute value: anything but
    /// "a", "A", "i" and "I" numbers.
    pub fn from_value(value: &str) -> (r: Self)
        ensures
            r == (if value@ == "a"@ {
                OrderedListType::LowerCaseLetter
            } else if value@ == "A"@ {
                OrderedListType::UpperCaseLetter
            } else if value@ == "i"@ {
                OrderedListType::LowerCaseRoman
            } else if value@ == "I"@ {
                OrderedListType::UpperCaseRoman
            } else {
                OrderedListType::Number
            }),
    {
        if str_eq(value, "a") {
            OrderedListType::LowerCaseLetter
        } else if str_eq(value, "A") {
            OrderedListType::UpperCaseLetter
        } else if str_eq(value, "i") {
            OrderedListType::LowerCaseRoman
        } else if str_eq(value, "I") {
            OrderedListType::UpperCaseRoman
        } else {
            OrderedListType::Number
        }
    }
}

/// A mark applied to inline content.
#[derive(Clone, Copy, Debug, PartialEq, Eq, Structural)]
pub struct Mark {
    /// The type of the mark
    pub mark_type: MarkType,
}

/// One mark folded into a decoration: italic has no device support and
/// sets underline instead; strikethrough is rendered separately by
/// wrapping with dashes and leaves the decoration alone.
pub open spec fn apply_mark(d: TextDecoration, m: MarkType) -> TextDecoration {
    match m {
        MarkType::Bold => TextDecoration { bold: true, ..d },
        MarkType::Italic => TextDecoration { underline: true, ..d },
        MarkType::Code => TextDecoration { bold: true, underline: true, ..d },
        MarkType::Strike => d,
    }
}

/// All marks folded into a decoration, in order.
pub open spec fn deco_of_marks(d: TextDecoration, ms: Seq<Mark>) -> TextDecoration
    decreases ms.len(),
{
    if ms.len() == 0 {
        d
    } else {
        deco_of_marks(apply_mark(d, ms[0].mark_type), ms.skip(1))
    }
}

/// Whether a mark run contains strikethrough.
pub open spec fn has_strike(ms: Seq<Mark>) -> bool {
    exists|j: int| 0 <= j < ms.len() && ms[j].mark_type == MarkType::Strike
}

/// The mark sequence an optional mark list stands for.
pub open spec fn marks_seq(marks: Option<&Vec<Mark>>) -> Seq<Mark> {
    match marks {
        None => Seq::empty(),
        Some(v) => v@,
    }
}

/// Convert a textAlign attribute value to a Justify mode.
pub fn text_align_to_justify(align: Option<&str>) -> (r: Justify)
    ensures
        r == (match align {
            Some(a) => if a@ == "center"@ {
                Justify::Center
            } else if a@ == "right"@ {
                Justify::Right
            } else {
                Justify::Left
            },
            None => Justify::Left,
        }),
{
    match align {
        Some(a) => {
            if str_eq(a, "center") {
                Justify::Center
            } else if str_eq(a, "right") {
                Justify::Right
            } else {
                Justify::Left
            }
        },
        None => Justify::Left,
    }
}

/// Renders editor document content through a layout builder.
pub struct TipTapJsonAdapter {
    pub builder: PrintBuilder,
}

impl TipTapJsonAdapter {
    /// Wrap a layout builder for rendering.
    pub fn new(builder: PrintBuilder) -> (r: Self)
        ensures
            r.builder == builder,
    {
        TipTapJsonAdapter { builder }
    }

    /// Convert marks to a text decoration.
    pub fn marks_to_decoration(&self, marks: Option<&Vec<Mark>>) -> (r: TextDecoration)
        ensures
            r == deco_of_marks(
                TextDecoration { bold: false, underline: false, italic: false },
                marks_seq(marks),
            ),
    {
        Self::marks_to_decoration_static(marks)
    }

    /// Convert marks to a text decoration, without an adapter at hand.
    pub fn marks_to_decoration_static(marks: Option<&Vec<Mark>>) -> (r: TextDecoration)
        ensures
            r == deco_of_marks(
                TextDecoration { bold: false, underline: false, italic: false },
                marks_seq(marks),
            ),
    {
        let mut decoration = TextDecoration { bold: false, underline: false, italic: false };
        let ghost ms = marks_seq(marks);
        proof {
            assert(ms.skip(0) =~= ms);
        }
        if let Some(marks) = marks {
            let mut i: usize = 0;
            while i < marks.len()
                invariant
                    0 <= i <= ms.len(),
                    marks@ == ms,
                    deco_of_marks(decoration, ms.skip(i as int)) == deco_of_marks(
                        TextDecoration { bold: false, underline: false, italic: false },
                        ms,
                    ),
                decreases ms.len() - i,
            {
                let mark = &marks[i];
                proof {
                    assert(ms.skip(i as int)[0] == ms[i as int]);
                    assert(ms.skip(i as int).skip(1) =~= ms.skip(i + 1));
                }
                match mark.mark_type {
                    MarkType::Bold => {
                        decoration.bold = true;
                    },
                    MarkType::Italic => {
                        decoration.underline = true;
                    },
                    MarkType::Code => {
                        decoration.bold = true;
                        decoration.underline = true;
                    },
                    MarkType::Strike => {},
                }
                i = i + 1;
            }
            proof {
                assert(ms.skip(ms.len() as int) =~= Seq::<Mark>::empty());
            }
        }
        decoration
    }

    /// Whether the marks contain strikethrough.
    pub fn has_strikethrough_mark(&self, marks: Option<&Vec<Mark>>) -> (r: bool)
        ensures
            r == has_strike(marks_seq(marks)),
    {
        Self::has_strikethrough_mark_static(marks)
    }

    /// Whether the marks contain strikethrough, without an adapter at hand.
    pub fn has_strikethrough_mark_static(marks: Option<&Vec<Mark>>) -> (r: bool)
        ensures
            r == has_strike(marks_seq(marks)),
    {
        let ghost ms = marks_seq(marks);
        if let Some(list) = marks {
            let mut i: usize = 0;
            while i < list.len()
                invariant
                    0 <= i <= ms.len(),
                    list@ == ms,
                    ms == marks_seq(marks),
                    forall|j: int| 0 <= j < i ==> ms[j].mark_type != MarkType::Strike,
                decreases ms.len() - i,
            {
                if matches!(list[i].mark_type, MarkType::Strike) {
                    proof {
                        assert(has_strike(ms)) by {
                            assert(0 <= (i as int) && (i as int) < ms.len()
                                && ms[i as int].mark_type == MarkType::Strike);
                        }
                    }
                    return true;
                }
                i = i + 1;
            }
        }
        false
    }
}

/// Renders editor document content through a layout builder, one node
/// vocabulary level down from the JSON adapter.
pub struct TipTapInterpreter {
    pub builder: PrintBuilder,
}

impl TipTapInterpreter {
    /// Wrap a layout builder for rendering.
    pub fn new(builder: PrintBuilder) -> (r: Self)
        ensures
            r.builder == builder,
    {
        TipTapInterpreter { builder }
    }
}

} // verus!
