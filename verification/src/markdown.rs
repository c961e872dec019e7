//! Markdown rendering decisions: the mapping from a parsed markdown
//! event stream to builder mutations.  Parsing itself happens outside
//! this crate; each event of the stream is decided here.

use vstd::prelude::*;

use crate::builder::{
    BuilderView, PrintBuilder, all_printable, bv_add_content, bv_new_line, bv_reset_styles,
    bv_set_decoration, bv_set_justify, bv_set_size, lemma_all_printable, spec_first_invalid,
};
use crate::cp437::{EncodingError, spec_is_cp437, spec_normalize};
use crate::display::spec_heading_style;
use crate::elements::{Justify, TextDecoration, TextSize};
use crate::render::{ListItemBefore, spec_ordinal_label};
use crate::strutil::dec_seq;
use crate::tiptap::OrderedListType;

verus! {

/// A markdown block or inline construct whose start changes the builder
/// state.  `Other` stands for every construct the printer renders as
/// plain text.
#[derive(Clone, Copy, Debug, PartialEq, Eq, Structural)]
pub enum MdTag {
    Paragraph,
    Heading(u8),
    BlockQuote,
    CodeBlock,
    List(Option<u64>),
    Item,
    Strong,
    Other,
}

/// One event of a parsed markdown stream.
#[derive(Debug)]
pub enum MdEvent {
    Start(MdTag),
    End,
    Text(String),
    SoftBreak,
    HardBreak,
    Rule,
    TaskListMarker(bool),
    Other,
}

/// The bold medium decoration used for quoted and strong text.
pub open spec fn bold_decoration() -> TextDecoration {
    TextDecoration { bold: true, underline: false, italic: false }
}

/// The decimal digits of a number are printable.
proof fn lemma_dec_seq_printable(n: int)
    ensures
        all_printable(dec_seq(n)),
    decreases n,
{
    if n < 10 {
        assert forall|j: int| 0 <= j < dec_seq(n).len() implies spec_is_cp437(
            #[trigger] spec_normalize(dec_seq(n)[j]),
        ) by {
            assert(dec_seq(n)[j] == crate::strutil::dec_digit(n));
        }
    } else {
        lemma_dec_seq_printable(n / 10);
        let s = dec_seq(n);
        let prefix = dec_seq(n / 10);
        assert forall|j: int| 0 <= j < s.len() implies spec_is_cp437(
            #[trigger] spec_normalize(s[j]),
        ) by {
            if j < prefix.len() {
                assert(s[j] == prefix[j]);
                assert(spec_is_cp437(spec_normalize(prefix[j])));
            } else {
                assert(s[j] == crate::strutil::dec_digit(n % 10));
            }
        }
    }
}

/// The label a list item is prefixed with: its one-based ordinal and a
/// period for an ordered list, a bullet dot for an unordered one.
pub open spec fn spec_item_prefix(list_index: Option<u64>) -> Seq<char> {
    match list_index {
        Some(i) => spec_ordinal_label(
            if i >= 1 {
                i as int
            } else {
                1
            },
            OrderedListType::Number,
        ) + seq!['.', ' '],
        None => seq!['\u{2219}', ' '],
    }
}

/// An item prefix is printable.
proof fn lemma_item_prefix_printable(list_index: Option<u64>)
    ensures
        spec_first_invalid(spec_item_prefix(list_index)) is None,
{
    let s = spec_item_prefix(list_index);
    match list_index {
        Some(i) => {
            let n: int = if i >= 1 {
                i as int
            } else {
                1
            };
            lemma_dec_seq_printable(n);
            assert forall|j: int| 0 <= j < s.len() implies spec_is_cp437(
                #[trigger] spec_normalize(s[j]),
            ) by {
                if j < dec_seq(n).len() {
                    assert(s[j] == dec_seq(n)[j]);
                    assert(spec_is_cp437(spec_normalize(dec_seq(n)[j])));
                } else if j == dec_seq(n).len() {
                    assert(s[j] == '.');
                } else {
                    assert(s[j] == ' ');
                }
            }
            lemma_all_printable(s);
        },
        None => {
            assert forall|j: int| 0 <= j < s.len() implies spec_is_cp437(
                #[trigger] spec_normalize(s[j]),
            ) by {
                if j == 0 {
                    assert(s[j] == '\u{2219}');
                } else {
                    assert(s[j] == ' ');
                }
            }
            lemma_all_printable(s);
        },
    }
}

/// What starting a tag does to the builder.
pub open spec fn spec_tag_start(b: BuilderView, tag: MdTag, list_index: Option<u64>) -> BuilderView {
    match tag {
        MdTag::Paragraph => bv_reset_styles(b),
        MdTag::Heading(level) => bv_set_decoration(
            bv_set_size(bv_reset_styles(bv_new_line(b)), spec_heading_style(level as int).0),
            spec_heading_style(level as int).1,
        ),
        MdTag::BlockQuote => bv_set_decoration(bv_reset_styles(bv_new_line(b)), bold_decoration()),
        MdTag::CodeBlock => bv_set_decoration(bv_reset_styles(bv_new_line(b)), bold_decoration()),
        MdTag::List(_) => b,
        MdTag::Item => bv_add_content(
            bv_set_decoration(
                bv_set_size(
                    bv_set_justify(bv_reset_styles(bv_new_line(b)), Justify::Left),
                    TextSize::Medium,
                ),
                bold_decoration(),
            ),
            spec_item_prefix(list_index),
        ),
        MdTag::Strong => bv_set_decoration(b, bold_decoration()),
        MdTag::Other => b,
    }
}

/// Renders a markdown event stream through a layout builder, carrying
/// the pending ordinal of the enclosing ordered list.
pub struct MarkdownInterpreter {
    pub builder: PrintBuilder,
    pub list_index: Option<u64>,
}

impl MarkdownInterpreter {
    /// Wrap a layout builder for rendering.
    pub fn new(builder: PrintBuilder) -> (r: Self)
        ensures
            r.builder == builder,
            r.list_index is None,
    {
        MarkdownInterpreter { builder, list_index: None }
    }

    /// Apply the start of a markdown construct to the builder: reset for
    /// a paragraph, style for a heading, bold for quotes, code and
    /// strong text, remember an ordered list's start, and write the
    /// prefix of a list item.
    pub fn handle_tag_start(&mut self, tag: &MdTag) -> (r: Result<(), EncodingError>)
        ensures
            r is Ok,
            final(self).builder@ == spec_tag_start(
                old(self).builder@,
                *tag,
                old(self).list_index,
            ),
            final(self).list_index == (match tag {
                MdTag::List(start) => *start,
                _ => old(self).list_index,
            }),
    {
        match tag {
            MdTag::Paragraph => {
                self.builder.reset_styles();
            },
            MdTag::Heading(level) => {
                let (size, decoration) = crate::display::heading_style(*level);
                self.builder.new_line();
                self.builder.reset_styles();
                self.builder.set_text_size(size);
                self.builder.set_text_decoration(decoration);
            },
            MdTag::BlockQuote | MdTag::CodeBlock => {
                self.builder.new_line();
                self.builder.reset_styles();
                self.builder.set_text_decoration(
                    TextDecoration { bold: true, underline: false, italic: false },
                );
            },
            MdTag::List(ordered_start) => {
                self.list_index = *ordered_start;
            },
            MdTag::Item => {
                let prefix = match self.list_index {
                    Some(i) => {
                        let start = if i >= 1 {
                            i
                        } else {
                            1
                        };
                        ListItemBefore::new_ordered(Some(start), None)
                    },
                    None => ListItemBefore::new_unordered(),
                };
                proof {
                    reveal_strlit("\u{2219} ");
                    assert("\u{2219} "@ =~= seq!['\u{2219}', ' ']);
                    lemma_item_prefix_printable(old(self).list_index);
                }
                self.builder.new_line();
                self.builder.reset_styles();
                self.builder.set_justify_content(Justify::Left);
                self.builder.set_text_size(TextSize::Medium);
                self.builder.set_text_decoration(
                    TextDecoration { bold: true, underline: false, italic: false },
                );
                match self.builder.add_content(prefix.content.as_str()) {
                    Ok(()) => {},
                    Err(e) => {
                        return Err(e);
                    },
                }
            },
            MdTag::Strong => {
                self.builder.set_text_decoration(
                    TextDecoration { bold: true, underline: false, italic: false },
                );
            },
            MdTag::Other => {},
        }
        Ok(())
    }

    /// Apply one markdown event to the builder: text is appended under
    /// the pending style, breaks and construct ends start fresh lines, a
    /// rule prints a divider, and a task marker prints its checkbox.
    pub fn handle_event(&mut self, event: &MdEvent) -> (r: Result<(), EncodingError>)
        ensures
            (match event {
                MdEvent::Text(text) => {
                    &&& r is Ok <==> spec_first_invalid(text@) is None
                    &&& r is Ok ==> final(self).builder@ == bv_add_content(
                        old(self).builder@,
                        text@,
                    )
                },
                MdEvent::Start(tag) => r is Ok && final(self).builder@ == spec_tag_start(
                    old(self).builder@,
                    *tag,
                    old(self).list_index,
                ),
                MdEvent::End | MdEvent::SoftBreak | MdEvent::HardBreak => r is Ok
                    && final(self).builder@ == bv_new_line(old(self).builder@),
                MdEvent::Rule | MdEvent::TaskListMarker(_) | MdEvent::Other => r is Ok,
            }),
            final(self).list_index == (match event {
                MdEvent::Start(MdTag::List(start)) => *start,
                _ => old(self).list_index,
            }),
    {
        match event {
            MdEvent::Start(tag) => self.handle_tag_start(tag),
            MdEvent::End => {
                self.builder.new_line();
                Ok(())
            },
            MdEvent::Text(text) => self.builder.add_content(text.as_str()),
            MdEvent::SoftBreak | MdEvent::HardBreak => {
                self.builder.new_line();
                Ok(())
            },
            MdEvent::Rule => {
                let rule = crate::render::HorizontalRule::new();
                self.builder.new_line();
                self.builder.reset_styles();
                self.builder.set_text_size(rule.format.text_size);
                self.builder.set_text_decoration(rule.format.text_decoration);
                self.builder.set_justify_content(Justify::Center);
                let ghost dashes = rule.content@;
                proof {
                    assert forall|j: int| 0 <= j < dashes.len() implies spec_is_cp437(
                        #[trigger] spec_normalize(dashes[j]),
                    ) by {
                        assert(dashes[j] == '-');
                    }
                    lemma_all_printable(dashes);
                }
                match self.builder.add_content(rule.content.as_str()) {
                    Ok(()) => {},
                    Err(e) => {
                        return Err(e);
                    },
                }
                self.builder.new_line();
                Ok(())
            },
            MdEvent::TaskListMarker(checked) => {
                let before = crate::render::TaskListBefore::new(*checked);
                self.builder.new_line();
                self.builder.reset_styles();
                self.builder.set_text_size(before.format.text_size);
                self.builder.set_text_decoration(before.format.text_decoration);
                let ghost prefix = before.content@;
                proof {
                    if *checked {
                        reveal_strlit("[\u{25A0}] ");
                    } else {
                        reveal_strlit("[ ] ");
                    }
                    assert forall|j: int| 0 <= j < prefix.len() implies spec_is_cp437(
                        #[trigger] spec_normalize(prefix[j]),
                    ) by {
                        assert(prefix[j] == '[' || prefix[j] == ']' || prefix[j] == ' '
                            || prefix[j] == '\u{25A0}');
                    }
                    lemma_all_printable(prefix);
                }
                match self.builder.add_content(before.content.as_str()) {
                    Ok(()) => {},
                    Err(e) => {
                        return Err(e);
                    },
                }
                Ok(())
            },
            MdEvent::Other => Ok(()),
        }
    }
}

/// Renders plain text through a layout builder.
pub struct TextInterpreter {
    pub builder: PrintBuilder,
}

impl TextInterpreter {
    /// Wrap a layout builder for rendering.
    pub fn new(builder: PrintBuilder) -> (r: Self)
        ensures
            r.builder == builder,
    {
        TextInterpreter { builder }
    }

    /// Feed the text into the builder under the pending style.
    pub fn render(&mut self, content: &str) -> (r: Result<(), EncodingError>)
        ensures
            r is Ok <==> spec_first_invalid(content@) is None,
            r is Ok ==> final(self).builder@ == bv_add_content(old(self).builder@, content@),
    {
        self.builder.add_content(content)
    }
}

/// Renders a markdown file through a layout builder, one parsed node at
/// a time.
pub struct MarkdownFileAdapter {
    pub builder: PrintBuilder,
}

impl MarkdownFileAdapter {
    /// Wrap a layout builder for rendering.
    pub fn new(builder: PrintBuilder) -> (r: Self)
        ensures
            r.builder == builder,
    {
        MarkdownFileAdapter { builder }
    }
}

} // verus!
