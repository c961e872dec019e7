//! Block elements rendered onto a layout builder: list item prefixes,
//! task checkboxes, plain text runs, headings, block quotes, code blocks
//! and horizontal rules, each with the label logic it needs.

use vstd::prelude::*;

use crate::builder::{
    BuilderView, PrintBuilder, ToBuilderCommand, bv_add_content, bv_add_content_upto,
    bv_new_line, bv_reset_styles, bv_set_decoration, bv_set_justify, bv_set_size,
    spec_first_invalid,
};
use crate::cp437::spec_normalize;
use crate::cp437::EncodingError;
use crate::display::spec_heading_style;
use crate::elements::{FormatState, Justify, TextDecoration, TextSize};
use crate::strutil::{chars_to_string, dec_seq, spec_trim, trim_str, u64_to_string};
use crate::tiptap::OrderedListType;

verus! {

/// The alphabetic ordinal character for one base-26 digit.
pub open spec fn letter_char(d: int, upper: bool) -> char {
    if upper {
        ((65 + d) as u8) as char
    } else {
        ((97 + d) as u8) as char
    }
}

/// The bijective base-26 alphabetic label for an index: zero is empty,
/// one is "a", twenty-six is "z", twenty-seven is "aa".
pub open spec fn letter_seq(n: int, upper: bool) -> Seq<char>
    decreases n,
{
    if n <= 0 {
        Seq::empty()
    } else {
        letter_seq((n - 1) / 26, upper) + seq![letter_char((n - 1) % 26, upper)]
    }
}

fn letter_char_exec(d: u64, upper: bool) -> (c: char)
    requires
        d < 26,
    ensures
        c == letter_char(d as int, upper),
{
    let base: u8 = if upper {
        65
    } else {
        97
    };
    (base + (d as u8)) as char
}

fn letter_vec(n: u64, upper: bool) -> (v: Vec<char>)
    ensures
        v@ == letter_seq(n as int, upper),
    decreases n,
{
    if n == 0 {
        let v: Vec<char> = Vec::new();
        proof {
            assert(v@ =~= letter_seq(0, upper));
        }
        v
    } else {
        proof {
            assert((n - 1) as u64 as int / 26 < n as int) by (nonlinear_arith)
                requires
                    n >= 1,
            ;
        }
        let mut v = letter_vec((n - 1) / 26, upper);
        v.push(letter_char_exec((n - 1) % 26, upper));
        proof {
            assert(v@ =~= letter_seq((n - 1) as int / 26, upper) + seq![
                letter_char((n - 1) as int % 26, upper),
            ]);
        }
        v
    }
}

/// The greedy Roman numeral rendering of a positive number.
pub open spec fn roman_core(n: int, upper: bool) -> Seq<char>
    decreases n,
{
    if n <= 0 {
        Seq::empty()
    } else if n >= 1000 {
        seq![if upper { 'M' } else { 'm' }] + roman_core(n - 1000, upper)
    } else if n >= 900 {
        seq![if upper { 'C' } else { 'c' }, if upper { 'M' } else { 'm' }] + roman_core(
            n - 900,
            upper,
        )
    } else if n >= 500 {
        seq![if upper { 'D' } else { 'd' }] + roman_core(n - 500, upper)
    } else if n >= 400 {
        seq![if upper { 'C' } else { 'c' }, if upper { 'D' } else { 'd' }] + roman_core(
            n - 400,
            upper,
        )
    } else if n >= 100 {
        seq![if upper { 'C' } else { 'c' }] + roman_core(n - 100, upper)
    } else if n >= 90 {
        seq![if upper { 'X' } else { 'x' }, if upper { 'C' } else { 'c' }] + roman_core(
            n - 90,
            upper,
        )
    } else if n >= 50 {
        seq![if upper { 'L' } else { 'l' }] + roman_core(n - 50, upper)
    } else if n >= 40 {
        seq![if upper { 'X' } else { 'x' }, if upper { 'L' } else { 'l' }] + roman_core(
            n - 40,
            upper,
        )
    } else if n >= 10 {
        seq![if upper { 'X' } else { 'x' }] + roman_core(n - 10, upper)
    } else if n >= 9 {
        seq![if upper { 'I' } else { 'i' }, if upper { 'X' } else { 'x' }] + roman_core(
            n - 9,
            upper,
        )
    } else if n >= 5 {
        seq![if upper { 'V' } else { 'v' }] + roman_core(n - 5, upper)
    } else if n >= 4 {
        seq![if upper { 'I' } else { 'i' }, if upper { 'V' } else { 'v' }] + roman_core(
            n - 4,
            upper,
        )
    } else {
        seq![if upper { 'I' } else { 'i' }] + roman_core(n - 1, upper)
    }
}

/// The Roman numeral of a number: empty outside the representable range.
pub open spec fn spec_roman(n: int, upper: bool) -> Seq<char> {
    if n <= 0 || n > 3999 {
        Seq::empty()
    } else {
        roman_core(n, upper)
    }
}

/// The ordinal label of a list position under a numbering style.
pub open spec fn spec_ordinal_label(start: int, t: OrderedListType) -> Seq<char> {
    match t {
        OrderedListType::LowerCaseLetter => letter_seq(start - 1, false),
        OrderedListType::UpperCaseLetter => letter_seq(start - 1, true),
        OrderedListType::LowerCaseRoman => spec_roman(start, false),
        OrderedListType::UpperCaseRoman => spec_roman(start, true),
        OrderedListType::Number => dec_seq(start),
    }
}

/// Style the list-item prefix rendered before each item.
pub struct ListItemBefore {
    pub content: String,
    pub format: FormatState,
}

/// A fresh line with the styles reset: how every block element begins.
pub open spec fn bv_block_start(b: BuilderView) -> BuilderView {
    bv_reset_styles(bv_new_line(b))
}

/// The bold medium format all list prefixes use.
pub open spec fn prefix_format() -> FormatState {
    FormatState {
        text_size: TextSize::Medium,
        text_decoration: TextDecoration { bold: true, underline: false, italic: false },
    }
}

impl ListItemBefore {
    /// Returns the alphabetic label for a 1-based index.
    /// Examples: 1 -> "a"/"A", 26 -> "z"/"Z", 27 -> "aa"/"AA".
    pub fn letter_for_index(index: u64, uppercase: bool) -> (r: String)
        ensures
            r@ == letter_seq(index as int, uppercase),
    {
        chars_to_string(letter_vec(index, uppercase))
    }

    /// Returns the Roman numeral for a positive integer (1..=3999).
    /// Set `uppercase` to control casing (e.g., 4 -> "iv" or "IV").
    pub fn roman_numeral(value: u64, uppercase: bool) -> (r: String)
        ensures
            r@ == spec_roman(value as int, uppercase),
    {
        if value == 0 || value > 3999 {
            let r = String::new();
            return r;
        }
        let ghost n0 = value as int;
        let mut v: Vec<char> = Vec::new();
        let mut n: u64 = value;
        proof {
            assert(v@ + roman_core(n as int, uppercase) =~= roman_core(n0, uppercase));
        }
        while n > 0
            invariant
                v@ + roman_core(n as int, uppercase) == roman_core(n0, uppercase),
            decreases n,
        {
            let ghost vs = v@;
            let ghost ni = n as int;
            if n >= 1000 {
                v.push(if uppercase { 'M' } else { 'm' });
                n = n - 1000;
            } else if n >= 900 {
                v.push(if uppercase { 'C' } else { 'c' });
                v.push(if uppercase { 'M' } else { 'm' });
                n = n - 900;
            } else if n >= 500 {
                v.push(if uppercase { 'D' } else { 'd' });
                n = n - 500;
            } else if n >= 400 {
                v.push(if uppercase { 'C' } else { 'c' });
                v.push(if uppercase { 'D' } else { 'd' });
                n = n - 400;
            } else if n >= 100 {
                v.push(if uppercase { 'C' } else { 'c' });
                n = n - 100;
            } else if n >= 90 {
                v.push(if uppercase { 'X' } else { 'x' });
                v.push(if uppercase { 'C' } else { 'c' });
                n = n - 90;
            } else if n >= 50 {
                v.push(if uppercase { 'L' } else { 'l' });
                n = n - 50;
            } else if n >= 40 {
                v.push(if uppercase { 'X' } else { 'x' });
                v.push(if uppercase { 'L' } else { 'l' });
                n = n - 40;
            } else if n >= 10 {
                v.push(if uppercase { 'X' } else { 'x' });
                n = n - 10;
            } else if n >= 9 {
                v.push(if uppercase { 'I' } else { 'i' });
                v.push(if uppercase { 'X' } else { 'x' });
                n = n - 9;
            } else if n >= 5 {
                v.push(if uppercase { 'V' } else { 'v' });
                n = n - 5;
            } else if n >= 4 {
                v.push(if uppercase { 'I' } else { 'i' });
                v.push(if uppercase { 'V' } else { 'v' });
                n = n - 4;
            } else {
                v.push(if uppercase { 'I' } else { 'i' });
                n = n - 1;
            }
            proof {
                assert(v@ + roman_core(n as int, uppercase) =~= vs + roman_core(ni, uppercase));
            }
        }
        chars_to_string(v)
    }

    /// The prefix for an ordered list item: its ordinal label, a period
    /// and a space, in bold.  A zero start renders as "0" under decimal
    /// numbering and as an empty label under Roman numbering; the letter
    /// styles have no label below one and do not admit it.
    pub fn new_ordered(start: Option<u64>, ordinal: Option<OrderedListType>) -> (r: Self)
        requires
            (match (start, ordinal) {
                (
                    Some(s),
                    Some(OrderedListType::LowerCaseLetter)
                    | Some(OrderedListType::UpperCaseLetter),
                ) => s >= 1,
                _ => true,
            }),
        ensures
            ({
                let s = match start {
                    None => 1int,
                    Some(v) => v as int,
                };
                let t = match ordinal {
                    None => OrderedListType::Number,
                    Some(t) => t,
                };
                r.content@ == spec_ordinal_label(s, t) + seq!['.', ' ']
            }),
            r.format == prefix_format(),
    {
        let start = match start {
            Some(s) => s,
            None => 1,
        };
        let ordinal = match ordinal {
            Some(t) => t,
            None => OrderedListType::Number,
        };
        let value = match ordinal {
            OrderedListType::LowerCaseLetter => Self::letter_for_index(start - 1, false),
            OrderedListType::UpperCaseLetter => Self::letter_for_index(start - 1, true),
            OrderedListType::LowerCaseRoman => Self::roman_numeral(start, false),
            OrderedListType::UpperCaseRoman => Self::roman_numeral(start, true),
            OrderedListType::Number => u64_to_string(start),
        };
        let content = value.concat(". ");
        proof {
            reveal_strlit(". ");
            assert(". "@ =~= seq!['.', ' ']);
        }
        ListItemBefore {
            content,
            format: FormatState {
                text_size: TextSize::Medium,
                text_decoration: TextDecoration { bold: true, underline: false, italic: false },
            },
        }
    }

    /// The prefix for an unordered list item: a bullet dot, in bold.
    pub fn new_unordered() -> (r: Self)
        ensures
            r.content@ == "\u{2219} "@,
            r.format == prefix_format(),
    {
        ListItemBefore {
            content: String::from_str("\u{2219} "),
            format: FormatState {
                text_size: TextSize::Medium,
                text_decoration: TextDecoration { bold: true, underline: false, italic: false },
            },
        }
    }
}

impl ToBuilderCommand for ListItemBefore {
    fn to_builder_command(&self, builder: &mut PrintBuilder) -> (r: Result<(), EncodingError>)
        ensures
            r is Ok <==> spec_first_invalid(self.content@) is None,
            r is Ok ==> final(builder)@ == bv_add_content(
                bv_set_decoration(
                    bv_set_size(
                        bv_set_justify(bv_block_start(old(builder)@), Justify::Left),
                        self.format.text_size,
                    ),
                    self.format.text_decoration,
                ),
                self.content@,
            ),
            r matches Err(e) ==> spec_first_invalid(self.content@) matches Some(i) && e
                == EncodingError::UnsupportedCharacter(spec_normalize(self.content@[i]))
                && final(builder)@ == bv_add_content_upto(
                bv_set_decoration(
                    bv_set_size(
                        bv_set_justify(bv_block_start(old(builder)@), Justify::Left),
                        self.format.text_size,
                    ),
                    self.format.text_decoration,
                ),
                self.content@,
                i,
            ),
    {
        builder.new_line();
        builder.reset_styles();
        builder.set_justify_content(Justify::Left);
        builder.set_text_size(self.format.text_size);
        builder.set_text_decoration(self.format.text_decoration);
        builder.add_content(self.content.as_str())
    }
}

/// The checkbox prefix rendered before each task list item.
pub struct TaskListBefore {
    pub content: String,
    pub format: FormatState,
}

impl TaskListBefore {
    /// A filled box for a checked item, an empty box otherwise, in bold.
    pub fn new(checked: bool) -> (r: Self)
        ensures
            checked ==> r.content@ == "[\u{25A0}] "@,
            !checked ==> r.content@ == "[ ] "@,
            r.format == prefix_format(),
    {
        let content = if checked {
            String::from_str("[\u{25A0}] ")
        } else {
            String::from_str("[ ] ")
        };
        TaskListBefore {
            content,
            format: FormatState {
                text_size: TextSize::Medium,
                text_decoration: TextDecoration { bold: true, underline: false, italic: false },
            },
        }
    }
}

impl ToBuilderCommand for TaskListBefore {
    fn to_builder_command(&self, builder: &mut PrintBuilder) -> (r: Result<(), EncodingError>)
        ensures
            r is Ok <==> spec_first_invalid(self.content@) is None,
            r is Ok ==> final(builder)@ == bv_add_content(
                bv_set_decoration(
                    bv_set_size(bv_block_start(old(builder)@), self.format.text_size),
                    self.format.text_decoration,
                ),
                self.content@,
            ),
    {
        builder.new_line();
        builder.reset_styles();
        builder.set_text_size(self.format.text_size);
        builder.set_text_decoration(self.format.text_decoration);
        builder.add_content(self.content.as_str())
    }
}

/// A run of non-heading text under one size and boldness.
pub struct Text {
    pub content: String,
    pub format: FormatState,
}

impl Text {
    /// A text run: medium and regular unless told otherwise.
    pub fn new(text: String, text_size: Option<TextSize>, bold: Option<bool>) -> (r: Self)
        ensures
            r.content == text,
            r.format == (FormatState {
                text_size: match text_size {
                    None => TextSize::Medium,
                    Some(s) => s,
                },
                text_decoration: TextDecoration {
                    bold: match bold {
                        None => false,
                        Some(b) => b,
                    },
                    underline: false,
                    italic: false,
                },
            }),
    {
        let text_size = match text_size {
            Some(s) => s,
            None => TextSize::Medium,
        };
        let bold = match bold {
            Some(b) => b,
            None => false,
        };
        Text {
            content: text,
            format: FormatState {
                text_size,
                text_decoration: TextDecoration { bold, underline: false, italic: false },
            },
        }
    }
}

impl ToBuilderCommand for Text {
    fn to_builder_command(&self, builder: &mut PrintBuilder) -> (r: Result<(), EncodingError>)
        ensures
            r is Ok <==> spec_first_invalid(self.content@) is None,
            r is Ok ==> final(builder)@ == bv_add_content(
                bv_set_decoration(
                    bv_set_size(old(builder)@, self.format.text_size),
                    self.format.text_decoration,
                ),
                self.content@,
            ),
    {
        builder.set_text_size(self.format.text_size);
        builder.set_text_decoration(self.format.text_decoration);
        builder.add_content(self.content.as_str())
    }
}

/// A heading, centered and styled by its level.
pub struct Heading {
    pub content: String,
    pub format: FormatState,
}

impl Heading {
    /// A heading holding the trimmed text, styled by its level; an absent
    /// level styles like the third.
    pub fn new(text: String, level: Option<u8>) -> (r: Self)
        ensures
            r.content@ == spec_trim(text@),
            ({
                let l = match level {
                    None => 3int,
                    Some(v) => v as int,
                };
                r.format == (FormatState {
                    text_size: spec_heading_style(l).0,
                    text_decoration: spec_heading_style(l).1,
                })
            }),
    {
        let level = match level {
            Some(l) => l,
            None => 3,
        };
        let (text_size, text_decoration) = Self::heading_style(level);
        Heading {
            content: trim_str(text.as_str()),
            format: FormatState { text_size, text_decoration },
        }
    }

    /// The size and decoration a heading level is rendered with.
    pub fn heading_style(level: u8) -> (r: (TextSize, TextDecoration))
        ensures
            r == spec_heading_style(level as int),
    {
        crate::display::heading_style(level)
    }
}

impl ToBuilderCommand for Heading {
    fn to_builder_command(&self, builder: &mut PrintBuilder) -> (r: Result<(), EncodingError>)
        ensures
            r is Ok <==> spec_first_invalid(self.content@) is None,
            r is Ok ==> final(builder)@ == bv_new_line(
                bv_add_content(
                    bv_set_justify(
                        bv_set_decoration(
                            bv_set_size(bv_block_start(old(builder)@), self.format.text_size),
                            self.format.text_decoration,
                        ),
                        Justify::Center,
                    ),
                    self.content@,
                ),
            ),
    {
        builder.new_line();
        builder.reset_styles();
        builder.set_text_size(self.format.text_size);
        builder.set_text_decoration(self.format.text_decoration);
        builder.set_justify_content(Justify::Center);
        match builder.add_content(self.content.as_str()) {
            Ok(()) => {},
            Err(e) => {
                return Err(e);
            },
        }
        builder.new_line();
        Ok(())
    }
}

/// A block quote, centered and bold.
pub struct BlockQuote {
    pub content: String,
    pub format: FormatState,
}

impl BlockQuote {
    /// A block quote holding the text, medium and bold.
    pub fn new(text: String) -> (r: Self)
        ensures
            r.content == text,
            r.format == prefix_format(),
    {
        BlockQuote {
            content: text,
            format: FormatState {
                text_size: TextSize::Medium,
                text_decoration: TextDecoration { bold: true, underline: false, italic: false },
            },
        }
    }
}

impl ToBuilderCommand for BlockQuote {
    fn to_builder_command(&self, builder: &mut PrintBuilder) -> (r: Result<(), EncodingError>)
        ensures
            r is Ok <==> spec_first_invalid(self.content@) is None,
            r is Ok ==> final(builder)@ == bv_new_line(
                bv_add_content(
                    bv_set_justify(
                        bv_set_decoration(
                            bv_set_size(bv_block_start(old(builder)@), self.format.text_size),
                            self.format.text_decoration,
                        ),
                        Justify::Center,
                    ),
                    self.content@,
                ),
            ),
    {
        builder.new_line();
        builder.reset_styles();
        builder.set_text_size(self.format.text_size);
        builder.set_text_decoration(self.format.text_decoration);
        builder.set_justify_content(Justify::Center);
        match builder.add_content(self.content.as_str()) {
            Ok(()) => {},
            Err(e) => {
                return Err(e);
            },
        }
        builder.new_line();
        Ok(())
    }
}

/// A code block, left-aligned and bold.
pub struct CodeBlock {
    pub content: String,
    pub format: FormatState,
}

impl CodeBlock {
    /// A code block holding the text, medium and bold.
    pub fn new(text: String) -> (r: Self)
        ensures
            r.content == text,
            r.format == prefix_format(),
    {
        CodeBlock {
            content: text,
            format: FormatState {
                text_size: TextSize::Medium,
                text_decoration: TextDecoration { bold: true, underline: false, italic: false },
            },
        }
    }
}

impl ToBuilderCommand for CodeBlock {
    fn to_builder_command(&self, builder: &mut PrintBuilder) -> (r: Result<(), EncodingError>)
        ensures
            r is Ok <==> spec_first_invalid(self.content@) is None,
            r is Ok ==> final(builder)@ == bv_new_line(
                bv_add_content(
                    bv_set_justify(
                        bv_set_decoration(
                            bv_set_size(bv_block_start(old(builder)@), self.format.text_size),
                            self.format.text_decoration,
                        ),
                        Justify::Left,
                    ),
                    self.content@,
                ),
            ),
    {
        builder.new_line();
        builder.reset_styles();
        builder.set_text_size(self.format.text_size);
        builder.set_text_decoration(self.format.text_decoration);
        builder.set_justify_content(Justify::Left);
        match builder.add_content(self.content.as_str()) {
            Ok(()) => {},
            Err(e) => {
                return Err(e);
            },
        }
        builder.new_line();
        Ok(())
    }
}

/// A short centered divider of dashes.
pub struct HorizontalRule {
    pub content: String,
    pub format: FormatState,
}

impl HorizontalRule {
    /// A divider of twelve dashes, large and bold.
    pub fn new() -> (r: Self)
        ensures
            r.content@ == Seq::new(12, |i: int| '-'),
            r.format == (FormatState {
                text_size: TextSize::Large,
                text_decoration: TextDecoration { bold: true, underline: false, italic: false },
            }),
    {
        HorizontalRule {
            content: crate::strutil::repeat_char('-', 12),
            format: FormatState {
                text_size: TextSize::Large,
                text_decoration: TextDecoration { bold: true, underline: false, italic: false },
            },
        }
    }
}

impl ToBuilderCommand for HorizontalRule {
    fn to_builder_command(&self, builder: &mut PrintBuilder) -> (r: Result<(), EncodingError>)
        ensures
            r is Ok <==> spec_first_invalid(self.content@) is None,
            r is Ok ==> final(builder)@ == bv_new_line(
                bv_add_content(
                    bv_set_justify(
                        bv_set_decoration(
                            bv_set_size(bv_block_start(old(builder)@), self.format.text_size),
                            self.format.text_decoration,
                        ),
                        Justify::Center,
                    ),
                    self.content@,
                ),
            ),
    {
        builder.new_line();
        builder.reset_styles();
        builder.set_text_size(self.format.text_size);
        builder.set_text_decoration(self.format.text_decoration);
        builder.set_justify_content(Justify::Center);
        match builder.add_content(self.content.as_str()) {
            Ok(()) => {},
            Err(e) => {
                return Err(e);
            },
        }
        builder.new_line();
        Ok(())
    }
}

} // verus!
