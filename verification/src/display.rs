//! Shared display helpers for producers that render content through a
//! `PrintBuilder`, so that headings, code, emphasis and rules are styled
//! the same from every input format.

use vstd::prelude::*;

use crate::CPL;
use crate::builder::{
    PrintBuilder, bv_add_content, bv_add_content_upto, bv_new_line, bv_reset_styles,
    bv_set_decoration, bv_set_justify, bv_set_size, lemma_all_printable, spec_first_invalid,
};
use crate::cp437::{EncodingError, spec_is_cp437, spec_normalize};
use crate::elements::{Justify, TextDecoration, TextSize};
use crate::strutil::repeat_char;

verus! {

/// The horizontal-rule character: a box-drawing dash on the device code
/// page.
pub open spec fn rule_char() -> char {
    '\u{2500}'
}

/// The double dash has no invalid character.
proof fn lemma_dashes_valid()
    ensures
        spec_first_invalid("--"@) is None,
{
    reveal_strlit("--");
    assert forall|j: int| 0 <= j < "--"@.len() implies spec_is_cp437(
        #[trigger] spec_normalize("--"@[j]),
    ) by {
        assert("--"@[j] == '-');
    }
    lemma_all_printable("--"@);
}

/// Render strikethrough text by wrapping it with dashes: the device has
/// no native strikethrough.
pub fn render_strikethrough(builder: &mut PrintBuilder, text: &str) -> (r: Result<
    (),
    EncodingError,
>)
    ensures
        r is Ok <==> spec_first_invalid(text@) is None,
        r is Ok ==> final(builder)@ == bv_add_content(
            bv_add_content(bv_add_content(old(builder)@, "--"@), text@),
            "--"@,
        ),
        r matches Err(e) ==> spec_first_invalid(text@) matches Some(i) && e
            == EncodingError::UnsupportedCharacter(spec_normalize(text@[i])) && final(builder)@
            == bv_add_content_upto(bv_add_content(old(builder)@, "--"@), text@, i),
{
    proof {
        lemma_dashes_valid();
    }
    match builder.add_content("--") {
        Ok(()) => {},
        Err(e) => {
            return Err(e);
        },
    }
    match builder.add_content(text) {
        Ok(()) => {},
        Err(e) => {
            return Err(e);
        },
    }
    builder.add_content("--")
}

/// Render a horizontal rule as a full-width line of box-drawing dashes
/// on a line of its own.
pub fn render_horizontal_rule(builder: &mut PrintBuilder) -> (r: Result<(), EncodingError>)
    ensures
        r is Ok,
        final(builder)@ == bv_new_line(
            bv_add_content(
                bv_new_line(old(builder)@),
                Seq::new(CPL as nat, |i: int| rule_char()),
            ),
        ),
{
    builder.new_line();
    let dashes = repeat_char('\u{2500}', CPL as usize);
    let ghost rule = Seq::new(CPL as nat, |i: int| rule_char());
    proof {
        assert forall|j: int| 0 <= j < rule.len() implies spec_is_cp437(
            #[trigger] spec_normalize(rule[j]),
        ) by {
            assert(rule[j] == '\u{2500}');
        }
        lemma_all_printable(rule);
    }
    match builder.add_content(dashes.as_str()) {
        Ok(()) => {},
        Err(e) => {
            return Err(e);
        },
    }
    builder.new_line();
    Ok(())
}

/// The text size and decoration for a heading level: the top level is
/// extra large, the next two large (the second of them bold), anything
/// deeper medium and bold.
pub open spec fn spec_heading_style(level: int) -> (TextSize, TextDecoration) {
    if level == 1 {
        (TextSize::ExtraLarge, TextDecoration { bold: false, underline: false, italic: false })
    } else if level == 2 {
        (TextSize::Large, TextDecoration { bold: true, underline: false, italic: false })
    } else if level == 3 {
        (TextSize::Large, TextDecoration { bold: false, underline: false, italic: false })
    } else {
        (TextSize::Medium, TextDecoration { bold: true, underline: false, italic: false })
    }
}

/// Get the text size and decoration for a heading level.
pub fn heading_style(level: u8) -> (r: (TextSize, TextDecoration))
    ensures
        r == spec_heading_style(level as int),
{
    match level {
        1 => (
            TextSize::ExtraLarge,
            TextDecoration { bold: false, underline: false, italic: false },
        ),
        2 => (TextSize::Large, TextDecoration { bold: true, underline: false, italic: false }),
        3 => (TextSize::Large, TextDecoration { bold: false, underline: false, italic: false }),
        _ => (TextSize::Medium, TextDecoration { bold: true, underline: false, italic: false }),
    }
}

/// Render a heading: sized and decorated by its level, centered, on a
/// line of its own, with the styles reset afterwards.
pub fn render_heading(builder: &mut PrintBuilder, level: u8, content: &str) -> (r: Result<
    (),
    EncodingError,
>)
    ensures
        r is Ok <==> spec_first_invalid(content@) is None,
        r is Ok ==> final(builder)@ == bv_reset_styles(
            bv_new_line(
                bv_add_content(
                    bv_set_justify(
                        bv_set_decoration(
                            bv_set_size(
                                bv_new_line(old(builder)@),
                                spec_heading_style(level as int).0,
                            ),
                            spec_heading_style(level as int).1,
                        ),
                        Justify::Center,
                    ),
                    content@,
                ),
            ),
        ),
{
    let (size, decoration) = heading_style(level);
    builder.new_line();
    builder.set_text_size(size);
    builder.set_text_decoration(decoration);
    builder.set_justify_content(Justify::Center);
    match builder.add_content(content) {
        Ok(()) => {},
        Err(e) => {
            return Err(e);
        },
    }
    builder.new_line();
    builder.reset_styles();
    Ok(())
}

/// Render a blockquote: bold and underlined, centered, set off by blank
/// lines, with the styles reset afterwards.
pub fn render_blockquote(builder: &mut PrintBuilder, content: &str) -> (r: Result<
    (),
    EncodingError,
>)
    ensures
        r is Ok <==> spec_first_invalid(content@) is None,
        r is Ok ==> final(builder)@ == bv_reset_styles(
            bv_new_line(
                bv_new_line(
                    bv_add_content(
                        bv_set_justify(
                            bv_set_decoration(
                                bv_new_line(bv_new_line(old(builder)@)),
                                TextDecoration { bold: true, underline: true, italic: false },
                            ),
                            Justify::Center,
                        ),
                        content@,
                    ),
                ),
            ),
        ),
{
    builder.new_line();
    builder.new_line();
    builder.set_text_decoration(
        TextDecoration { bold: true, italic: false, underline: true },
    );
    builder.set_justify_content(Justify::Center);
    match builder.add_content(content) {
        Ok(()) => {},
        Err(e) => {
            return Err(e);
        },
    }
    builder.new_line();
    builder.new_line();
    builder.reset_styles();
    Ok(())
}

/// Render a code block: bold, set off by blank lines, with the styles
/// reset afterwards.
pub fn render_code_block(builder: &mut PrintBuilder, content: &str) -> (r: Result<
    (),
    EncodingError,
>)
    ensures
        r is Ok <==> spec_first_invalid(content@) is None,
        r is Ok ==> final(builder)@ == bv_reset_styles(
            bv_new_line(
                bv_new_line(
                    bv_add_content(
                        bv_set_decoration(
                            bv_new_line(bv_new_line(old(builder)@)),
                            TextDecoration { bold: true, underline: false, italic: false },
                        ),
                        content@,
                    ),
                ),
            ),
        ),
{
    builder.new_line();
    builder.new_line();
    builder.set_text_decoration(
        TextDecoration { bold: true, underline: false, italic: false },
    );
    match builder.add_content(content) {
        Ok(()) => {},
        Err(e) => {
            return Err(e);
        },
    }
    builder.new_line();
    builder.new_line();
    builder.reset_styles();
    Ok(())
}

/// Render inline code: bold and underlined, with the styles reset
/// afterwards.
pub fn render_inline_code(builder: &mut PrintBuilder, content: &str) -> (r: Result<
    (),
    EncodingError,
>)
    ensures
        r is Ok <==> spec_first_invalid(content@) is None,
        r is Ok ==> final(builder)@ == bv_reset_styles(
            bv_add_content(
                bv_set_decoration(
                    old(builder)@,
                    TextDecoration { bold: true, underline: true, italic: false },
                ),
                content@,
            ),
        ),
{
    builder.set_text_decoration(
        TextDecoration { bold: true, underline: true, italic: false },
    );
    match builder.add_content(content) {
        Ok(()) => {},
        Err(e) => {
            return Err(e);
        },
    }
    builder.reset_styles();
    Ok(())
}

/// The checkbox prefix of a task item.
pub fn task_item_prefix(checked: bool) -> (r: &'static str)
    ensures
        checked ==> r@ == "[x] "@,
        !checked ==> r@ == "[ ] "@,
{
    if checked {
        "[x] "
    } else {
        "[ ] "
    }
}

/// Render bold text, with the styles reset afterwards.
pub fn render_bold(builder: &mut PrintBuilder, content: &str) -> (r: Result<(), EncodingError>)
    ensures
        r is Ok <==> spec_first_invalid(content@) is None,
        r is Ok ==> final(builder)@ == bv_reset_styles(
            bv_add_content(
                bv_set_decoration(
                    old(builder)@,
                    TextDecoration { bold: true, underline: false, italic: false },
                ),
                content@,
            ),
        ),
{
    builder.set_text_decoration(
        TextDecoration { bold: true, underline: false, italic: false },
    );
    match builder.add_content(content) {
        Ok(()) => {},
        Err(e) => {
            return Err(e);
        },
    }
    builder.reset_styles();
    Ok(())
}

/// Render italic text as underline: the device has no italic face, so
/// the mapping is deliberately lossy.
pub fn render_italic(builder: &mut PrintBuilder, content: &str) -> (r: Result<(), EncodingError>)
    ensures
        r is Ok <==> spec_first_invalid(content@) is None,
        r is Ok ==> final(builder)@ == bv_reset_styles(
            bv_add_content(
                bv_set_decoration(
                    old(builder)@,
                    TextDecoration { bold: false, underline: true, italic: false },
                ),
                content@,
            ),
        ),
{
    builder.set_text_decoration(
        TextDecoration { bold: false, underline: true, italic: false },
    );
    match builder.add_content(content) {
        Ok(()) => {},
        Err(e) => {
            return Err(e);
        },
    }
    builder.reset_styles();
    Ok(())
}

} // verus!
