use rongta::builder::PrintBuilder;
use rongta::cp437::{EncodingError, normalize_char, normalize_to_ascii};
use rongta::dispatch::{PRODUCT_ID, SupportedDriver, VENDOR_ID, driver};
use rongta::display::{render_horizontal_rule, render_strikethrough};
use rongta::elements::{Justify, TextSize};
use rongta::render::{Heading, HorizontalRule, ListItemBefore, TaskListBefore, Text};
use rongta::strutil::{repeat_char, str_eq, trim_str, u64_to_string};
use rongta::template::{BoxPattern, RemoteFile, box_patterns_from_lines, choose_box_pattern};
use rongta::tiptap::{OrderedListType, TextAlign, text_align_to_justify};
use rongta::elements::{FormatState, StyledChar};

fn line_text(builder: &PrintBuilder, i: usize) -> String {
    builder.lines[i].chars.iter().map(|sc| sc.ch).collect()
}

#[test]
fn normalization_is_idempotent_on_samples() {
    let samples = ['\u{2018}', '\u{2019}', '\u{201C}', '\u{2013}', 'a', 'é', '😀', '\''];
    for ch in samples {
        let once = normalize_char(ch).unwrap_or(ch);
        let twice = normalize_char(once).unwrap_or(once);
        assert_eq!(once, twice);
    }
}

#[test]
fn string_normalization_expands_the_ellipsis() {
    assert_eq!(
        normalize_to_ascii("wait\u{2026} \u{2018}no\u{2019}"),
        "wait... 'no'"
    );
    assert_eq!(normalize_to_ascii("plain"), "plain");
    assert_eq!(normalize_to_ascii(""), "");
}

#[test]
fn add_content_normalizes_typographic_characters() {
    let mut builder = PrintBuilder::new(false);
    builder.add_content("it\u{2019}s \u{2013} \u{201C}ok\u{201D}").unwrap();
    assert_eq!(line_text(&builder, 0), "it's - \"ok\"");
}

#[test]
fn add_content_stops_at_first_unsupported_character() {
    let mut builder = PrintBuilder::new(false);
    let err = builder.add_content("ab\u{1F600}cd").unwrap_err();
    assert_eq!(err, EncodingError::UnsupportedCharacter('\u{1F600}'));
    // Fail-fast, not transactional: the characters before the bad one stay.
    assert_eq!(line_text(&builder, 0), "ab");
}

#[test]
fn add_char_content_rejects_unsupported_character() {
    let mut builder = PrintBuilder::new(false);
    let styled = StyledChar {
        ch: '中',
        state: FormatState::default(),
    };
    let err = builder.add_char_content(styled).unwrap_err();
    assert_eq!(err, EncodingError::UnsupportedCharacter('中'));
    assert!(builder.lines.is_empty());
}

#[test]
fn strikethrough_wraps_text_with_dashes() {
    let mut builder = PrintBuilder::new(false);
    render_strikethrough(&mut builder, "gone").unwrap();
    assert_eq!(line_text(&builder, 0), "--gone--");
}

#[test]
fn horizontal_rule_spans_the_whole_line() {
    let mut builder = PrintBuilder::new(false);
    render_horizontal_rule(&mut builder).unwrap();
    // The rule fills the first line exactly; a fresh line follows it.
    assert_eq!(builder.lines.len(), 2);
    assert_eq!(line_text(&builder, 0), "\u{2500}".repeat(48));
    assert!(builder.lines[1].chars.is_empty());
}

#[test]
fn roman_numerals_match_known_values() {
    assert_eq!(ListItemBefore::roman_numeral(4, false), "iv");
    assert_eq!(ListItemBefore::roman_numeral(4, true), "IV");
    assert_eq!(ListItemBefore::roman_numeral(9, true), "IX");
    assert_eq!(ListItemBefore::roman_numeral(14, false), "xiv");
    assert_eq!(ListItemBefore::roman_numeral(1999, true), "MCMXCIX");
    assert_eq!(ListItemBefore::roman_numeral(3999, true), "MMMCMXCIX");
    assert_eq!(ListItemBefore::roman_numeral(0, true), "");
    assert_eq!(ListItemBefore::roman_numeral(4000, true), "");
}

#[test]
fn alphabetic_labels_match_known_values() {
    assert_eq!(ListItemBefore::letter_for_index(0, false), "");
    assert_eq!(ListItemBefore::letter_for_index(1, false), "a");
    assert_eq!(ListItemBefore::letter_for_index(1, true), "A");
    assert_eq!(ListItemBefore::letter_for_index(26, false), "z");
    assert_eq!(ListItemBefore::letter_for_index(27, false), "aa");
    assert_eq!(ListItemBefore::letter_for_index(27, true), "AA");
    assert_eq!(ListItemBefore::letter_for_index(52, false), "az");
}

#[test]
fn decimal_rendering_matches_known_values() {
    assert_eq!(u64_to_string(0), "0");
    assert_eq!(u64_to_string(7), "7");
    assert_eq!(u64_to_string(1234), "1234");
    assert_eq!(u64_to_string(1000000), "1000000");
}

#[test]
fn ordered_prefix_renders_number_and_letter_styles() {
    let number = ListItemBefore::new_ordered(Some(3), None);
    assert_eq!(number.content, "3. ");
    let letter = ListItemBefore::new_ordered(Some(2), Some(OrderedListType::LowerCaseLetter));
    assert_eq!(letter.content, "a. ");
    let upper = ListItemBefore::new_ordered(Some(27), Some(OrderedListType::UpperCaseLetter));
    assert_eq!(upper.content, "Z. ");
    let roman = ListItemBefore::new_ordered(Some(4), Some(OrderedListType::UpperCaseRoman));
    assert_eq!(roman.content, "IV. ");
    assert!(number.format.text_decoration.bold);
    assert_eq!(number.format.text_size, TextSize::Medium);
    // A zero start is admitted outside the letter styles.
    let zero = ListItemBefore::new_ordered(Some(0), None);
    assert_eq!(zero.content, "0. ");
    let zero_roman = ListItemBefore::new_ordered(Some(0), Some(OrderedListType::LowerCaseRoman));
    assert_eq!(zero_roman.content, ". ");
}

#[test]
fn unordered_prefix_is_a_bullet() {
    let bullet = ListItemBefore::new_unordered();
    assert_eq!(bullet.content, "\u{2219} ");
}

#[test]
fn task_prefix_marks_checked_items() {
    assert_eq!(TaskListBefore::new(true).content, "[\u{25A0}] ");
    assert_eq!(TaskListBefore::new(false).content, "[ ] ");
}

#[test]
fn text_run_defaults_to_medium_regular() {
    let text = Text::new("hello".to_string(), None, None);
    assert_eq!(text.content, "hello");
    assert_eq!(text.format.text_size, TextSize::Medium);
    assert!(!text.format.text_decoration.bold);
    let bold = Text::new("hey".to_string(), Some(TextSize::Large), Some(true));
    assert_eq!(bold.format.text_size, TextSize::Large);
    assert!(bold.format.text_decoration.bold);
}

#[test]
fn heading_trims_its_text() {
    let heading = Heading::new("  Title  ".to_string(), Some(1));
    assert_eq!(heading.content, "Title");
    assert_eq!(heading.format.text_size, TextSize::ExtraLarge);
}

#[test]
fn horizontal_rule_element_is_twelve_dashes() {
    let rule = HorizontalRule::new();
    assert_eq!(rule.content, "------------");
    assert_eq!(rule.format.text_size, TextSize::Large);
}

#[test]
fn string_helpers_behave() {
    assert!(str_eq("abc", "abc"));
    assert!(!str_eq("abc", "abd"));
    assert!(!str_eq("abc", "ab"));
    assert_eq!(repeat_char('x', 4), "xxxx");
    assert_eq!(trim_str("  a b  "), "a b");
    assert_eq!(trim_str("   "), "");
    assert_eq!(trim_str("ok"), "ok");
}

#[test]
fn text_alignment_parses_attribute_values() {
    assert_eq!(TextAlign::from_value("center"), TextAlign::Center);
    assert_eq!(TextAlign::from_value("right"), TextAlign::Right);
    assert_eq!(TextAlign::from_value("left"), TextAlign::Left);
    assert_eq!(TextAlign::from_value("sideways"), TextAlign::Left);
    assert_eq!(text_align_to_justify(Some("center")), Justify::Center);
    assert_eq!(text_align_to_justify(Some("right")), Justify::Right);
    assert_eq!(text_align_to_justify(Some("justify")), Justify::Left);
    assert_eq!(text_align_to_justify(None), Justify::Left);
}

#[test]
fn ordered_list_type_parses_attribute_values() {
    assert_eq!(OrderedListType::from_value("a"), OrderedListType::LowerCaseLetter);
    assert_eq!(OrderedListType::from_value("A"), OrderedListType::UpperCaseLetter);
    assert_eq!(OrderedListType::from_value("i"), OrderedListType::LowerCaseRoman);
    assert_eq!(OrderedListType::from_value("I"), OrderedListType::UpperCaseRoman);
    assert_eq!(OrderedListType::from_value("1"), OrderedListType::Number);
}

#[test]
fn remote_files_have_fixed_names() {
    assert_eq!(RemoteFile::Markdown.file_name(), "konan_print.md");
    assert_eq!(RemoteFile::Text.file_name(), "konan_print.txt");
}

#[test]
fn default_driver_is_the_usb_printer() {
    match driver() {
        SupportedDriver::Usb(vendor, product) => {
            assert_eq!(vendor, VENDOR_ID);
            assert_eq!(product, PRODUCT_ID);
        }
        other => panic!("unexpected driver {:?}", other),
    }
}

#[test]
fn box_patterns_group_lines_in_fours() {
    let lines: Vec<String> = vec![
        "+--+".to_string(),
        "|  |".to_string(),
        "+--+".to_string(),
        "".to_string(),
        "#==#".to_string(),
        "#  #".to_string(),
        "#==#".to_string(),
    ];
    let patterns = box_patterns_from_lines(&lines);
    assert_eq!(patterns.len(), 2);
    assert_eq!(patterns[0].top, "+--+");
    assert_eq!(patterns[0].row, "|  |");
    assert_eq!(patterns[0].bottom, "+--+");
    assert_eq!(patterns[1].top, "#==#");
    assert_eq!(patterns[1].bottom, "#==#");
    // A trailing group of fewer than three lines is ignored.
    let short: Vec<String> = vec!["+".to_string(), "|".to_string()];
    assert_eq!(box_patterns_from_lines(&short).len(), 0);
}

#[test]
fn choosing_a_pattern_picks_a_member() {
    let none: Vec<BoxPattern> = Vec::new();
    assert!(choose_box_pattern(&none).is_none());
    let patterns = box_patterns_from_lines(&vec![
        "a".to_string(),
        "b".to_string(),
        "c".to_string(),
    ]);
    let chosen = choose_box_pattern(&patterns).expect("non-empty list gives a pattern");
    assert_eq!(chosen.top, "a");
}
