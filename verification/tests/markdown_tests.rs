use rongta::builder::PrintBuilder;
use rongta::elements::{Justify, TextSize};
use rongta::markdown::{MarkdownInterpreter, MdEvent, MdTag, TextInterpreter};
use rongta::template::{DateBanner, Message, TimePeriod, days_until_weekday};

fn line_chars(interpreter: &MarkdownInterpreter, i: usize) -> String {
    interpreter.builder.lines[i].chars.iter().map(|sc| sc.ch).collect()
}

#[test]
fn heading_start_sets_size_and_decoration() {
    let mut interpreter = MarkdownInterpreter::new(PrintBuilder::new(false));
    interpreter.handle_event(&MdEvent::Start(MdTag::Heading(1))).unwrap();
    interpreter.handle_event(&MdEvent::Text("Big".to_string())).unwrap();
    let last = interpreter.builder.lines.last().unwrap();
    assert_eq!(last.chars[0].state.text_size, TextSize::ExtraLarge);
    assert!(!last.chars[0].state.text_decoration.bold);

    let mut interpreter = MarkdownInterpreter::new(PrintBuilder::new(false));
    interpreter.handle_event(&MdEvent::Start(MdTag::Heading(2))).unwrap();
    interpreter.handle_event(&MdEvent::Text("Sub".to_string())).unwrap();
    let last = interpreter.builder.lines.last().unwrap();
    assert_eq!(last.chars[0].state.text_size, TextSize::Large);
    assert!(last.chars[0].state.text_decoration.bold);
}

#[test]
fn strong_start_makes_subsequent_text_bold() {
    let mut interpreter = MarkdownInterpreter::new(PrintBuilder::new(false));
    interpreter.handle_event(&MdEvent::Text("plain ".to_string())).unwrap();
    interpreter.handle_event(&MdEvent::Start(MdTag::Strong)).unwrap();
    interpreter.handle_event(&MdEvent::Text("loud".to_string())).unwrap();
    let line = &interpreter.builder.lines[0];
    assert!(!line.chars[0].state.text_decoration.bold);
    assert!(line.chars[6].state.text_decoration.bold);
}

#[test]
fn ordered_items_are_prefixed_with_their_ordinal() {
    let mut interpreter = MarkdownInterpreter::new(PrintBuilder::new(false));
    interpreter.handle_event(&MdEvent::Start(MdTag::List(Some(3)))).unwrap();
    interpreter.handle_event(&MdEvent::Start(MdTag::Item)).unwrap();
    let last = interpreter.builder.lines.len() - 1;
    assert_eq!(line_chars(&interpreter, last), "3. ");
    assert_eq!(interpreter.builder.lines[last].justify_content, Justify::Left);
}

#[test]
fn unordered_items_are_prefixed_with_a_bullet() {
    let mut interpreter = MarkdownInterpreter::new(PrintBuilder::new(false));
    interpreter.handle_event(&MdEvent::Start(MdTag::List(None))).unwrap();
    interpreter.handle_event(&MdEvent::Start(MdTag::Item)).unwrap();
    let last = interpreter.builder.lines.len() - 1;
    assert_eq!(line_chars(&interpreter, last), "\u{2219} ");
}

#[test]
fn breaks_and_ends_start_fresh_lines() {
    let mut interpreter = MarkdownInterpreter::new(PrintBuilder::new(false));
    interpreter.handle_event(&MdEvent::Text("one".to_string())).unwrap();
    interpreter.handle_event(&MdEvent::SoftBreak).unwrap();
    interpreter.handle_event(&MdEvent::Text("two".to_string())).unwrap();
    interpreter.handle_event(&MdEvent::End).unwrap();
    assert_eq!(interpreter.builder.lines.len(), 3);
    assert_eq!(line_chars(&interpreter, 0), "one");
    assert_eq!(line_chars(&interpreter, 1), "two");
}

#[test]
fn rule_event_prints_a_divider() {
    let mut interpreter = MarkdownInterpreter::new(PrintBuilder::new(false));
    interpreter.handle_event(&MdEvent::Rule).unwrap();
    let divider = interpreter
        .builder
        .lines
        .iter()
        .position(|l| l.chars.iter().map(|sc| sc.ch).collect::<String>() == "------------")
        .expect("a divider line");
    assert_eq!(interpreter.builder.lines[divider].justify_content, Justify::Center);
    assert_eq!(
        interpreter.builder.lines[divider].chars[0].state.text_size,
        TextSize::Large
    );
}

#[test]
fn task_marker_prints_its_checkbox() {
    let mut interpreter = MarkdownInterpreter::new(PrintBuilder::new(false));
    interpreter.handle_event(&MdEvent::TaskListMarker(true)).unwrap();
    let last = interpreter.builder.lines.len() - 1;
    assert_eq!(line_chars(&interpreter, last), "[\u{25A0}] ");
    interpreter.handle_event(&MdEvent::TaskListMarker(false)).unwrap();
    let last = interpreter.builder.lines.len() - 1;
    assert!(line_chars(&interpreter, last).ends_with("[ ] "));
}

#[test]
fn text_interpreter_feeds_and_wraps() {
    let mut interpreter = TextInterpreter::new(PrintBuilder::new(true));
    interpreter.render(&"x".repeat(50)).unwrap();
    assert_eq!(interpreter.builder.lines.len(), 2);
    assert_eq!(interpreter.builder.lines[0].chars.len(), 48);
    assert!(interpreter.builder.cut);
}

#[test]
fn markdown_text_rejects_unsupported_characters() {
    let mut interpreter = MarkdownInterpreter::new(PrintBuilder::new(false));
    assert!(interpreter
        .handle_event(&MdEvent::Text("ok \u{1F600}".to_string()))
        .is_err());
}

#[test]
fn weekday_distances_wrap_around_the_week() {
    // Monday to Friday is four days; Friday to Monday is three.
    assert_eq!(days_until_weekday(0, 4), 4);
    assert_eq!(days_until_weekday(4, 0), 3);
    // The same weekday means next week's occurrence.
    assert_eq!(days_until_weekday(2, 2), 7);
}

#[test]
fn banner_weekdays_number_from_monday() {
    assert_eq!(DateBanner::Mon.weekday_number(), Some(0));
    assert_eq!(DateBanner::Sun.weekday_number(), Some(6));
    assert_eq!(DateBanner::Today.weekday_number(), None);
    assert_eq!(DateBanner::default(), DateBanner::Today);
}

#[test]
fn time_periods_span_fixed_days_except_months() {
    assert_eq!(TimePeriod::Week.fixed_days(), Some(7));
    assert_eq!(TimePeriod::TwoWeek.fixed_days(), Some(14));
    assert_eq!(TimePeriod::Month.fixed_days(), None);
    assert_eq!(TimePeriod::default(), TimePeriod::TwoWeek);
}

#[test]
fn acknowledgement_message_has_its_fixed_text() {
    assert_eq!(
        Message::default().message,
        "Print command sent! Check rongta for print-out"
    );
}
