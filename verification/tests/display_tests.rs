use rongta::display::{heading_style, task_item_prefix};
use rongta::elements::TextSize;

#[test]
fn test_heading_style_h1() {
    let (size, decoration) = heading_style(1);
    assert_eq!(size, TextSize::ExtraLarge);
    assert!(!decoration.bold);
}

#[test]
fn test_heading_style_h2() {
    let (size, decoration) = heading_style(2);
    assert_eq!(size, TextSize::Large);
    assert!(decoration.bold);
}

#[test]
fn test_heading_style_h3() {
    let (size, decoration) = heading_style(3);
    assert_eq!(size, TextSize::Large);
    assert!(!decoration.bold);
}

#[test]
fn test_heading_style_h4_and_beyond() {
    for level in 4..=6 {
        let (size, decoration) = heading_style(level);
        assert_eq!(size, TextSize::Medium);
        assert!(decoration.bold);
    }
}

#[test]
fn test_task_item_prefix_checked() {
    assert_eq!(task_item_prefix(true), "[x] ");
}

#[test]
fn test_task_item_prefix_unchecked() {
    assert_eq!(task_item_prefix(false), "[ ] ");
}
