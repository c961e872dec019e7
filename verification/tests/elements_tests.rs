use rongta::elements::{FormatState, Justify, StyledChar, TextDecoration, TextSize};

#[test]
fn medium_has_width_1() {
    assert_eq!(TextSize::Medium.char_width(), 1);
}

#[test]
fn large_has_width_2() {
    assert_eq!(TextSize::Large.char_width(), 2);
}

#[test]
fn extra_large_has_width_3() {
    assert_eq!(TextSize::ExtraLarge.char_width(), 3);
}

#[test]
fn default_is_medium() {
    assert_eq!(TextSize::default(), TextSize::Medium);
}

#[test]
fn default_has_no_decorations() {
    let decoration = TextDecoration::default();
    assert!(!decoration.bold);
    assert!(!decoration.underline);
    assert!(!decoration.italic);
}

#[test]
fn can_set_bold() {
    let decoration = TextDecoration {
        bold: true,
        ..Default::default()
    };
    assert!(decoration.bold);
    assert!(!decoration.underline);
}

#[test]
fn can_set_multiple_decorations() {
    let decoration = TextDecoration {
        bold: true,
        underline: true,
        italic: false,
    };
    assert!(decoration.bold);
    assert!(decoration.underline);
    assert!(!decoration.italic);
}

#[test]
fn default_is_left() {
    assert_eq!(Justify::default(), Justify::Left);
}

#[test]
fn variants_are_distinct() {
    assert_ne!(Justify::Left, Justify::Center);
    assert_ne!(Justify::Center, Justify::Right);
    assert_ne!(Justify::Left, Justify::Right);
}

#[test]
fn default_has_medium_size_and_no_decoration() {
    let state = FormatState::default();
    assert_eq!(state.text_size, TextSize::Medium);
    assert_eq!(state.text_decoration, TextDecoration::default());
}

#[test]
fn can_construct_with_custom_values() {
    let state = FormatState {
        text_size: TextSize::Large,
        text_decoration: TextDecoration {
            bold: true,
            underline: false,
            italic: false,
        },
    };
    assert_eq!(state.text_size, TextSize::Large);
    assert!(state.text_decoration.bold);
}

#[test]
fn can_construct_with_char_and_state() {
    let styled = StyledChar {
        ch: 'A',
        state: FormatState::default(),
    };
    assert_eq!(styled.ch, 'A');
}

#[test]
fn preserves_format_state() {
    let state = FormatState {
        text_size: TextSize::ExtraLarge,
        text_decoration: TextDecoration {
            bold: true,
            underline: true,
            italic: false,
        },
    };
    let styled = StyledChar { ch: 'X', state };
    assert_eq!(styled.state.text_size, TextSize::ExtraLarge);
    assert!(styled.state.text_decoration.bold);
    assert!(styled.state.text_decoration.underline);
}

#[test]
fn can_clone() {
    let styled = StyledChar {
        ch: 'Z',
        state: FormatState {
            text_size: TextSize::Large,
            text_decoration: TextDecoration::default(),
        },
    };
    let cloned = styled.clone();
    assert_eq!(cloned.ch, styled.ch);
    assert_eq!(cloned.state, styled.state);
}
