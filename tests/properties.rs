use rgb_style::color::Color;
use rgb_style::style::{Style, Styles, BOLD, UNDERLINE};
use rgb_style::styled::{Colorize, StyledContent};

const ALL: [Styles; 9] = [
    Styles::Clear,
    Styles::Bold,
    Styles::Dimmed,
    Styles::Underline,
    Styles::Reversed,
    Styles::Italic,
    Styles::Blink,
    Styles::Hidden,
    Styles::Strikethrough,
];

#[test]
fn render_holds_foreground_channels() {
    for c in [Color::new(0, 0, 0), Color::new(7, 42, 255), Color::new(100, 10, 1)] {
        let s = "x".fg(c).render();
        assert!(s.contains(&format!("38;2;{};{};{}", c.r, c.g, c.b)));
    }
}

#[test]
fn render_holds_background_channels() {
    for c in [Color::new(0, 0, 0), Color::new(7, 42, 255), Color::new(100, 10, 1)] {
        let s = "x".bg(c).render();
        assert!(s.contains(&format!("48;2;{};{};{}", c.r, c.g, c.b)));
    }
}

#[test]
fn channels_are_not_padded() {
    let s = "".fg(Color::new(5, 50, 200)).bg(Color::new(0, 9, 10)).render();
    assert_eq!(s, "\x1b[38;2;5;50;200m\x1b[48;2;0;9;10m\x1b[m\x1b[0m");
}

#[test]
fn empty_set_has_empty_params() {
    assert_eq!(Style::default().to_str(), "");
}

#[test]
fn adding_twice_is_adding_once() {
    let mut once = Style::default();
    once.add(Styles::Bold);
    let mut twice = Style::default();
    twice.add(Styles::Bold);
    twice.add(Styles::Bold);
    assert_eq!(once, twice);
    assert_eq!(twice.to_str(), "1");
    for s in ALL {
        assert_eq!(twice.contains(s), s == Styles::Bold || s == Styles::Clear);
    }
}

#[test]
fn bold_and_underline_in_either_order() {
    let mut a = Style::default();
    a.add(Styles::Bold);
    a.add(Styles::Underline);
    let mut b = Style::default();
    b.add(Styles::Underline);
    b.add(Styles::Bold);
    assert_eq!(a, b);
    assert_eq!(a.to_str(), "1;4");
    assert_eq!(b.to_str(), "1;4");
}

#[test]
fn contains_only_what_was_added() {
    for a in ALL {
        let mut set = Style::default();
        set.add(a);
        assert!(set.contains(a));
        for b in ALL {
            assert_eq!(set.contains(b), b == a || b == Styles::Clear);
        }
    }
}

#[test]
fn clear_gives_default_styling() {
    let sc = StyledContent::new(
        Color::new(1, 2, 3),
        Color::new(4, 5, 6),
        "X".to_string(),
        Style::default(),
    )
    .italic()
    .hidden();
    assert_eq!(sc.clone().clear(), StyledContent::from("X"));
    assert_eq!(sc.normal(), StyledContent::from("X"));
    assert_eq!("X".clear(), StyledContent::from("X"));
    assert_eq!("X".normal(), StyledContent::from("X"));
}

#[test]
fn end_to_end_red_on_blue_bold() {
    let s = "hi"
        .fg(Color::new(255, 0, 0))
        .bg(Color::new(0, 0, 200))
        .bold()
        .render();
    assert_eq!(s, "\x1b[38;2;255;0;0m\x1b[48;2;0;0;200m\x1b[1mhi\x1b[0m");
}

#[test]
fn end_to_end_default() {
    assert_eq!(
        StyledContent::default().render(),
        "\x1b[38;2;255;255;255m\x1b[48;2;0;0;0m\x1b[m\x1b[0m"
    );
}

#[test]
fn every_attribute_in_declaration_order() {
    let mut set = Style::default();
    for s in ALL {
        set.add(s);
    }
    assert_eq!(set.to_str(), "1;2;4;7;3;5;8;9");
    assert_eq!(
        Styles::from_u8(0xff),
        Some(vec![
            Styles::Bold,
            Styles::Dimmed,
            Styles::Underline,
            Styles::Reversed,
            Styles::Italic,
            Styles::Blink,
            Styles::Hidden,
            Styles::Strikethrough,
        ])
    );
}

#[test]
fn from_u8_of_zero_is_none() {
    assert_eq!(Styles::from_u8(0), None);
    assert_eq!(Styles::from_u8(BOLD | UNDERLINE), Some(vec![Styles::Bold, Styles::Underline]));
}

#[test]
fn bits_and_codes() {
    let bits: Vec<u8> = ALL.iter().map(|s| s.to_u8()).collect();
    assert_eq!(bits, vec![0, 1, 64, 2, 4, 8, 16, 32, 128]);
    let codes: Vec<&str> = ALL.iter().map(|s| s.to_str()).collect();
    assert_eq!(codes, vec!["", "1", "2", "4", "7", "3", "5", "8", "9"]);
}

#[test]
fn each_fluent_attribute() {
    assert_eq!("a".bold().style.to_str(), "1");
    assert_eq!("a".dimmed().style.to_str(), "2");
    assert_eq!("a".italic().style.to_str(), "3");
    assert_eq!("a".underline().style.to_str(), "4");
    assert_eq!("a".blink().style.to_str(), "5");
    assert_eq!("a".reversed().style.to_str(), "7");
    assert_eq!("a".reverse().style.to_str(), "7");
    assert_eq!("a".hidden().style.to_str(), "8");
    assert_eq!("a".strikethrough().style.to_str(), "9");
    let sc = StyledContent::from("a");
    assert_eq!(sc.clone().reverse(), sc.clone().reversed());
    assert_eq!(sc.clone().blink().strikethrough().style.to_str(), "5;9");
}

#[test]
fn accessors_and_styled_content() {
    let mut style = Style::default();
    style.add(Styles::Hidden);
    let sc = StyledContent::new(Color::new(9, 8, 7), Color::new(6, 5, 4), "body".to_string(), style);
    assert_eq!(sc.get_content(), "body");
    assert_eq!(sc.get_fg(), Color::new(9, 8, 7));
    assert_eq!(sc.get_bg(), Color::new(6, 5, 4));
    assert_eq!(sc.get_style(), style);
    assert_eq!(sc.styled_content(), "\x1b[8mbody");
    assert_ne!(sc, StyledContent::from("body"));
}

#[test]
fn fluent_on_plain_text_starts_from_default() {
    let from_text = "hello".bold();
    let from_value = StyledContent::from("hello").bold();
    assert_eq!(from_text, from_value);
    assert_eq!(from_text.foreground, Color::new(255, 255, 255));
    assert_eq!(from_text.background, Color::default());
}
