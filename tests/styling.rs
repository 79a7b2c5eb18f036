use rgb_style::color::Color;
use rgb_style::style::{Style, Styles};
use rgb_style::styled::{Colorize, StyledContent};

#[test]
fn create_color() {
    let color_1 = Color::new(255, 120, 5);
    assert_eq!(
        color_1,
        Color {
            r: 255,
            g: 120,
            b: 5
        }
    );
}

#[test]
fn style_print_styled() {
    let expected = format!("\x1b[1m{}\u{001b}[0m", "TEST");
    println!("{}", expected);
    let styled = "TEST".bold();
    assert_eq!(styled.styled_content() + "\u{1b}[0m", expected);
}

#[test]
fn styled_print_styled() {
    let styled = StyledContent::new(
        Color { r: 255, g: 0, b: 0 },
        Color { r: 0, g: 0, b: 200 },
        "test".to_string(),
        Style::default(),
    );
    println!("{}", styled.render());
    assert_eq!(
        styled.render(),
        "\x1b[38;2;255;0;0m\x1b[48;2;0;0;200m\x1b[mtest\x1b[0m"
    );
}

#[test]
fn styled_bg_fg_functionality() {
    let text_str = "wow";
    let text_string = "wow".to_string();
    let mut st_ct = StyledContent::default();
    st_ct.style.add(Styles::Underline);
    st_ct.style.add(Styles::Bold);
    st_ct.content = String::from("TESTTT");
    println!(
        "{}, {}, {}",
        text_str
            .bg(Color {
                r: 255,
                ..Default::default()
            })
            .render(),
        text_string
            .fg(Color {
                g: 255,
                ..Default::default()
            })
            .render(),
        st_ct.fg(Color { r: 0, g: 0, b: 255 }).render()
    );

    assert_eq!(
        text_str.fg(Color::default()),
        text_string.fg(Color::default())
    );
}

#[test]
fn testy_style() {
    let test = "testy"
        .fg(Color {
            r: 255,
            b: 120,
            g: 0,
        })
        .bold()
        .strikethrough()
        .dimmed()
        .underline();

    println!("{}", test.render());
    assert_eq!(
        test.render(),
        "\x1b[38;2;255;0;120m\x1b[48;2;0;0;0m\x1b[1;2;4;9mtesty\x1b[0m"
    );
    let cleared = test.clear();
    println!("{}", cleared.render());
    assert_eq!(cleared, StyledContent::from("testy"));
}
