use vstd::prelude::*;
use crate::color::Color;
use crate::style::{Style, Styles, CLEARV, with_attr, mask_params};

verus! {

/// What a styled value is, as mathematics: its text, its two colors and the
/// mask of its attributes.
pub struct StyledModel {
    pub content: Seq<char>,
    pub foreground: Color,
    pub background: Color,
    pub attrs: u8,
}

impl StyledModel {
    pub open spec fn with_fg(self, c: Color) -> StyledModel {
        StyledModel { foreground: c, ..self }
    }

    pub open spec fn with_bg(self, c: Color) -> StyledModel {
        StyledModel { background: c, ..self }
    }

    pub open spec fn with_style(self, s: Styles) -> StyledModel {
        StyledModel { attrs: with_attr(self.attrs, s), ..self }
    }

    /// The same text with the default colors and no attribute.
    pub open spec fn cleared(self) -> StyledModel {
        default_model(self.content)
    }
}

/// Text with the default styling: white on black, no attribute.
pub open spec fn default_model(content: Seq<char>) -> StyledModel {
    StyledModel {
        content,
        foreground: Color { r: 255, g: 255, b: 255 },
        background: Color { r: 0, g: 0, b: 0 },
        attrs: CLEARV,
    }
}

pub open spec fn digit_char(d: nat) -> char {
    if d == 0 { '0' }
    else if d == 1 { '1' }
    else if d == 2 { '2' }
    else if d == 3 { '3' }
    else if d == 4 { '4' }
    else if d == 5 { '5' }
    else if d == 6 { '6' }
    else if d == 7 { '7' }
    else if d == 8 { '8' }
    else { '9' }
}

/// The decimal digits of `n`, most significant first, with no leading zero.
pub open spec fn decimal(n: nat) -> Seq<char>
    decreases n,
{
    if n < 10 {
        seq![digit_char(n)]
    } else {
        decimal(n / 10) + seq![digit_char(n % 10)]
    }
}

/// The channels of a color as SGR parameters: `r;g;b` in decimal.
pub open spec fn channels(c: Color) -> Seq<char> {
    decimal(c.r as nat) + seq![';'] + decimal(c.g as nat) + seq![';'] + decimal(c.b as nat)
}

/// The truecolor foreground parameters `38;2;r;g;b`.
pub open spec fn fg_params(c: Color) -> Seq<char> {
    seq!['3', '8', ';', '2', ';'] + channels(c)
}

/// The truecolor background parameters `48;2;r;g;b`.
pub open spec fn bg_params(c: Color) -> Seq<char> {
    seq!['4', '8', ';', '2', ';'] + channels(c)
}

/// One SGR sequence: ESC, `[`, the parameters, `m`.
pub open spec fn sgr(params: Seq<char>) -> Seq<char> {
    seq!['\x1b', '['] + params + seq!['m']
}

/// The rendering of a styled value: foreground, background, attributes, the
/// text verbatim, then a single reset.
pub open spec fn render_model(m: StyledModel) -> Seq<char> {
    sgr(fg_params(m.foreground)) + sgr(bg_params(m.background)) + sgr(mask_params(m.attrs))
        + m.content + sgr(seq!['0'])
}

/// The text of one decimal digit.
fn digit_str(d: u8) -> (r: &'static str)
    requires
        d < 10,
    ensures
        r@ == seq![digit_char(d as nat)],
{
    proof {
        reveal_strlit("0");
        reveal_strlit("1");
        reveal_strlit("2");
        reveal_strlit("3");
        reveal_strlit("4");
        reveal_strlit("5");
        reveal_strlit("6");
        reveal_strlit("7");
        reveal_strlit("8");
        reveal_strlit("9");
    }
    match d {
        0 => "0",
        1 => "1",
        2 => "2",
        3 => "3",
        4 => "4",
        5 => "5",
        6 => "6",
        7 => "7",
        8 => "8",
        _ => "9",
    }
}

/// Appends the decimal digits of `n`.
fn push_decimal(out: &mut String, n: u8)
    ensures
        final(out)@ == old(out)@ + decimal(n as nat),
{
    reveal_with_fuel(decimal, 3);
    if n >= 100 {
        out.append(digit_str(n / 100));
        out.append(digit_str(n / 10 % 10));
        out.append(digit_str(n % 10));
        assert(decimal(n as nat) =~= seq![
            digit_char((n / 100) as nat),
            digit_char((n / 10 % 10) as nat),
            digit_char((n % 10) as nat),
        ]);
    } else if n >= 10 {
        out.append(digit_str(n / 10));
        out.append(digit_str(n % 10));
        assert(decimal(n as nat) =~= seq![digit_char((n / 10) as nat), digit_char((n % 10) as nat)]);
    } else {
        out.append(digit_str(n));
    }
}

/// Appends one truecolor SGR sequence: ESC `[`, `lead`, `;2;`, the channels, `m`.
fn push_truecolor(out: &mut String, lead: &str, c: Color)
    ensures
        final(out)@ == old(out)@ + sgr(lead@ + seq![';', '2', ';'] + channels(c)),
{
    proof {
        reveal_strlit("\x1b[");
        reveal_strlit(";2;");
        reveal_strlit(";");
        reveal_strlit("m");
    }
    out.append("\x1b[");
    out.append(lead);
    out.append(";2;");
    push_decimal(out, c.r);
    out.append(";");
    push_decimal(out, c.g);
    out.append(";");
    push_decimal(out, c.b);
    out.append("m");
    assert(final(out)@ =~= old(out)@ + sgr(lead@ + seq![';', '2', ';'] + channels(c)));
}

/// Text together with a foreground color, a background color and a set of
/// attributes.
#[derive(Debug, Clone)]
pub struct StyledContent {
    pub content: String,
    pub foreground: Color,
    pub background: Color,
    pub style: Style,
}

impl View for StyledContent {
    type V = StyledModel;

    open spec fn view(&self) -> StyledModel {
        StyledModel {
            content: self.content@,
            foreground: self.foreground,
            background: self.background,
            attrs: self.style@,
        }
    }
}

impl StyledContent {
    /// Builds the styled value from its four parts.
    pub fn new(foreground: Color, background: Color, content: String, style: Style) -> (r: Self)
        ensures
            r.content@ == content@,
            r.foreground == foreground,
            r.background == background,
            r.style == style,
    {
        StyledContent { content, foreground, background, style }
    }

    pub fn get_content(&self) -> (r: String)
        ensures
            r@ == self.content@,
    {
        self.content.clone()
    }

    pub fn get_fg(&self) -> (r: Color)
        ensures
            r == self.foreground,
    {
        self.foreground
    }

    pub fn get_bg(&self) -> (r: Color)
        ensures
            r == self.background,
    {
        self.background
    }

    pub fn get_style(&self) -> (r: Style)
        ensures
            r == self.style,
    {
        self.style
    }

    /// The attribute sequence followed by the text.
    pub fn styled_content(&self) -> (r: String)
        ensures
            r@ == sgr(mask_params(self.style@)) + self.content@,
    {
        proof {
            reveal_strlit("\x1b[");
            reveal_strlit("m");
        }
        let mut out = String::new();
        out.append("\x1b[");
        out.append(self.style.to_str().as_str());
        out.append("m");
        out.append(self.content.as_str());
        assert(out@ =~= sgr(mask_params(self.style@)) + self.content@);
        out
    }

    /// The escape sequence that shows the text with its colors and attributes.
    pub fn render(&self) -> (r: String)
        ensures
            r@ == render_model(self@),
    {
        proof {
            reveal_strlit("38");
            reveal_strlit("48");
            reveal_strlit("\x1b[0m");
            assert("38"@ =~= seq!['3', '8']);
            assert("48"@ =~= seq!['4', '8']);
        }
        let mut out = String::new();
        push_truecolor(&mut out, "38", self.foreground);
        push_truecolor(&mut out, "48", self.background);
        out.append(self.styled_content().as_str());
        out.append("\x1b[0m");
        assert(out@ =~= render_model(self@));
        out
    }
}

impl Default for StyledContent {
    /// Empty text, white on black, no attribute.
    fn default() -> (r: Self)
        ensures
            r@ == default_model(Seq::<char>::empty()),
    {
        StyledContent {
            content: String::new(),
            foreground: Color { r: 255, g: 255, b: 255 },
            background: Color { r: 0, g: 0, b: 0 },
            style: Style::default(),
        }
    }
}

impl<'a> From<&'a str> for StyledContent {
    /// The text with the default styling.
    fn from(value: &'a str) -> (r: Self)
        ensures
            r@ == default_model(value@),
    {
        StyledContent {
            content: String::from_str(value),
            foreground: Color { r: 255, g: 255, b: 255 },
            background: Color { r: 0, g: 0, b: 0 },
            style: Style::default(),
        }
    }
}

/// A `String` cannot be built in spec code, so `from` is described by the
/// `ensures` of its impl rather than by `from_spec`.
impl<'a> vstd::std_specs::convert::FromSpecImpl<&'a str> for StyledContent {
    open spec fn obeys_from_spec() -> bool {
        false
    }

    open spec fn from_spec(v: &'a str) -> StyledContent {
        arbitrary()
    }
}

impl PartialEq for StyledContent {
    fn eq(&self, other: &StyledContent) -> (r: bool)
        ensures
            r == (self@ == other@),
    {
        proof {
            crate::style::lemma_view_eq(self.style, other.style);
        }
        self.content == other.content && self.foreground == other.foreground && self.background
            == other.background && self.style == other.style
    }
}

impl vstd::std_specs::cmp::PartialEqSpecImpl for StyledContent {
    open spec fn obeys_eq_spec() -> bool {
        true
    }

    open spec fn eq_spec(&self, other: &StyledContent) -> bool {
        self@ == other@
    }
}

/// Fluent styling, offered both by plain text and by a styled value. Plain
/// text is first given the default styling; each operation then changes one
/// part of the value and hands it back.
pub trait Colorize: Sized {
    /// The styled value that an operation starts from.
    spec fn styled_view(&self) -> StyledModel;

    fn fg(self, color: Color) -> (r: StyledContent)
        ensures
            r@ == self.styled_view().with_fg(color),
    ;

    fn bg(self, color: Color) -> (r: StyledContent)
        ensures
            r@ == self.styled_view().with_bg(color),
    ;

    /// Back to the default colors and no attribute; the text stays.
    fn clear(self) -> (r: StyledContent)
        ensures
            r@ == self.styled_view().cleared(),
    ;

    /// The same as `clear`.
    fn normal(self) -> (r: StyledContent)
        ensures
            r@ == self.styled_view().cleared(),
    ;

    /// The same as `reversed`.
    fn reverse(self) -> (r: StyledContent)
        ensures
            r@ == self.styled_view().with_style(Styles::Reversed),
    ;

    fn bold(self) -> (r: StyledContent)
        ensures
            r@ == self.styled_view().with_style(Styles::Bold),
    ;

    fn dimmed(self) -> (r: StyledContent)
        ensures
            r@ == self.styled_view().with_style(Styles::Dimmed),
    ;

    fn italic(self) -> (r: StyledContent)
        ensures
            r@ == self.styled_view().with_style(Styles::Italic),
    ;

    fn underline(self) -> (r: StyledContent)
        ensures
            r@ == self.styled_view().with_style(Styles::Underline),
    ;

    fn blink(self) -> (r: StyledContent)
        ensures
            r@ == self.styled_view().with_style(Styles::Blink),
    ;

    fn reversed(self) -> (r: StyledContent)
        ensures
            r@ == self.styled_view().with_style(Styles::Reversed),
    ;

    fn hidden(self) -> (r: StyledContent)
        ensures
            r@ == self.styled_view().with_style(Styles::Hidden),
    ;

    fn strikethrough(self) -> (r: StyledContent)
        ensures
            r@ == self.styled_view().with_style(Styles::Strikethrough),
    ;
}

impl Colorize for StyledContent {
    open spec fn styled_view(&self) -> StyledModel {
        self@
    }

    fn fg(self, color: Color) -> (r: StyledContent) {
        let mut s = self;
        s.foreground = color;
        s
    }

    fn bg(self, color: Color) -> (r: StyledContent) {
        let mut s = self;
        s.background = color;
        s
    }

    fn clear(self) -> (r: StyledContent) {
        StyledContent { content: self.content, ..Default::default() }
    }

    fn normal(self) -> (r: StyledContent) {
        self.clear()
    }

    fn reverse(self) -> (r: StyledContent) {
        self.reversed()
    }

    fn bold(self) -> (r: StyledContent) {
        let mut s = self;
        s.style.add(Styles::Bold);
        s
    }

    fn dimmed(self) -> (r: StyledContent) {
        let mut s = self;
        s.style.add(Styles::Dimmed);
        s
    }

    fn italic(self) -> (r: StyledContent) {
        let mut s = self;
        s.style.add(Styles::Italic);
        s
    }

    fn underline(self) -> (r: StyledContent) {
        let mut s = self;
        s.style.add(Styles::Underline);
        s
    }

    fn blink(self) -> (r: StyledContent) {
        let mut s = self;
        s.style.add(Styles::Blink);
        s
    }

    fn reversed(self) -> (r: StyledContent) {
        let mut s = self;
        s.style.add(Styles::Reversed);
        s
    }

    fn hidden(self) -> (r: StyledContent) {
        let mut s = self;
        s.style.add(Styles::Hidden);
        s
    }

    fn strikethrough(self) -> (r: StyledContent) {
        let mut s = self;
        s.style.add(Styles::Strikethrough);
        s
    }
}

impl<'a> Colorize for &'a str {
    open spec fn styled_view(&self) -> StyledModel {
        default_model(self@)
    }

    fn fg(self, color: Color) -> (r: StyledContent) {
        StyledContent { foreground: color, ..StyledContent::from(self) }
    }

    fn bg(self, color: Color) -> (r: StyledContent) {
        StyledContent { background: color, ..StyledContent::from(self) }
    }

    fn clear(self) -> (r: StyledContent) {
        StyledContent::from(self)
    }

    fn normal(self) -> (r: StyledContent) {
        self.clear()
    }

    fn reverse(self) -> (r: StyledContent) {
        StyledContent::from(self).reverse()
    }

    fn bold(self) -> (r: StyledContent) {
        StyledContent::from(self).bold()
    }

    fn dimmed(self) -> (r: StyledContent) {
        StyledContent::from(self).dimmed()
    }

    fn italic(self) -> (r: StyledContent) {
        StyledContent::from(self).italic()
    }

    fn underline(self) -> (r: StyledContent) {
        StyledContent::from(self).underline()
    }

    fn blink(self) -> (r: StyledContent) {
        StyledContent::from(self).blink()
    }

    fn reversed(self) -> (r: StyledContent) {
        StyledContent::from(self).reversed()
    }

    fn hidden(self) -> (r: StyledContent) {
        StyledContent::from(self).hidden()
    }

    fn strikethrough(self) -> (r: StyledContent) {
        StyledContent::from(self).strikethrough()
    }
}

/// Whether `part` occurs in `whole` as a contiguous run.
pub open spec fn is_infix(part: Seq<char>, whole: Seq<char>) -> bool {
    exists|i: int|
        0 <= i && i + part.len() <= whole.len() && #[trigger] whole.subrange(i, i + part.len())
            == part
}

/// A rendering holds `38;2;r;g;b` with the foreground's channels in decimal.
pub proof fn lemma_render_shows_foreground(m: StyledModel)
    ensures
        is_infix(fg_params(m.foreground), render_model(m)),
{
    let part = fg_params(m.foreground);
    let whole = render_model(m);
    assert(whole.subrange(2, 2 + part.len() as int) =~= part);
}

/// A rendering holds `48;2;r;g;b` with the background's channels in decimal.
pub proof fn lemma_render_shows_background(m: StyledModel)
    ensures
        is_infix(bg_params(m.background), render_model(m)),
{
    let part = bg_params(m.background);
    let whole = render_model(m);
    let i: int = sgr(fg_params(m.foreground)).len() as int + 2;
    assert(whole.subrange(i, i + part.len()) =~= part);
}

/// The decimal text of a number starts with `0` only for zero itself.
pub proof fn lemma_decimal_unpadded(n: nat)
    ensures
        decimal(n).len() > 0,
        decimal(n)[0] == '0' ==> n == 0,
    decreases n,
{
    if n >= 10 {
        lemma_decimal_unpadded(n / 10);
    }
}

/// Clearing a styled value gives what plain text with the same content gives
/// by default: white on black, no attribute.
pub proof fn lemma_clear_is_from(sc: StyledContent, text: &str)
    requires
        sc.content@ == text@,
    ensures
        sc.styled_view().cleared() == text.styled_view(),
        text.styled_view() == default_model(sc.content@),
{
}

} // verus!
