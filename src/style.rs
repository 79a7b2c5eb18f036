use vstd::prelude::*;

verus! {

pub const CLEARV: u8 = 0b0000_0000;
pub const BOLD: u8 = 0b0000_0001;
pub const UNDERLINE: u8 = 0b0000_0010;
pub const REVERSED: u8 = 0b0000_0100;
pub const ITALIC: u8 = 0b0000_1000;
pub const BLINK: u8 = 0b0001_0000;
pub const HIDDEN: u8 = 0b0010_0000;
pub const DIMMED: u8 = 0b0100_0000;
pub const STRIKETHROUGH: u8 = 0b1000_0000;

/// One text attribute. `Clear` stands for "no attribute" and owns no bit.
#[derive(Clone, Copy, PartialEq, Eq, Structural, Debug)]
pub enum Styles {
    Clear,
    Bold,
    Dimmed,
    Underline,
    Reversed,
    Italic,
    Blink,
    Hidden,
    Strikethrough,
}

impl Styles {
    /// The bit that the attribute owns in a mask.
    pub open spec fn bit(self) -> u8 {
        match self {
            Styles::Clear => CLEARV,
            Styles::Bold => BOLD,
            Styles::Underline => UNDERLINE,
            Styles::Reversed => REVERSED,
            Styles::Italic => ITALIC,
            Styles::Blink => BLINK,
            Styles::Hidden => HIDDEN,
            Styles::Dimmed => DIMMED,
            Styles::Strikethrough => STRIKETHROUGH,
        }
    }

    /// The SGR parameter of the attribute, as text.
    pub open spec fn code(self) -> Seq<char> {
        match self {
            Styles::Clear => seq![],
            Styles::Bold => seq!['1'],
            Styles::Dimmed => seq!['2'],
            Styles::Italic => seq!['3'],
            Styles::Underline => seq!['4'],
            Styles::Blink => seq!['5'],
            Styles::Reversed => seq!['7'],
            Styles::Hidden => seq!['8'],
            Styles::Strikethrough => seq!['9'],
        }
    }

    pub fn to_u8(self) -> (r: u8)
        ensures
            r == self.bit(),
    {
        match self {
            Styles::Clear => CLEARV,
            Styles::Bold => BOLD,
            Styles::Underline => UNDERLINE,
            Styles::Reversed => REVERSED,
            Styles::Italic => ITALIC,
            Styles::Blink => BLINK,
            Styles::Hidden => HIDDEN,
            Styles::Dimmed => DIMMED,
            Styles::Strikethrough => STRIKETHROUGH,
        }
    }

    pub fn to_str(self) -> (r: &'static str)
        ensures
            r@ == self.code(),
    {
        proof {
            reveal_strlit("");
            reveal_strlit("1");
            reveal_strlit("2");
            reveal_strlit("3");
            reveal_strlit("4");
            reveal_strlit("5");
            reveal_strlit("7");
            reveal_strlit("8");
            reveal_strlit("9");
        }
        match self {
            Styles::Clear => "",
            Styles::Bold => "1",
            Styles::Dimmed => "2",
            Styles::Italic => "3",
            Styles::Underline => "4",
            Styles::Blink => "5",
            Styles::Reversed => "7",
            Styles::Hidden => "8",
            Styles::Strikethrough => "9",
        }
    }
}

/// The fixed order in which the attributes of a mask are listed; it follows
/// neither the bit values nor the SGR codes.
pub open spec fn declaration_order() -> Seq<Styles> {
    seq![
        Styles::Bold,
        Styles::Dimmed,
        Styles::Underline,
        Styles::Reversed,
        Styles::Italic,
        Styles::Blink,
        Styles::Hidden,
        Styles::Strikethrough,
    ]
}

/// Whether the mask holds the attribute's bit.
pub open spec fn holds(mask: u8, s: Styles) -> bool {
    mask & s.bit() == s.bit()
}

/// The attributes among the first `n` of the declaration order whose bit is set
/// in `mask`, in that order.
pub open spec fn present_prefix(mask: u8, n: nat) -> Seq<Styles>
    decreases n,
{
    if n == 0 {
        seq![]
    } else {
        let rest = present_prefix(mask, (n - 1) as nat);
        let s = declaration_order()[n - 1];
        if mask & s.bit() != 0 {
            rest.push(s)
        } else {
            rest
        }
    }
}

/// The attributes that `mask` holds, in the declaration order.
pub open spec fn attrs_in_order(mask: u8) -> Seq<Styles> {
    present_prefix(mask, 8)
}

/// The codes of `attrs`, joined by `;`.
pub open spec fn joined_codes(attrs: Seq<Styles>) -> Seq<char>
    decreases attrs.len(),
{
    if attrs.len() == 0 {
        seq![]
    } else if attrs.len() == 1 {
        attrs[0].code()
    } else {
        joined_codes(attrs.drop_last()) + seq![';'] + attrs.last().code()
    }
}

/// The SGR parameter list of a mask: the codes of its attributes in the
/// declaration order, joined by `;`; empty for the empty mask.
pub open spec fn mask_params(mask: u8) -> Seq<char> {
    joined_codes(attrs_in_order(mask))
}

/// The entry `i` of the declaration order.
fn order_at(i: usize) -> (s: Styles)
    requires
        i < 8,
    ensures
        s == declaration_order()[i as int],
{
    match i {
        0 => Styles::Bold,
        1 => Styles::Dimmed,
        2 => Styles::Underline,
        3 => Styles::Reversed,
        4 => Styles::Italic,
        5 => Styles::Blink,
        6 => Styles::Hidden,
        _ => Styles::Strikethrough,
    }
}

impl Styles {
    /// The attributes set in `byte`, in the declaration order; `None` where no
    /// bit is set.
    pub fn from_u8(byte: u8) -> (r: Option<Vec<Styles>>)
        ensures
            r is None <==> byte == CLEARV,
            r matches Some(v) ==> v@ == attrs_in_order(byte),
    {
        if byte == Styles::Clear.to_u8() {
            return None;
        }
        let mut res: Vec<Styles> = Vec::new();
        let mut i: usize = 0;
        while i < 8
            invariant
                i <= 8,
                res@ == present_prefix(byte, i as nat),
            decreases 8 - i,
        {
            let s = order_at(i);
            if byte & s.to_u8() != 0 {
                res.push(s);
            }
            i = i + 1;
        }
        proof {
            lemma_nonzero_mask_has_attr(byte);
        }
        if res.len() == 0 {
            None
        } else {
            Some(res)
        }
    }
}

/// A nonzero mask holds at least one attribute.
proof fn lemma_nonzero_mask_has_attr(mask: u8)
    requires
        mask != 0,
    ensures
        attrs_in_order(mask).len() > 0,
{
    reveal_with_fuel(present_prefix, 9);
    assert(mask & 1 != 0 || mask & 64 != 0 || mask & 2 != 0 || mask & 4 != 0 || mask & 8 != 0
        || mask & 16 != 0 || mask & 32 != 0 || mask & 128 != 0) by (bit_vector)
        requires
            mask != 0,
    ;
}

/// The empty mask holds no attribute.
proof fn lemma_empty_mask_has_no_attr()
    ensures
        attrs_in_order(CLEARV) == Seq::<Styles>::empty(),
{
    reveal_with_fuel(present_prefix, 9);
    assert(forall|x: u8| #[trigger] (0u8 & x) == 0) by (bit_vector);
    assert(attrs_in_order(CLEARV) =~= Seq::<Styles>::empty());
}

/// The mask after the attribute's bit is set in it.
pub open spec fn with_attr(mask: u8, s: Styles) -> u8 {
    mask | s.bit()
}

/// A set of attributes, kept as a bitmask of their bits.
#[derive(Clone, Copy, PartialEq, Eq, Structural, Debug)]
pub struct Style(u8);

impl View for Style {
    type V = u8;

    closed spec fn view(&self) -> u8 {
        self.0
    }
}

/// Two sets are the same value exactly when their masks agree.
pub proof fn lemma_view_eq(a: Style, b: Style)
    ensures
        a@ == b@ <==> a == b,
{
}

impl Style {
    /// Whether the set holds the attribute; always true of `Clear`.
    pub fn contains(&self, style: Styles) -> (r: bool)
        ensures
            r == holds(self@, style),
    {
        let style_u8 = style.to_u8();
        self.0 & style_u8 == style_u8
    }

    /// The SGR parameter list of the set: see `mask_params`.
    pub fn to_str(self) -> (r: String)
        ensures
            r@ == mask_params(self@),
    {
        let styles = match Styles::from_u8(self.0) {
            Some(v) => v,
            None => Vec::new(),
        };
        proof {
            if self@ == CLEARV {
                lemma_empty_mask_has_no_attr();
            }
        }
        let mut out = String::new();
        let mut i: usize = 0;
        while i < styles.len()
            invariant
                i <= styles@.len(),
                styles@ == attrs_in_order(self@),
                out@ == joined_codes(styles@.take(i as int)),
            decreases styles@.len() - i,
        {
            let ghost before = styles@.take(i as int);
            if i > 0 {
                proof {
                    reveal_strlit(";");
                }
                out.append(";");
            }
            out.append(styles[i].to_str());
            proof {
                let after = styles@.take(i + 1);
                assert(after.drop_last() =~= before);
                if i == 0 {
                    assert(before.len() == 0);
                }
            }
            i = i + 1;
        }
        proof {
            assert(styles@.take(styles@.len() as int) =~= styles@);
        }
        out
    }

    /// Sets the attribute's bit; adding `Clear` changes nothing.
    pub fn add(&mut self, style: Styles)
        ensures
            final(self)@ == with_attr(old(self)@, style),
    {
        self.0 = self.0 | style.to_u8();
    }
}

impl Default for Style {
    /// The empty set.
    fn default() -> (r: Style)
        ensures
            r@ == CLEARV,
    {
        Style(Styles::Clear.to_u8())
    }
}

/// Every attribute owns either no bit (`Clear`) or exactly one, and no two
/// attributes own the same one.
proof fn lemma_bits_distinct(a: Styles, b: Styles)
    ensures
        a.bit() == 0 || a.bit() == 1 || a.bit() == 2 || a.bit() == 4 || a.bit() == 8
            || a.bit() == 16 || a.bit() == 32 || a.bit() == 64 || a.bit() == 128,
        a.bit() == b.bit() ==> a == b,
{
    match a {
        Styles::Clear => {},
        Styles::Bold => {},
        Styles::Dimmed => {},
        Styles::Underline => {},
        Styles::Reversed => {},
        Styles::Italic => {},
        Styles::Blink => {},
        Styles::Hidden => {},
        Styles::Strikethrough => {},
    }
}

/// Setting one bit leaves every other single bit as it was.
proof fn lemma_other_bit_unchanged(m: u8, x: u8, y: u8)
    by (bit_vector)
    requires
        x == 0 || x == 1 || x == 2 || x == 4 || x == 8 || x == 16 || x == 32 || x == 64
            || x == 128,
        y == 0 || y == 1 || y == 2 || y == 4 || y == 8 || y == 16 || y == 32 || y == 64
            || y == 128,
        x != y,
    ensures
        ((m | x) & y == y) == (m & y == y),
{
}

/// The empty set has an empty parameter list.
pub proof fn lemma_empty_set_params()
    ensures
        mask_params(CLEARV) == Seq::<char>::empty(),
{
    lemma_empty_mask_has_no_attr();
}

/// Adding an attribute twice leaves the same mask as adding it once; from the
/// empty set, the mask is then exactly the attribute's bit.
pub proof fn lemma_add_idempotent(mask: u8, s: Styles)
    ensures
        with_attr(with_attr(mask, s), s) == with_attr(mask, s),
        with_attr(with_attr(CLEARV, s), s) == s.bit(),
{
    let x = s.bit();
    assert((mask | x) | x == mask | x) by (bit_vector);
    assert((0u8 | x) | x == x) by (bit_vector);
}

/// The order in which two attributes are added does not change the mask.
pub proof fn lemma_add_commutes(mask: u8, a: Styles, b: Styles)
    ensures
        with_attr(with_attr(mask, a), b) == with_attr(with_attr(mask, b), a),
{
    let x = a.bit();
    let y = b.bit();
    assert((mask | x) | y == (mask | y) | x) by (bit_vector);
}

/// A set that holds Bold and Underline only lists them as `1;4`, Bold first.
pub proof fn lemma_bold_underline_params()
    ensures
        with_attr(with_attr(CLEARV, Styles::Bold), Styles::Underline) == with_attr(
            with_attr(CLEARV, Styles::Underline),
            Styles::Bold,
        ),
        mask_params(with_attr(with_attr(CLEARV, Styles::Bold), Styles::Underline)) == seq![
            '1',
            ';',
            '4',
        ],
{
    lemma_add_commutes(CLEARV, Styles::Bold, Styles::Underline);
    let m = with_attr(with_attr(CLEARV, Styles::Bold), Styles::Underline);
    assert(m == 3u8) by (bit_vector)
        requires
            m == (0u8 | 1u8) | 2u8,
    ;
    assert(3u8 & 1u8 != 0 && 3u8 & 64u8 == 0 && 3u8 & 2u8 != 0 && 3u8 & 4u8 == 0 && 3u8 & 8u8
        == 0 && 3u8 & 16u8 == 0 && 3u8 & 32u8 == 0 && 3u8 & 128u8 == 0) by (bit_vector);
    reveal_with_fuel(present_prefix, 9);
    assert(attrs_in_order(m) =~= seq![Styles::Bold, Styles::Underline]);
    reveal_with_fuel(joined_codes, 3);
    let attrs = seq![Styles::Bold, Styles::Underline];
    assert(attrs.drop_last() =~= seq![Styles::Bold]);
    assert(mask_params(m) =~= seq!['1', ';', '4']);
}

/// Right after an attribute is added the set holds it; any other attribute is
/// held afterwards exactly when it was held before.
pub proof fn lemma_contains_after_add(mask: u8, a: Styles, b: Styles)
    ensures
        holds(with_attr(mask, a), a),
        holds(with_attr(mask, a), b) <==> (holds(mask, b) || b == a),
{
    let x = a.bit();
    assert((mask | x) & x == x) by (bit_vector);
    lemma_bits_distinct(a, b);
    lemma_bits_distinct(b, a);
    if a != b {
        lemma_other_bit_unchanged(mask, a.bit(), b.bit());
    }
}

/// Nothing but `Clear` is held by the empty set.
pub proof fn lemma_empty_set_holds_nothing(s: Styles)
    ensures
        holds(CLEARV, s) <==> s == Styles::Clear,
{
    lemma_bits_distinct(s, Styles::Clear);
    let x = s.bit();
    assert((0u8 & x == x) <==> x == 0) by (bit_vector);
}

} // verus!
