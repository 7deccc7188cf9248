//! Colors, style flags and the table of highlight definitions that Neovim
//! sends with `hl_attr_define` and `default_colors_set`.

use std::collections::HashMap;
use vstd::prelude::*;

verus! {

broadcast use vstd::std_specs::hash::group_hash_axioms;

/// RGBA color packed into 32 bits as `0xRRGGBBAA`.
#[derive(Debug, Clone, Copy, PartialEq, Eq, Structural, Hash)]
pub struct Color(pub u32);

/// The packed value of a color built from three channels with an opaque alpha.
pub open spec fn rgb_bits(r: u8, g: u8, b: u8) -> u32 {
    (r as int * 0x100_0000 + g as int * 0x1_0000 + b as int * 0x100 + 0xFF) as u32
}

impl Color {
    /// The red channel of the packed value.
    pub open spec fn red(self) -> u8 {
        (self.0 / 0x100_0000) as u8
    }

    /// The green channel of the packed value.
    pub open spec fn green(self) -> u8 {
        (self.0 / 0x1_0000 % 0x100) as u8
    }

    /// The blue channel of the packed value.
    pub open spec fn blue(self) -> u8 {
        (self.0 / 0x100 % 0x100) as u8
    }

    /// The alpha channel of the packed value.
    pub open spec fn alpha(self) -> u8 {
        (self.0 % 0x100) as u8
    }

    /// Creates an opaque color from its red, green and blue channels.
    pub fn from_rgb(r: u8, g: u8, b: u8) -> (c: Self)
        ensures
            c.0 == rgb_bits(r, g, b),
            c.red() == r,
            c.green() == g,
            c.blue() == b,
            c.alpha() == 0xFF,
    {
        let v: u32 = ((r as u32) << 24u32) | ((g as u32) << 16u32) | ((b as u32) << 8u32) | 0xFFu32;
        assert(v == (r as u32) * 0x100_0000u32 + (g as u32) * 0x1_0000u32 + (b as u32) * 0x100u32
            + 0xFFu32) by (bit_vector)
            requires
                v == ((r as u32) << 24u32) | ((g as u32) << 16u32) | ((b as u32) << 8u32) | 0xFFu32,
        ;
        Color(v)
    }

    /// Creates an opaque color from a 24-bit `0xRRGGBB` value, as Neovim sends
    /// them; bits above the low 24 are ignored.
    pub fn from_u24(rgb: u32) -> (c: Self)
        ensures
            c.0 == rgb_bits((rgb / 0x1_0000 % 0x100) as u8, (rgb / 0x100 % 0x100) as u8, (rgb % 0x100) as u8),
            c.0 == (rgb % 0x100_0000) * 0x100 + 0xFF,
    {
        let r: u8 = ((rgb >> 16u32) & 0xFFu32) as u8;
        let g: u8 = ((rgb >> 8u32) & 0xFFu32) as u8;
        let b: u8 = (rgb & 0xFFu32) as u8;
        assert(((rgb >> 16u32) & 0xFFu32) == rgb / 0x1_0000 % 0x100) by (bit_vector);
        assert(((rgb >> 8u32) & 0xFFu32) == rgb / 0x100 % 0x100) by (bit_vector);
        assert((rgb & 0xFFu32) == rgb % 0x100) by (bit_vector);
        assert((rgb / 0x1_0000 % 0x100) * 0x1_0000 + (rgb / 0x100 % 0x100) * 0x100 + rgb % 0x100
            == rgb % 0x100_0000) by (nonlinear_arith);
        Self::from_rgb(r, g, b)
    }

    /// Returns the red component.
    pub fn r(self) -> (v: u8)
        ensures
            v == self.red(),
    {
        let x: u32 = self.0;
        assert((x >> 24u32) & 0xFFu32 == x / 0x100_0000) by (bit_vector);
        ((self.0 >> 24u32) & 0xFFu32) as u8
    }

    /// Returns the green component.
    pub fn g(self) -> (v: u8)
        ensures
            v == self.green(),
    {
        let x: u32 = self.0;
        assert((x >> 16u32) & 0xFFu32 == x / 0x1_0000 % 0x100) by (bit_vector);
        ((self.0 >> 16u32) & 0xFFu32) as u8
    }

    /// Returns the blue component.
    pub fn b(self) -> (v: u8)
        ensures
            v == self.blue(),
    {
        let x: u32 = self.0;
        assert((x >> 8u32) & 0xFFu32 == x / 0x100 % 0x100) by (bit_vector);
        ((self.0 >> 8u32) & 0xFFu32) as u8
    }

    /// Returns the alpha component.
    pub fn a(self) -> (v: u8)
        ensures
            v == self.alpha(),
    {
        let x: u32 = self.0;
        assert(x & 0xFFu32 == x % 0x100) by (bit_vector);
        (self.0 & 0xFFu32) as u8
    }
}


/// Set of style attributes of a highlight, one bit per attribute.
#[derive(Debug, Clone, Copy, PartialEq, Eq, Structural, Hash)]
pub struct StyleFlags(pub u16);

impl StyleFlags {
    /// The attribute for bold text.
    pub fn bold() -> (f: Self)
        ensures
            f.spec_bits() == 0x001,
    {
        StyleFlags(0x001)
    }

    /// The attribute for italic text.
    pub fn italic() -> (f: Self)
        ensures
            f.spec_bits() == 0x002,
    {
        StyleFlags(0x002)
    }

    /// The attribute for a single underline.
    pub fn underline() -> (f: Self)
        ensures
            f.spec_bits() == 0x004,
    {
        StyleFlags(0x004)
    }

    /// The attribute for a curly underline.
    pub fn undercurl() -> (f: Self)
        ensures
            f.spec_bits() == 0x008,
    {
        StyleFlags(0x008)
    }

    /// The attribute for a double underline.
    pub fn underdouble() -> (f: Self)
        ensures
            f.spec_bits() == 0x010,
    {
        StyleFlags(0x010)
    }

    /// The attribute for a dotted underline.
    pub fn underdotted() -> (f: Self)
        ensures
            f.spec_bits() == 0x020,
    {
        StyleFlags(0x020)
    }

    /// The attribute for a dashed underline.
    pub fn underdashed() -> (f: Self)
        ensures
            f.spec_bits() == 0x040,
    {
        StyleFlags(0x040)
    }

    /// The attribute for a line through the text.
    pub fn strikethrough() -> (f: Self)
        ensures
            f.spec_bits() == 0x080,
    {
        StyleFlags(0x080)
    }

    /// The attribute for swapped foreground and background.
    pub fn reverse() -> (f: Self)
        ensures
            f.spec_bits() == 0x100,
    {
        StyleFlags(0x100)
    }

    /// The attribute for the alternate font.
    pub fn altfont() -> (f: Self)
        ensures
            f.spec_bits() == 0x200,
    {
        StyleFlags(0x200)
    }


    /// The mask of all defined attribute bits.
    pub open spec fn all_bits() -> u16 {
        0x3FF
    }

    /// The raw bits of the set.
    pub open spec fn spec_bits(self) -> u16 {
        self.0
    }

    /// Every bit of `other` is in `self`.
    pub open spec fn has(self, other: StyleFlags) -> bool {
        self.spec_bits() & other.spec_bits() == other.spec_bits()
    }

    /// Returns the raw bits.
    pub fn bits(&self) -> (b: u16)
        ensures
            b == self.spec_bits(),
    {
        self.0
    }

    /// The set without any attribute.
    pub fn empty() -> (f: Self)
        ensures
            f.spec_bits() == 0,
    {
        StyleFlags(0)
    }

    /// Builds a set from raw bits, dropping the bits that name no attribute.
    pub fn from_bits_truncate(bits: u16) -> (f: Self)
        ensures
            f.spec_bits() == bits & Self::all_bits(),
    {
        StyleFlags(bits & 0x3FFu16)
    }

    /// Returns true when no attribute is set.
    pub fn is_empty(&self) -> (b: bool)
        ensures
            b == (self.spec_bits() == 0),
    {
        self.0 == 0
    }

    /// Returns true when every attribute of `other` is set in `self`.
    pub fn contains(&self, other: StyleFlags) -> (b: bool)
        ensures
            b == self.has(other),
    {
        self.0 & other.0 == other.0
    }

    /// The set of attributes in either set.
    pub fn union(self, other: StyleFlags) -> (f: Self)
        ensures
            f.spec_bits() == self.spec_bits() | other.spec_bits(),
    {
        StyleFlags(self.0 | other.0)
    }

    /// Adds the attributes of `other`.
    pub fn insert(&mut self, other: StyleFlags)
        ensures
            final(self).spec_bits() == old(self).spec_bits() | other.spec_bits(),
    {
        self.0 = self.0 | other.0;
    }

    /// Adds or removes the attributes of `other`.
    pub fn set(&mut self, other: StyleFlags, value: bool)
        ensures
            value ==> final(self).spec_bits() == old(self).spec_bits() | other.spec_bits(),
            !value ==> final(self).spec_bits() == old(self).spec_bits() & !other.spec_bits(),
    {
        if value {
            self.0 = self.0 | other.0;
        } else {
            self.0 = self.0 & !other.0;
        }
    }
}


impl core::ops::BitOr for StyleFlags {
    type Output = StyleFlags;

    fn bitor(self, rhs: StyleFlags) -> (f: StyleFlags) {
        StyleFlags(self.0 | rhs.0)
    }
}

impl vstd::std_specs::ops::BitOrSpecImpl for StyleFlags {
    open spec fn obeys_bitor_spec() -> bool {
        true
    }

    open spec fn bitor_req(self, rhs: StyleFlags) -> bool {
        true
    }

    open spec fn bitor_spec(self, rhs: StyleFlags) -> StyleFlags {
        self.union_spec(rhs)
    }
}

impl StyleFlags {
    /// The set of attributes in either set.
    pub open spec fn union_spec(self, rhs: StyleFlags) -> StyleFlags {
        StyleFlags(self.0 | rhs.0)
    }

}

/// Underline style derived from the style flags.
#[derive(Debug, Clone, Copy, PartialEq, Eq, Structural)]
pub enum UnderlineStyle {
    NoUnderline,
    Single,
    Double,
    Curl,
    Dotted,
    Dashed,
}

/// The underline that a set of style flags asks for; a curly underline wins
/// over a double one, which wins over dotted, dashed and single in that order.
pub open spec fn underline_of(flags: StyleFlags) -> UnderlineStyle {
    if flags.spec_bits() & 0x008 == 0x008 {
        UnderlineStyle::Curl
    } else if flags.spec_bits() & 0x010 == 0x010 {
        UnderlineStyle::Double
    } else if flags.spec_bits() & 0x020 == 0x020 {
        UnderlineStyle::Dotted
    } else if flags.spec_bits() & 0x040 == 0x040 {
        UnderlineStyle::Dashed
    } else if flags.spec_bits() & 0x004 == 0x004 {
        UnderlineStyle::Single
    } else {
        UnderlineStyle::NoUnderline
    }
}

impl From<StyleFlags> for UnderlineStyle {
    fn from(flags: StyleFlags) -> (u: Self) {
        if flags.contains(StyleFlags::undercurl()) {
            UnderlineStyle::Curl
        } else if flags.contains(StyleFlags::underdouble()) {
            UnderlineStyle::Double
        } else if flags.contains(StyleFlags::underdotted()) {
            UnderlineStyle::Dotted
        } else if flags.contains(StyleFlags::underdashed()) {
            UnderlineStyle::Dashed
        } else if flags.contains(StyleFlags::underline()) {
            UnderlineStyle::Single
        } else {
            UnderlineStyle::NoUnderline
        }
    }
}

impl vstd::std_specs::convert::FromSpecImpl<StyleFlags> for UnderlineStyle {
    open spec fn obeys_from_spec() -> bool {
        true
    }

    open spec fn from_spec(v: StyleFlags) -> UnderlineStyle {
        underline_of(v)
    }
}

/// Highlight attributes as defined by Neovim's `hl_attr_define` event.
#[derive(Debug, PartialEq, Eq)]
pub struct HighlightAttributes {
    /// Foreground color (`None` means the default one).
    pub foreground: Option<Color>,
    /// Background color (`None` means the default one).
    pub background: Option<Color>,
    /// Color of underlines (`None` means the foreground).
    pub special: Option<Color>,
    /// Style flags.
    pub style: StyleFlags,
    /// Blend level (0-100) for transparency.
    pub blend: u8,
    /// URL of a clickable hyperlink.
    pub url: Option<String>,
}

/// `o`'s color if there is one, else `d`.
pub open spec fn color_or(o: Option<Color>, d: Color) -> Color {
    match o {
        Some(c) => c,
        None => d,
    }
}

impl HighlightAttributes {
    /// Attributes with no color, no style, no blend and no URL.
    pub open spec fn plain() -> HighlightAttributes {
        HighlightAttributes {
            foreground: None,
            background: None,
            special: None,
            style: StyleFlags(0),
            blend: 0,
            url: None,
        }
    }

    /// The reverse attribute is set.
    pub open spec fn reversed(self) -> bool {
        self.style.spec_bits() & 0x100 == 0x100
    }

    /// Creates attributes with nothing set.
    pub fn new() -> (a: Self)
        ensures
            a == Self::plain(),
    {
        HighlightAttributes {
            foreground: None,
            background: None,
            special: None,
            style: StyleFlags::empty(),
            blend: 0,
            url: None,
        }
    }

    /// Foreground to draw with: the background instead when reversed, and
    /// the default color where none is set.
    pub fn effective_fg(&self, defaults: &DefaultColors) -> (c: Color)
        ensures
            c == if self.reversed() {
                color_or(self.background, defaults.background)
            } else {
                color_or(self.foreground, defaults.foreground)
            },
    {
        if self.style.contains(StyleFlags::reverse()) {
            match self.background {
                Some(c) => c,
                None => defaults.background,
            }
        } else {
            match self.foreground {
                Some(c) => c,
                None => defaults.foreground,
            }
        }
    }

    /// Background to draw with: the foreground instead when reversed, and
    /// the default color where none is set.
    pub fn effective_bg(&self, defaults: &DefaultColors) -> (c: Color)
        ensures
            c == if self.reversed() {
                color_or(self.foreground, defaults.foreground)
            } else {
                color_or(self.background, defaults.background)
            },
    {
        if self.style.contains(StyleFlags::reverse()) {
            match self.foreground {
                Some(c) => c,
                None => defaults.foreground,
            }
        } else {
            match self.background {
                Some(c) => c,
                None => defaults.background,
            }
        }
    }

    /// Color for underlines: the special color, else the foreground, else the
    /// default special color.
    pub fn effective_special(&self, defaults: &DefaultColors) -> (c: Color)
        ensures
            c == match self.special {
                Some(s) => s,
                None => color_or(self.foreground, defaults.special),
            },
    {
        match self.special {
            Some(s) => s,
            None => match self.foreground {
                Some(f) => f,
                None => defaults.special,
            },
        }
    }

    /// Returns the underline style.
    pub fn underline_style(&self) -> (u: UnderlineStyle)
        ensures
            u == underline_of(self.style),
    {
        UnderlineStyle::from(self.style)
    }

    /// Returns true if the text should be bold.
    pub fn is_bold(&self) -> (b: bool)
        ensures
            b == (self.style.spec_bits() & 0x001 == 0x001),
    {
        self.style.contains(StyleFlags::bold())
    }

    /// Returns true if the text should be italic.
    pub fn is_italic(&self) -> (b: bool)
        ensures
            b == (self.style.spec_bits() & 0x002 == 0x002),
    {
        self.style.contains(StyleFlags::italic())
    }

    /// Returns true if the text has strikethrough.
    pub fn has_strikethrough(&self) -> (b: bool)
        ensures
            b == (self.style.spec_bits() & 0x080 == 0x080),
    {
        self.style.contains(StyleFlags::strikethrough())
    }
}

impl Clone for HighlightAttributes {
    fn clone(&self) -> (c: Self)
        ensures
            c == *self,
    {
        HighlightAttributes {
            foreground: self.foreground,
            background: self.background,
            special: self.special,
            style: self.style,
            blend: self.blend,
            url: match &self.url {
                Some(u) => Some(u.clone()),
                None => None,
            },
        }
    }
}

impl Default for HighlightAttributes {
    fn default() -> (a: Self)
        ensures
            a == Self::plain(),
    {
        Self::new()
    }
}

/// Default colors as defined by Neovim's `default_colors_set` event.
#[derive(Debug, Clone, Copy, PartialEq, Eq, Structural)]
pub struct DefaultColors {
    pub foreground: Color,
    pub background: Color,
    pub special: Color,
}

impl DefaultColors {
    /// The colors used before Neovim sets any: light gray on dark gray, with a
    /// gray special color.
    pub open spec fn initial() -> DefaultColors {
        DefaultColors {
            foreground: Color(rgb_bits(0xD4, 0xD4, 0xD4)),
            background: Color(rgb_bits(0x1E, 0x1E, 0x1E)),
            special: Color(rgb_bits(0xAE, 0xAF, 0xAD)),
        }
    }
}

impl Default for DefaultColors {
    fn default() -> (d: Self)
        ensures
            d == Self::initial(),
    {
        DefaultColors {
            foreground: Color::from_rgb(0xD4, 0xD4, 0xD4),
            background: Color::from_rgb(0x1E, 0x1E, 0x1E),
            special: Color::from_rgb(0xAE, 0xAF, 0xAD),
        }
    }
}

/// The attributes that a table of definitions gives for an id: ID 0 and ids
/// never defined have no attribute set.
pub open spec fn lookup_highlight(defs: Map<u64, HighlightAttributes>, id: u64) -> HighlightAttributes {
    if id != 0 && defs.contains_key(id) {
        defs[id]
    } else {
        HighlightAttributes::plain()
    }
}

/// The table of definitions after defining `id`; ID 0 is reserved and never
/// stored.
pub open spec fn define_highlight(
    defs: Map<u64, HighlightAttributes>,
    id: u64,
    attrs: HighlightAttributes,
) -> Map<u64, HighlightAttributes> {
    if id == 0 {
        defs
    } else {
        defs.insert(id, attrs)
    }
}

/// Map of highlight ids to their attributes.
#[derive(Debug)]
pub struct HighlightMap {
    attributes: HashMap<u64, HighlightAttributes>,
    plain: HighlightAttributes,
    pub defaults: DefaultColors,
}

impl View for HighlightMap {
    type V = Map<u64, HighlightAttributes>;

    closed spec fn view(&self) -> Map<u64, HighlightAttributes> {
        self.attributes@
    }
}

impl HighlightMap {
    /// The table is well formed: ID 0 is never stored.
    pub closed spec fn wf(&self) -> bool {
        &&& !self.attributes@.contains_key(0)
        &&& self.plain == HighlightAttributes::plain()
    }

    /// The default colors.
    pub closed spec fn spec_defaults(&self) -> DefaultColors {
        self.defaults
    }

    /// Returns the default colors.
    pub fn default_colors(&self) -> (d: DefaultColors)
        ensures
            d == self.spec_defaults(),
    {
        self.defaults
    }

    /// The attributes that `get` hands out for `id`.
    pub open spec fn spec_get(&self, id: u64) -> HighlightAttributes {
        lookup_highlight(self@, id)
    }

    /// Creates an empty table with the initial default colors.
    pub fn new() -> (m: Self)
        ensures
            m.wf(),
            m@ == Map::<u64, HighlightAttributes>::empty(),
            m.spec_defaults() == DefaultColors::initial(),
    {
        HighlightMap {
            attributes: HashMap::new(),
            plain: HighlightAttributes::new(),
            defaults: DefaultColors::default(),
        }
    }

    /// Defines the attributes of `id`; ID 0 is reserved and left alone.
    pub fn define(&mut self, id: u64, attrs: HighlightAttributes)
        requires
            old(self).wf(),
        ensures
            final(self).wf(),
            final(self)@ == define_highlight(old(self)@, id, attrs),
            final(self).spec_defaults() == old(self).spec_defaults(),
    {
        if id == 0 {
            return;
        }
        self.attributes.insert(id, attrs);
    }

    /// The attributes of `id`; ID 0 and unknown ids give attributes with
    /// nothing set.
    pub fn get(&self, id: u64) -> (a: &HighlightAttributes)
        requires
            self.wf(),
        ensures
            *a == self.spec_get(id),
    {
        if id == 0 {
            &self.plain
        } else {
            match self.attributes.get(&id) {
                Some(a) => a,
                None => &self.plain,
            }
        }
    }

    /// Sets the default colors.
    pub fn set_defaults(&mut self, foreground: Color, background: Color, special: Color)
        requires
            old(self).wf(),
        ensures
            final(self).wf(),
            final(self)@ == old(self)@,
            final(self).spec_defaults() == (DefaultColors { foreground, background, special }),
    {
        self.defaults = DefaultColors { foreground, background, special };
    }

    /// Forgets every definition but keeps the default colors.
    pub fn clear(&mut self)
        requires
            old(self).wf(),
        ensures
            final(self).wf(),
            final(self)@ == Map::<u64, HighlightAttributes>::empty(),
            final(self).spec_defaults() == old(self).spec_defaults(),
    {
        self.attributes.clear();
    }
}

impl Default for HighlightMap {
    fn default() -> (m: Self)
        ensures
            m.wf(),
            m@ == Map::<u64, HighlightAttributes>::empty(),
            m.spec_defaults() == DefaultColors::initial(),
    {
        Self::new()
    }
}

/// Reading a highlight back gives what the last definition of that id wrote;
/// other ids, and ID 0, read as before.
pub proof fn law_get_after_define(
    defs: Map<u64, HighlightAttributes>,
    id: u64,
    attrs: HighlightAttributes,
    query: u64,
)
    ensures
        lookup_highlight(define_highlight(defs, id, attrs), query) == if query == id && id != 0 {
            attrs
        } else {
            lookup_highlight(defs, query)
        },
{
}

} // verus!
