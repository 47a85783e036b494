//! Colours and highlights.

use vstd::prelude::*;

verus! {

/// A 24-bit colour.
#[derive(Clone, Copy, Debug, PartialEq, Eq, Structural)]
pub struct Rgb(pub u32);

/// The kind of underline. Several flags of a highlight fold into one of these.
#[derive(Clone, Copy, Debug, PartialEq, Eq, Structural)]
pub enum Underline {
    Off,
    Line,
    Undercurl,
    Double,
    Dotted,
    Dashed,
}

/// The attributes of a highlight as nvim defined it. What it left open stays `None` and is settled
/// by [`Highlights::style`].
#[derive(Clone, Copy, Debug, PartialEq, Eq)]
pub struct HlAttr {
    pub fg: Option<Rgb>,
    pub bg: Option<Rgb>,
    pub sp: Option<Rgb>,
    pub reverse: bool,
    pub bold: bool,
    pub italic: bool,
    pub strikethrough: bool,
    pub underline: Underline,
    /// 0 to 100. 0 where nvim does not give it.
    pub blend: u8,
}

/// The final colours to draw with: defaults are filled in and `reverse` is resolved.
#[derive(Clone, Copy, Debug, PartialEq, Eq, Structural)]
pub struct Style {
    pub fg: Rgb,
    pub bg: Rgb,
    pub sp: Rgb,
    pub bold: bool,
    pub italic: bool,
    pub strikethrough: bool,
    pub underline: Underline,
}

/// The highlight table. The ids are dense.
#[derive(Clone, Debug, PartialEq, Eq)]
pub struct Highlights {
    default_fg: Rgb,
    default_bg: Rgb,
    default_sp: Rgb,
    attrs: Vec<Option<HlAttr>>,
}

/// The default colours and the highlights that were defined.
#[verifier::ext_equal]
pub struct HighlightsView {
    pub fg: Rgb,
    pub bg: Rgb,
    pub sp: Rgb,
    pub attrs: Map<u32, HlAttr>,
}

/// The red, green and blue parts of a colour, a byte each.
pub open spec fn channels_of(rgb: Rgb) -> (int, int, int) {
    ((rgb.0 as int / 0x1_0000) % 0x100, (rgb.0 as int / 0x100) % 0x100, rgb.0 as int % 0x100)
}

/// A highlight that leaves everything open.
pub open spec fn plain_attr() -> HlAttr {
    HlAttr {
        fg: None,
        bg: None,
        sp: None,
        reverse: false,
        bold: false,
        italic: false,
        strikethrough: false,
        underline: Underline::Off,
        blend: 0,
    }
}

/// `chosen`, or `default` where nothing was chosen.
pub open spec fn colour_or(chosen: Option<Rgb>, default: Rgb) -> Rgb {
    match chosen {
        Some(rgb) => rgb,
        None => default,
    }
}

impl HighlightsView {
    /// The attributes of `id`; an unknown id leaves everything open.
    pub open spec fn attr(self, id: u32) -> HlAttr {
        if self.attrs.contains_key(id) {
            self.attrs[id]
        } else {
            plain_attr()
        }
    }

    /// The colours of `id` with the defaults filled in, before `reverse`.
    pub open spec fn unreversed(self, id: u32) -> (Rgb, Rgb) {
        (colour_or(self.attr(id).fg, self.fg), colour_or(self.attr(id).bg, self.bg))
    }

    /// The final style of `id`: the defaults are filled in first, then `reverse` exchanges
    /// foreground and background.
    pub open spec fn style(self, id: u32) -> Style {
        let attr = self.attr(id);
        let (fg, bg) = self.unreversed(id);
        Style {
            fg: if attr.reverse {
                bg
            } else {
                fg
            },
            bg: if attr.reverse {
                fg
            } else {
                bg
            },
            sp: colour_or(attr.sp, self.sp),
            bold: attr.bold,
            italic: attr.italic,
            strikethrough: attr.strikethrough,
            underline: attr.underline,
        }
    }

    pub open spec fn with_defaults(self, fg: Rgb, bg: Rgb, sp: Rgb) -> HighlightsView {
        HighlightsView { fg, bg, sp, ..self }
    }

    pub open spec fn with_attr(self, id: u32, attr: HlAttr) -> HighlightsView {
        HighlightsView { attrs: self.attrs.insert(id, attr), ..self }
    }
}

impl View for Highlights {
    type V = HighlightsView;

    closed spec fn view(&self) -> HighlightsView {
        HighlightsView {
            fg: self.default_fg,
            bg: self.default_bg,
            sp: self.default_sp,
            attrs: Map::new(
                |id: u32| id < self.attrs@.len() && self.attrs@[id as int] is Some,
                |id: u32| self.attrs@[id as int]->0,
            ),
        }
    }
}

impl Rgb {
    /// The red, green and blue parts.
    pub fn channels(self) -> (parts: (u8, u8, u8))
        ensures
            (parts.0 as int, parts.1 as int, parts.2 as int) == channels_of(self),
    {
        let n: u32 = self.0;
        assert((n >> 16) & 0xff == (n / 0x1_0000) % 0x100) by (bit_vector);
        assert((n >> 8) & 0xff == (n / 0x100) % 0x100) by (bit_vector);
        assert(n & 0xff == n % 0x100) by (bit_vector);
        (((n >> 16) & 0xff) as u8, ((n >> 8) & 0xff) as u8, (n & 0xff) as u8)
    }
}

impl Default for Rgb {
    fn default() -> (rgb: Rgb)
        ensures
            rgb == Rgb(0),
    {
        Rgb(0)
    }
}

impl Default for HlAttr {
    fn default() -> (attr: HlAttr)
        ensures
            attr == plain_attr(),
    {
        HlAttr {
            fg: None,
            bg: None,
            sp: None,
            reverse: false,
            bold: false,
            italic: false,
            strikethrough: false,
            underline: Underline::Off,
            blend: 0,
        }
    }
}

impl Default for Highlights {
    fn default() -> (hl: Highlights)
        ensures
            hl@ == (HighlightsView { fg: Rgb(0), bg: Rgb(0), sp: Rgb(0), attrs: Map::empty() }),
    {
        let hl = Highlights {
            default_fg: Rgb(0),
            default_bg: Rgb(0),
            default_sp: Rgb(0),
            attrs: Vec::new(),
        };
        assert(hl@.attrs =~= Map::empty());
        hl
    }
}

impl Highlights {
    pub fn default_fg(&self) -> (rgb: Rgb)
        ensures
            rgb == self@.fg,
    {
        self.default_fg
    }

    pub fn default_bg(&self) -> (rgb: Rgb)
        ensures
            rgb == self@.bg,
    {
        self.default_bg
    }

    pub fn default_sp(&self) -> (rgb: Rgb)
        ensures
            rgb == self@.sp,
    {
        self.default_sp
    }

    pub fn set_defaults(&mut self, fg: Rgb, bg: Rgb, sp: Rgb)
        ensures
            final(self)@ == old(self)@.with_defaults(fg, bg, sp),
    {
        self.default_fg = fg;
        self.default_bg = bg;
        self.default_sp = sp;
        assert(self@.attrs =~= old(self)@.attrs);
    }

    /// Defines the highlight `id`, or defines it anew.
    pub fn define(&mut self, id: u32, attr: HlAttr)
        ensures
            final(self)@ == old(self)@.with_attr(id, attr),
    {
        let index: usize = id as usize;
        if index < self.attrs.len() {
            self.attrs[index] = Some(attr);
        } else {
            self.attrs.resize(index, None);
            self.attrs.push(Some(attr));
        }
        assert(self@.attrs =~= old(self)@.attrs.insert(id, attr));
    }

    /// The highlight `id` as it was defined.
    pub fn attr(&self, id: u32) -> (attr: Option<&HlAttr>)
        ensures
            (match attr {
                Some(a) => self@.attrs.contains_key(id) && *a == self@.attrs[id],
                None => !self@.attrs.contains_key(id),
            }),
    {
        let index: usize = id as usize;
        if index < self.attrs.len() {
            self.attrs[index].as_ref()
        } else {
            None
        }
    }

    /// The final style of `id`. An unknown id has the default colours.
    pub fn style(&self, id: u32) -> (style: Style)
        ensures
            style == self@.style(id),
    {
        let attr = match self.attr(id) {
            Some(attr) => *attr,
            None => HlAttr::default(),
        };
        let fg = attr.fg.unwrap_or(self.default_fg);
        let bg = attr.bg.unwrap_or(self.default_bg);
        let (fg, bg) = if attr.reverse {
            (bg, fg)
        } else {
            (fg, bg)
        };
        Style {
            fg,
            bg,
            sp: attr.sp.unwrap_or(self.default_sp),
            bold: attr.bold,
            italic: attr.italic,
            strikethrough: attr.strikethrough,
            underline: attr.underline,
        }
    }
}

/// Reading a highlight gives back what defined it last, and defining one leaves the others and the
/// default colours alone.
pub proof fn law_define_reads_back(hl: HighlightsView, id: u32, attr: HlAttr, other: u32)
    ensures
        hl.with_attr(id, attr).attr(id) == attr,
        other != id ==> hl.with_attr(id, attr).attr(other) == hl.attr(other),
        other != id ==> hl.with_attr(id, attr).style(other) == hl.style(other),
        hl.with_attr(id, attr).fg == hl.fg,
        hl.with_attr(id, attr).bg == hl.bg,
        hl.with_attr(id, attr).sp == hl.sp,
{
}

/// An id that was never defined is drawn in the default colours, unreversed and undecorated.
pub proof fn law_unknown_id_is_default(hl: HighlightsView, id: u32)
    requires
        !hl.attrs.contains_key(id),
    ensures
        hl.style(id).fg == hl.fg,
        hl.style(id).bg == hl.bg,
        hl.style(id).sp == hl.sp,
        !hl.style(id).bold && !hl.style(id).italic && !hl.style(id).strikethrough,
        hl.style(id).underline == Underline::Off,
{
}

/// `reverse` exchanges the two colours after the defaults were filled in: a reversed highlight
/// shows as its background what the same highlight unreversed shows as its foreground.
pub proof fn law_reverse_exchanges(hl: HighlightsView, id: u32, attr: HlAttr)
    ensures
        ({
            let plain = hl.with_attr(id, HlAttr { reverse: false, ..attr }).style(id);
            let swapped = hl.with_attr(id, HlAttr { reverse: true, ..attr }).style(id);
            swapped == (Style { fg: plain.bg, bg: plain.fg, ..plain })
        }),
{
}

/// A highlight is drawn in its own colours where it names them and in the default colours where it
/// does not, with the flags that it has.
pub proof fn law_style_of_a_highlight(hl: HighlightsView, id: u32)
    requires
        hl.attrs.contains_key(id),
    ensures
        ({
            let a = hl.attrs[id];
            let s = hl.style(id);
            let fg = if a.fg is Some {
                a.fg->0
            } else {
                hl.fg
            };
            let bg = if a.bg is Some {
                a.bg->0
            } else {
                hl.bg
            };
            &&& !a.reverse ==> s.fg == fg && s.bg == bg
            &&& a.reverse ==> s.fg == bg && s.bg == fg
            &&& a.sp is Some ==> s.sp == a.sp->0
            &&& a.sp is None ==> s.sp == hl.sp
            &&& s.bold == a.bold
            &&& s.italic == a.italic
            &&& s.strikethrough == a.strikethrough
            &&& s.underline == a.underline
        }),
{
}

/// Other default colours leave the highlights alone, and show in every highlight that names none.
pub proof fn law_default_colours(hl: HighlightsView, fg: Rgb, bg: Rgb, sp: Rgb)
    ensures
        ({
            let after = hl.with_defaults(fg, bg, sp);
            after.fg == fg && after.bg == bg && after.sp == sp && after.attrs == hl.attrs
        }),
        plain_attr() == (HlAttr {
            fg: None,
            bg: None,
            sp: None,
            reverse: false,
            bold: false,
            italic: false,
            strikethrough: false,
            underline: Underline::Off,
            blend: 0,
        }),
{
}

/// Defining a highlight puts it into the table under its id, in place of what was there.
pub proof fn law_define(hl: HighlightsView, id: u32, attr: HlAttr)
    ensures
        hl.with_attr(id, attr).attrs == hl.attrs.insert(id, attr),
        hl.attrs.contains_key(id) ==> hl.attr(id) == hl.attrs[id],
{
}

/// A colour is made of its red, its green and its blue part, in this order, each of them a byte.
pub proof fn law_channels(rgb: Rgb)
    requires
        rgb.0 < 0x100_0000,
    ensures
        ({
            let (r, g, b) = channels_of(rgb);
            &&& 0 <= r <= 255 && 0 <= g <= 255 && 0 <= b <= 255
            &&& r * 65536 + g * 256 + b == rgb.0
        }),
{
}

} // verus!
