//! Structures for building CSS declaration strings.
//!
//! The rendering layer styles slides with inline CSS. Everything here is
//! plain string building: each value knows the exact CSS text it turns into,
//! and the contracts state that text character by character.

use vstd::prelude::*;
use vstd::string::StringExecFns;

use crate::conversions::dec_seq;
use crate::conversions::dec_seq_signed;
use crate::conversions::i32_dec_string;
use crate::conversions::u32_dec_string;
use crate::conversions::Rgb8;
use crate::conversions::Rgba8;
use crate::settings::css_size_css;
use crate::settings::horizontal_align_css;
use crate::settings::tenths_seq;
use crate::settings::tenths_string;
use crate::settings::CssSize;
use crate::settings::FontRepresentation;
use crate::settings::HorizontalAlign;

verus! {

/// Conversion of a value to the CSS text that represents it.
pub trait CssString {
    fn to_css_string(&self) -> String;
}

/// A generic CSS font family keyword.
#[derive(Debug, Clone, Copy, PartialEq, Eq, Structural)]
pub enum GenericFontFamily {
    Serif,
    SansSerif,
    Monospace,
    Cursive,
    Fantasy,
    SystemUi,
    Inherit,
}

/// The CSS keyword for a generic font family.
pub open spec fn generic_font_family_css(g: GenericFontFamily) -> Seq<char> {
    match g {
        GenericFontFamily::Serif => "serif"@,
        GenericFontFamily::SansSerif => "sans-serif"@,
        GenericFontFamily::Monospace => "monospace"@,
        GenericFontFamily::Cursive => "cursive"@,
        GenericFontFamily::Fantasy => "fantasy"@,
        GenericFontFamily::SystemUi => "system-ui"@,
        GenericFontFamily::Inherit => "inherit"@,
    }
}

impl Default for GenericFontFamily {
    fn default() -> (r: GenericFontFamily)
        ensures
            r == GenericFontFamily::SansSerif,
    {
        GenericFontFamily::SansSerif
    }
}

impl CssString for GenericFontFamily {
    fn to_css_string(&self) -> (r: String)
        ensures
            r@ == generic_font_family_css(*self),
    {
        match self {
            GenericFontFamily::Serif => String::from_str("serif"),
            GenericFontFamily::SansSerif => String::from_str("sans-serif"),
            GenericFontFamily::Monospace => String::from_str("monospace"),
            GenericFontFamily::Cursive => String::from_str("cursive"),
            GenericFontFamily::Fantasy => String::from_str("fantasy"),
            GenericFontFamily::SystemUi => String::from_str("system-ui"),
            GenericFontFamily::Inherit => String::from_str("inherit"),
        }
    }
}

/// Ghost mirror of [`CssFontFamily`].
pub ghost struct CssFontFamilyView {
    pub family: Seq<char>,
    pub has_family: bool,
    pub genereric_family: GenericFontFamily,
}

/// A CSS font family entry: an optional concrete family name plus the
/// generic family used as its fallback.
#[derive(Debug, PartialEq)]
pub struct CssFontFamily {
    /// The concrete font family name, if any.
    pub family: Option<String>,
    /// The generic fallback family.
    pub genereric_family: GenericFontFamily,
}

impl View for CssFontFamily {
    type V = CssFontFamilyView;

    open spec fn view(&self) -> CssFontFamilyView {
        CssFontFamilyView {
            family: match self.family {
                Some(f) => f@,
                None => Seq::<char>::empty(),
            },
            has_family: self.family is Some,
            genereric_family: self.genereric_family,
        }
    }
}

/// The CSS text of a font family entry: the concrete name, a comma, and the
/// generic fallback; or the generic family alone.
pub open spec fn css_font_family_css(v: CssFontFamilyView) -> Seq<char> {
    if v.has_family {
        v.family + ", "@ + generic_font_family_css(v.genereric_family)
    } else {
        generic_font_family_css(v.genereric_family)
    }
}

impl CssFontFamily {
    /// A font family with a concrete name and the default generic fallback.
    pub fn with_family(family: String) -> (r: Self)
        ensures
            r@.has_family,
            r@.family == family@,
            r@.genereric_family == GenericFontFamily::SansSerif,
    {
        Self { family: Some(family), genereric_family: GenericFontFamily::default() }
    }

    /// A font family consisting of the generic sans-serif family alone.
    pub fn without_family() -> (r: Self)
        ensures
            !r@.has_family,
            r@.genereric_family == GenericFontFamily::SansSerif,
    {
        CssFontFamily { family: None, genereric_family: GenericFontFamily::SansSerif }
    }

    /// The same entry, rebuilt field by field.
    pub fn generic_family(self) -> (r: Self)
        ensures
            r@ == self@,
    {
        CssFontFamily { family: self.family, genereric_family: self.genereric_family }
    }

    /// An owned copy with the same content.
    pub fn duplicate(&self) -> (r: Self)
        ensures
            r@ == self@,
    {
        CssFontFamily {
            family: match &self.family {
                Some(f) => Some(f.clone()),
                None => None,
            },
            genereric_family: self.genereric_family,
        }
    }
}

impl Default for CssFontFamily {
    fn default() -> (r: Self)
        ensures
            !r@.has_family,
            r@.genereric_family == GenericFontFamily::SansSerif,
    {
        CssFontFamily::without_family()
    }
}

impl CssString for CssFontFamily {
    fn to_css_string(&self) -> (r: String)
        ensures
            r@ == css_font_family_css(self@),
    {
        match &self.family {
            Some(family_name) => {
                let mut s = family_name.clone();
                s.append(", ");
                let generic = self.genereric_family.to_css_string();
                s.append(generic.as_str());
                s
            },
            None => self.genereric_family.to_css_string(),
        }
    }
}

/// The CSS `place-items` values the presentation layer uses.
#[derive(Debug, Clone, Copy, PartialEq, Eq, Structural)]
pub enum PlaceItems {
    StartStretch,
    CenterStretch,
    EndStretch,
}

/// The CSS text of a `place-items` value.
pub open spec fn place_items_css(p: PlaceItems) -> Seq<char> {
    match p {
        PlaceItems::StartStretch => "start stretch"@,
        PlaceItems::CenterStretch => "center stretch"@,
        PlaceItems::EndStretch => "end stretch"@,
    }
}

impl CssString for PlaceItems {
    fn to_css_string(&self) -> (r: String)
        ensures
            r@ == place_items_css(*self),
    {
        match self {
            PlaceItems::StartStretch => String::from_str("start stretch"),
            PlaceItems::CenterStretch => String::from_str("center stretch"),
            PlaceItems::EndStretch => String::from_str("end stretch"),
        }
    }
}

/// Ghost mirror of [`CssValue`].
pub ghost enum CssValueView {
    Text(Seq<char>),
    Rgb(Rgb8),
    Rgba(Rgba8),
    Url(Seq<char>),
    Int(i32),
    Tenths(u32),
    CssSize(CssSize),
    HorizontalAlign(HorizontalAlign),
    PlaceItems(PlaceItems),
    FontFamily(CssFontFamilyView),
}

/// Any CSS value a declaration can carry. Fractional numbers are carried in
/// tenths, as [`CssSize`] carries them.
#[derive(Debug, PartialEq)]
pub enum CssValue {
    Text(String),
    Rgb(Rgb8),
    Rgba(Rgba8),
    Url(String),
    Int(i32),
    Tenths(u32),
    CssSize(CssSize),
    HorizontalAlign(HorizontalAlign),
    PlaceItems(PlaceItems),
    FontFamily(CssFontFamily),
}

impl View for CssValue {
    type V = CssValueView;

    open spec fn view(&self) -> CssValueView {
        match self {
            CssValue::Text(s) => CssValueView::Text(s@),
            CssValue::Rgb(c) => CssValueView::Rgb(*c),
            CssValue::Rgba(c) => CssValueView::Rgba(*c),
            CssValue::Url(s) => CssValueView::Url(s@),
            CssValue::Int(i) => CssValueView::Int(*i),
            CssValue::Tenths(v) => CssValueView::Tenths(*v),
            CssValue::CssSize(s) => CssValueView::CssSize(*s),
            CssValue::HorizontalAlign(a) => CssValueView::HorizontalAlign(*a),
            CssValue::PlaceItems(p) => CssValueView::PlaceItems(*p),
            CssValue::FontFamily(f) => CssValueView::FontFamily(f@),
        }
    }
}

/// The CSS text of a value.
pub open spec fn css_value_css(v: CssValueView) -> Seq<char> {
    match v {
        CssValueView::Text(s) => s,
        CssValueView::Rgb(c) => "rgb("@ + dec_seq(c.r as int) + ", "@ + dec_seq(c.g as int)
            + ", "@ + dec_seq(c.b as int) + ")"@,
        CssValueView::Rgba(c) => "rgba("@ + dec_seq(c.r as int) + ", "@ + dec_seq(c.g as int)
            + ", "@ + dec_seq(c.b as int) + ", "@ + dec_seq(c.a as int) + ")"@,
        CssValueView::Url(s) => "url('"@ + s + "')"@,
        CssValueView::Int(i) => dec_seq_signed(i as int),
        CssValueView::Tenths(t) => tenths_seq(t as int),
        CssValueView::CssSize(s) => css_size_css(s),
        CssValueView::HorizontalAlign(a) => horizontal_align_css(a),
        CssValueView::PlaceItems(p) => place_items_css(p),
        CssValueView::FontFamily(f) => css_font_family_css(f),
    }
}

impl CssValue {
    /// An owned copy with the same content.
    pub fn duplicate(&self) -> (r: CssValue)
        ensures
            r@ == self@,
    {
        match self {
            CssValue::Text(s) => CssValue::Text(s.clone()),
            CssValue::Rgb(c) => CssValue::Rgb(*c),
            CssValue::Rgba(c) => CssValue::Rgba(*c),
            CssValue::Url(s) => CssValue::Url(s.clone()),
            CssValue::Int(i) => CssValue::Int(*i),
            CssValue::Tenths(v) => CssValue::Tenths(*v),
            CssValue::CssSize(s) => CssValue::CssSize(*s),
            CssValue::HorizontalAlign(a) => CssValue::HorizontalAlign(*a),
            CssValue::PlaceItems(p) => CssValue::PlaceItems(*p),
            CssValue::FontFamily(f) => CssValue::FontFamily(f.duplicate()),
        }
    }
}

impl CssString for CssValue {
    fn to_css_string(&self) -> (r: String)
        ensures
            r@ == css_value_css(self@),
    {
        match self {
            CssValue::Text(s) => s.clone(),
            CssValue::Rgb(c) => {
                let mut out = String::from_str("rgb(");
                out.append(u32_dec_string(c.r as u32).as_str());
                out.append(", ");
                out.append(u32_dec_string(c.g as u32).as_str());
                out.append(", ");
                out.append(u32_dec_string(c.b as u32).as_str());
                out.append(")");
                proof {
                    assert(out@ =~= css_value_css(self@));
                }
                out
            },
            CssValue::Rgba(c) => {
                let mut out = String::from_str("rgba(");
                out.append(u32_dec_string(c.r as u32).as_str());
                out.append(", ");
                out.append(u32_dec_string(c.g as u32).as_str());
                out.append(", ");
                out.append(u32_dec_string(c.b as u32).as_str());
                out.append(", ");
                out.append(u32_dec_string(c.a as u32).as_str());
                out.append(")");
                proof {
                    assert(out@ =~= css_value_css(self@));
                }
                out
            },
            CssValue::Url(s) => {
                let mut out = String::from_str("url('");
                out.append(s.as_str());
                out.append("')");
                proof {
                    assert(out@ =~= css_value_css(self@));
                }
                out
            },
            CssValue::Int(i) => i32_dec_string(*i),
            CssValue::Tenths(t) => tenths_string(*t),
            CssValue::CssSize(s) => s.to_css_string(),
            CssValue::HorizontalAlign(a) => a.to_css_string(),
            CssValue::PlaceItems(p) => p.to_css_string(),
            CssValue::FontFamily(f) => f.to_css_string(),
        }
    }
}

/// Ghost mirror of [`CssEntry`].
pub ghost struct CssEntryView {
    pub key: Seq<char>,
    pub value: CssValueView,
    pub important_flag: bool,
}

/// A single CSS declaration: a property, its value, and whether it is
/// marked important.
#[derive(Debug, PartialEq)]
pub struct CssEntry {
    pub key: String,
    pub value: CssValue,
    pub important_flag: bool,
}

impl View for CssEntry {
    type V = CssEntryView;

    open spec fn view(&self) -> CssEntryView {
        CssEntryView { key: self.key@, value: self.value@, important_flag: self.important_flag }
    }
}

impl DeepView for CssEntry {
    type V = CssEntryView;

    open spec fn deep_view(&self) -> CssEntryView {
        self.view()
    }
}

/// The CSS text of one declaration: `key:value;`, with `!important` before
/// the semicolon when the entry is marked important.
pub open spec fn css_entry_css(e: CssEntryView) -> Seq<char> {
    e.key + ":"@ + css_value_css(e.value) + (if e.important_flag {
        "!important"@
    } else {
        Seq::<char>::empty()
    }) + ";"@
}

impl CssString for CssEntry {
    fn to_css_string(&self) -> (r: String)
        ensures
            r@ == css_entry_css(self@),
    {
        let mut out = self.key.clone();
        out.append(":");
        out.append(self.value.to_css_string().as_str());
        if self.important_flag {
            out.append("!important");
        }
        out.append(";");
        proof {
            assert(out@ =~= css_entry_css(self@));
        }
        out
    }
}

/// The CSS text of a declaration list: the declarations in order.
pub open spec fn css_entries_css(entries: Seq<CssEntryView>) -> Seq<char>
    decreases entries.len(),
{
    if entries.len() == 0 {
        Seq::<char>::empty()
    } else {
        css_entries_css(entries.drop_last()) + css_entry_css(entries.last())
    }
}

/// Ghost mirror of [`CssHandler`].
pub ghost struct CssHandlerView {
    pub declarations: Seq<CssEntryView>,
    pub important: bool,
}

/// A CSS declaration list under construction. Entries added while the
/// important flag is set carry `!important`.
#[derive(Debug, PartialEq)]
pub struct CssHandler {
    declarations: Vec<CssEntry>,
    important: bool,
}

impl View for CssHandler {
    type V = CssHandlerView;

    closed spec fn view(&self) -> CssHandlerView {
        CssHandlerView { declarations: self.declarations.deep_view(), important: self.important }
    }
}

/// The declaration list extended by one entry with the given key and
/// value, flagged important when the handler is set so.
pub open spec fn with_entry(h: CssHandlerView, key: Seq<char>, value: CssValueView) -> CssHandlerView {
    CssHandlerView {
        declarations: h.declarations.push(
            CssEntryView { key, value, important_flag: h.important },
        ),
        important: h.important,
    }
}

impl CssHandler {
    /// An empty declaration list with the important flag off.
    pub fn new() -> (r: Self)
        ensures
            r@.declarations == Seq::<CssEntryView>::empty(),
            !r@.important,
    {
        let handler = CssHandler { declarations: Vec::new(), important: false };
        proof {
            assert(handler@.declarations =~= Seq::<CssEntryView>::empty());
        }
        handler
    }

    /// Appends one declaration, carrying the current important flag.
    fn push(&mut self, key: String, value: CssValue)
        ensures
            final(self)@ == with_entry(old(self)@, key@, value@),
    {
        let ghost before = self@.declarations;
        let entry = CssEntry { key, value, important_flag: self.important };
        self.declarations.push(entry);
        proof {
            let dv = self.declarations.deep_view();
            assert forall|j: int| 0 <= j < before.len() implies dv[j] == before[j] by {
                assert(dv[j] == self.declarations@[j]@);
            }
            assert(dv[before.len() as int] == self.declarations@[before.len() as int]@);
            assert(dv =~= before.push(entry@));
        }
    }

    /// Appends every declaration of another handler, each carrying this
    /// handler's current important flag.
    pub fn extend(&mut self, other: &CssHandler)
        ensures
            final(self)@.important == old(self)@.important,
            final(self)@.declarations == old(self)@.declarations + Seq::new(
                other@.declarations.len(),
                |j: int|
                    CssEntryView {
                        important_flag: old(self)@.important,
                        ..other@.declarations[j]
                    },
            ),
    {
        let ghost target = Seq::new(
            other@.declarations.len(),
            |j: int| CssEntryView { important_flag: self@.important, ..other@.declarations[j] },
        );
        let ghost start = self@.declarations;
        let n = other.declarations.len();
        let mut i: usize = 0;
        proof {
            assert(self@.declarations =~= start + target.take(0));
        }
        while i < n
            invariant
                n == other@.declarations.len(),
                i <= n,
                self@.important == old(self)@.important,
                start == old(self)@.declarations,
                target == Seq::new(
                    other@.declarations.len(),
                    |j: int|
                        CssEntryView {
                            important_flag: old(self)@.important,
                            ..other@.declarations[j]
                        },
                ),
                self@.declarations == start + target.take(i as int),
            decreases n - i,
        {
            let entry = &other.declarations[i];
            proof {
                assert(entry@ == other@.declarations[i as int]);
            }
            self.push(entry.key.clone(), entry.value.duplicate());
            proof {
                assert(self@.declarations =~= start + target.take(i + 1));
            }
            i = i + 1;
        }
        proof {
            assert(target.take(n as int) =~= target);
        }
    }

    /// Sets the important flag; entries added afterwards carry
    /// `!important`.
    pub fn set_important(&mut self, important: bool)
        ensures
            final(self)@ == (CssHandlerView { important, ..old(self)@ }),
    {
        self.important = important;
    }

    /// Appends a `background-color` declaration.
    pub fn background_color(&mut self, color: Rgb8)
        ensures
            final(self)@ == with_entry(old(self)@, "background-color"@, CssValueView::Rgb(color)),
    {
        self.push(String::from_str("background-color"), CssValue::Rgb(color))
    }

    /// Appends a `padding-left` declaration.
    pub fn padding_left(&mut self, size: CssSize)
        ensures
            final(self)@ == with_entry(old(self)@, "padding-left"@, CssValueView::CssSize(size)),
    {
        self.push(String::from_str("padding-left"), CssValue::CssSize(size))
    }

    /// Appends a `padding-right` declaration.
    pub fn padding_right(&mut self, size: CssSize)
        ensures
            final(self)@ == with_entry(old(self)@, "padding-right"@, CssValueView::CssSize(size)),
    {
        self.push(String::from_str("padding-right"), CssValue::CssSize(size))
    }

    /// Appends a `padding-top` declaration.
    pub fn padding_top(&mut self, size: CssSize)
        ensures
            final(self)@ == with_entry(old(self)@, "padding-top"@, CssValueView::CssSize(size)),
    {
        self.push(String::from_str("padding-top"), CssValue::CssSize(size))
    }

    /// Appends a `padding-bottom` declaration.
    pub fn padding_bottom(&mut self, size: CssSize)
        ensures
            final(self)@ == with_entry(old(self)@, "padding-bottom"@, CssValueView::CssSize(size)),
    {
        self.push(String::from_str("padding-bottom"), CssValue::CssSize(size))
    }

    /// Appends a `color` declaration.
    pub fn color(&mut self, color: Rgba8)
        ensures
            final(self)@ == with_entry(old(self)@, "color"@, CssValueView::Rgba(color)),
    {
        self.push(String::from_str("color"), CssValue::Rgba(color))
    }

    /// Appends a `font-size` declaration.
    pub fn font_size(&mut self, size: CssSize)
        ensures
            final(self)@ == with_entry(old(self)@, "font-size"@, CssValueView::CssSize(size)),
    {
        self.push(String::from_str("font-size"), CssValue::CssSize(size))
    }

    /// Appends a `text-align` declaration.
    pub fn text_align(&mut self, align: HorizontalAlign)
        ensures
            final(self)@ == with_entry(
                old(self)@,
                "text-align"@,
                CssValueView::HorizontalAlign(align),
            ),
    {
        self.push(String::from_str("text-align"), CssValue::HorizontalAlign(align))
    }

    /// Appends a `background-image` declaration with a URL value.
    pub fn background_image(&mut self, url: &str)
        ensures
            final(self)@ == with_entry(old(self)@, "background-image"@, CssValueView::Url(url@)),
    {
        self.push(String::from_str("background-image"), CssValue::Url(String::from_str(url)))
    }

    /// Appends a `background-size` declaration.
    pub fn background_size(&mut self, content: &str)
        ensures
            final(self)@ == with_entry(
                old(self)@,
                "background-size"@,
                CssValueView::Text(content@),
            ),
    {
        self.push(String::from_str("background-size"), CssValue::Text(String::from_str(content)))
    }

    /// Appends a `background-position` declaration.
    pub fn background_position(&mut self, content: &str)
        ensures
            final(self)@ == with_entry(
                old(self)@,
                "background-position"@,
                CssValueView::Text(content@),
            ),
    {
        self.push(
            String::from_str("background-position"),
            CssValue::Text(String::from_str(content)),
        )
    }

    /// Appends a `background-repeat` declaration.
    pub fn background_repeat(&mut self, content: &str)
        ensures
            final(self)@ == with_entry(
                old(self)@,
                "background-repeat"@,
                CssValueView::Text(content@),
            ),
    {
        self.push(
            String::from_str("background-repeat"),
            CssValue::Text(String::from_str(content)),
        )
    }

    /// Appends an `opacity` declaration. The value is in tenths and is
    /// clamped to the range from 0 to 1.
    pub fn opacity(&mut self, opacity: u32)
        ensures
            final(self)@ == with_entry(
                old(self)@,
                "opacity"@,
                CssValueView::Tenths(if opacity > 10 { 10u32 } else { opacity }),
            ),
    {
        let clamped: u32 = if opacity > 10 { 10 } else { opacity };
        self.push(String::from_str("opacity"), CssValue::Tenths(clamped))
    }

    /// Appends a `z-index` declaration.
    pub fn z_index(&mut self, index: i32)
        ensures
            final(self)@ == with_entry(old(self)@, "z-index"@, CssValueView::Int(index)),
    {
        self.push(String::from_str("z-index"), CssValue::Int(index))
    }

    /// Appends a `place-items` declaration.
    pub fn place_items(&mut self, place_items: PlaceItems)
        ensures
            final(self)@ == with_entry(
                old(self)@,
                "place-items"@,
                CssValueView::PlaceItems(place_items),
            ),
    {
        self.push(String::from_str("place-items"), CssValue::PlaceItems(place_items))
    }

    /// Appends a `font-family` declaration.
    pub fn font_family(&mut self, font_family: CssFontFamily)
        ensures
            final(self)@ == with_entry(
                old(self)@,
                "font-family"@,
                CssValueView::FontFamily(font_family@),
            ),
    {
        self.push(String::from_str("font-family"), CssValue::FontFamily(font_family))
    }

    /// Appends a `line-height` declaration. The value is in tenths.
    pub fn line_height(&mut self, line_height: u32)
        ensures
            final(self)@ == with_entry(
                old(self)@,
                "line-height"@,
                CssValueView::Tenths(line_height),
            ),
    {
        self.push(String::from_str("line-height"), CssValue::Tenths(line_height))
    }

    /// The declarations of a font: family, size, line height, colour and
    /// alignment, in that order.
    pub fn from_font(font: &FontRepresentation) -> (r: CssHandler)
        ensures
            r@.important == false,
            r@.declarations == Seq::<CssEntryView>::empty()
                .push(CssEntryView {
                    key: "font-family"@,
                    value: CssValueView::FontFamily(match font@.font_family {
                        Some(f) => f,
                        None => CssFontFamilyView {
                            family: Seq::<char>::empty(),
                            has_family: false,
                            genereric_family: GenericFontFamily::SansSerif,
                        },
                    }),
                    important_flag: false,
                })
                .push(CssEntryView {
                    key: "font-size"@,
                    value: CssValueView::CssSize(font@.font_size),
                    important_flag: false,
                })
                .push(CssEntryView {
                    key: "line-height"@,
                    value: CssValueView::Tenths(font@.line_height),
                    important_flag: false,
                })
                .push(CssEntryView {
                    key: "color"@,
                    value: CssValueView::Rgba(font@.color),
                    important_flag: false,
                })
                .push(CssEntryView {
                    key: "text-align"@,
                    value: CssValueView::HorizontalAlign(font@.horizontal_alignment),
                    important_flag: false,
                }),
    {
        let mut css_handler = CssHandler::new();
        let family = match &font.font_family {
            Some(f) => f.duplicate(),
            None => CssFontFamily::default(),
        };
        css_handler.font_family(family);
        css_handler.font_size(font.font_size);
        css_handler.line_height(font.line_height);
        css_handler.color(font.color);
        css_handler.text_align(font.horizontal_alignment);
        css_handler
    }
}

impl CssString for CssHandler {
    /// The whole declaration list as one CSS text.
    fn to_css_string(&self) -> (r: String)
        ensures
            r@ == css_entries_css(self@.declarations),
    {
        let mut out = String::new();
        let n = self.declarations.len();
        let mut i: usize = 0;
        proof {
            assert(self@.declarations.take(0) =~= Seq::<CssEntryView>::empty());
        }
        while i < n
            invariant
                n == self@.declarations.len(),
                i <= n,
                out@ == css_entries_css(self@.declarations.take(i as int)),
            decreases n - i,
        {
            let entry_css = self.declarations[i].to_css_string();
            proof {
                assert(self.declarations@[i as int]@ == self@.declarations[i as int]);
                let t = self@.declarations.take(i + 1);
                assert(t.drop_last() =~= self@.declarations.take(i as int));
                assert(t.last() == self@.declarations[i as int]);
            }
            out.append(entry_css.as_str());
            i = i + 1;
        }
        proof {
            assert(self@.declarations.take(n as int) =~= self@.declarations);
        }
        out
    }
}

} // verus!
