//! The settings model: presentation designs, fonts and sizes, repositories
//! and the program's persisted configuration.
//!
//! Sizes that CSS writes with a decimal fraction are carried as whole tenths
//! of a unit (`Px(205)` is `20.5px`), so the usual fractional sizes stay
//! exact without floating point. Reading and writing the settings file is
//! I/O and happens outside this library; everything the settings mean is
//! specified here.

use vstd::prelude::*;
use vstd::string::StringExecFns;

use crate::conversions::dec_digit_seq;
use crate::conversions::dec_seq;
use crate::conversions::hex_color_value;
use crate::conversions::is_hex_color;
use crate::conversions::parse_hex_color;
use crate::conversions::rgb_hex_seq;
use crate::conversions::rgb_hex_string;
use crate::conversions::u32_dec_string;
use crate::conversions::Rgb8;
use crate::conversions::Rgba8;
use crate::css::CssFontFamily;
use crate::css::CssFontFamilyView;
use crate::css::CssString;
use crate::slides::default_slide_settings_view;
use crate::slides::SlideSettings;
use crate::slides::SlideSettingsView;
use crate::sourcefiles::ends_with;
use crate::sourcefiles::file_name_of;
use crate::sourcefiles::sort_and_dedup_source_files;
use crate::sourcefiles::source_file_le;
use crate::sourcefiles::ImageSourceFile;
use crate::sourcefiles::SourceFile;
use crate::sourcefiles::SourceFileView;

verus! {

/// A number of tenths as CSS text: `205` becomes `20.5`, `200` becomes `20`.
pub open spec fn tenths_seq(v: int) -> Seq<char> {
    if v % 10 == 0 {
        dec_seq(v / 10)
    } else {
        dec_seq(v / 10) + "."@ + dec_digit_seq(v % 10)
    }
}

/// Renders a number of tenths as CSS text.
pub(crate) fn tenths_string(v: u32) -> (s: String)
    ensures
        s@ == tenths_seq(v as int),
{
    if v % 10 == 0 {
        u32_dec_string(v / 10)
    } else {
        let whole = u32_dec_string(v / 10);
        let frac = u32_dec_string(v % 10);
        whole.concat(".").concat(frac.as_str())
    }
}

/// A CSS size value. The number is in tenths of the unit, so `Pt(224)`
/// means `22.4pt`.
#[derive(Debug, Clone, Copy, PartialEq, Eq, Structural)]
pub enum CssSize {
    Px(u32),
    Pt(u32),
    Em(u32),
    Percentage(u32),
    Null,
}

impl Default for CssSize {
    fn default() -> (r: CssSize)
        ensures
            r == CssSize::Null,
    {
        CssSize::Null
    }
}

/// The CSS text of a size: the number in tenths followed by its unit;
/// a null size is written `0`.
pub open spec fn css_size_css(s: CssSize) -> Seq<char> {
    match s {
        CssSize::Px(v) => tenths_seq(v as int) + "px"@,
        CssSize::Pt(v) => tenths_seq(v as int) + "pt"@,
        CssSize::Em(v) => tenths_seq(v as int) + "em"@,
        CssSize::Percentage(v) => tenths_seq(v as int) + "%"@,
        CssSize::Null => "0"@,
    }
}

impl CssString for CssSize {
    fn to_css_string(&self) -> (r: String)
        ensures
            r@ == css_size_css(*self),
    {
        match self {
            CssSize::Px(v) => tenths_string(*v).concat("px"),
            CssSize::Pt(v) => tenths_string(*v).concat("pt"),
            CssSize::Em(v) => tenths_string(*v).concat("em"),
            CssSize::Percentage(v) => tenths_string(*v).concat("%"),
            CssSize::Null => String::from_str("0"),
        }
    }
}

impl CssSize {
    /// Whether the size is null or a zero of any unit.
    pub fn is_null(&self) -> (r: bool)
        ensures
            r == (*self == CssSize::Null || *self == CssSize::Px(0) || *self == CssSize::Pt(0)
                || *self == CssSize::Em(0) || *self == CssSize::Percentage(0)),
    {
        matches!(self, CssSize::Null)
            || matches!(self, CssSize::Px(0))
            || matches!(self, CssSize::Pt(0))
            || matches!(self, CssSize::Em(0))
            || matches!(self, CssSize::Percentage(0))
    }

    /// The null size.
    pub fn null() -> (r: CssSize)
        ensures
            r == CssSize::Null,
    {
        CssSize::Null
    }

    /// The number of tenths, whatever the unit; a null size counts as zero.
    pub fn value_tenths(&self) -> (r: u32)
        ensures
            r == (match *self {
                CssSize::Px(v) => v,
                CssSize::Pt(v) => v,
                CssSize::Em(v) => v,
                CssSize::Percentage(v) => v,
                CssSize::Null => 0u32,
            }),
    {
        match self {
            CssSize::Px(v) => *v,
            CssSize::Pt(v) => *v,
            CssSize::Em(v) => *v,
            CssSize::Percentage(v) => *v,
            CssSize::Null => 0,
        }
    }

    /// Sets the number of tenths and keeps the unit; a null size becomes
    /// pixels.
    pub fn set_value_tenths(&mut self, value: u32)
        ensures
            *final(self) == (match *old(self) {
                CssSize::Px(_) => CssSize::Px(value),
                CssSize::Pt(_) => CssSize::Pt(value),
                CssSize::Em(_) => CssSize::Em(value),
                CssSize::Percentage(_) => CssSize::Percentage(value),
                CssSize::Null => CssSize::Px(value),
            }),
    {
        match self {
            CssSize::Px(v) => *v = value,
            CssSize::Pt(v) => *v = value,
            CssSize::Em(v) => *v = value,
            CssSize::Percentage(v) => *v = value,
            CssSize::Null => *self = CssSize::Px(value),
        }
    }
}

/// The horizontal alignment of a block.
#[derive(Debug, Clone, Copy, PartialEq, Eq, Structural)]
pub enum HorizontalAlign {
    Left,
    Centered,
    Right,
}

impl Default for HorizontalAlign {
    fn default() -> (r: HorizontalAlign)
        ensures
            r == HorizontalAlign::Centered,
    {
        HorizontalAlign::Centered
    }
}

/// The CSS `text-align` keyword of an alignment.
pub open spec fn horizontal_align_css(a: HorizontalAlign) -> Seq<char> {
    match a {
        HorizontalAlign::Left => "left"@,
        HorizontalAlign::Centered => "center"@,
        HorizontalAlign::Right => "right"@,
    }
}

impl CssString for HorizontalAlign {
    fn to_css_string(&self) -> (r: String)
        ensures
            r@ == horizontal_align_css(*self),
    {
        match self {
            HorizontalAlign::Left => String::from_str("left"),
            HorizontalAlign::Centered => String::from_str("center"),
            HorizontalAlign::Right => String::from_str("right"),
        }
    }
}

/// The vertical alignment of the content.
#[derive(Debug, Clone, Copy, PartialEq, Eq, Structural)]
pub enum VerticalAlign {
    Top,
    Middle,
    Bottom,
}

impl Default for VerticalAlign {
    fn default() -> (r: VerticalAlign)
        ensures
            r == VerticalAlign::Middle,
    {
        VerticalAlign::Middle
    }
}

/// Four distance values: top, bottom, left and right.
#[derive(Debug, Clone, Copy, PartialEq, Eq, Structural)]
pub struct TopBottomLeftRight {
    pub top: CssSize,
    pub bottom: CssSize,
    pub left: CssSize,
    pub right: CssSize,
}

impl Default for TopBottomLeftRight {
    fn default() -> (r: TopBottomLeftRight)
        ensures
            r == (TopBottomLeftRight {
                top: CssSize::Null,
                bottom: CssSize::Null,
                left: CssSize::Null,
                right: CssSize::Null,
            }),
    {
        TopBottomLeftRight {
            top: CssSize::Null,
            bottom: CssSize::Null,
            left: CssSize::Null,
            right: CssSize::Null,
        }
    }
}

/// The padding a presentation design starts from: twenty pixels on every
/// side.
pub open spec fn default_padding_spec() -> TopBottomLeftRight {
    TopBottomLeftRight {
        top: CssSize::Px(200),
        bottom: CssSize::Px(200),
        left: CssSize::Px(200),
        right: CssSize::Px(200),
    }
}

fn default_padding() -> (r: TopBottomLeftRight)
    ensures
        r == default_padding_spec(),
{
    TopBottomLeftRight {
        top: CssSize::Px(200),
        bottom: CssSize::Px(200),
        left: CssSize::Px(200),
        right: CssSize::Px(200),
    }
}

/// Ghost mirror of [`FontRepresentation`].
pub ghost struct FontRepresentationView {
    pub font_family: Option<CssFontFamilyView>,
    pub font_size: CssSize,
    pub shadow: bool,
    pub line_height: u32,
    pub color: Rgba8,
    pub horizontal_alignment: HorizontalAlign,
}

/// How one kind of text in the presentation is drawn.
#[derive(Debug, PartialEq)]
pub struct FontRepresentation {
    /// The font family; `None` leaves the web default in place.
    pub font_family: Option<CssFontFamily>,
    /// The font size for normal text.
    pub font_size: CssSize,
    /// Whether a shadow is drawn around the letters.
    pub shadow: bool,
    /// The line height in tenths: `12` means a line height of 1.2.
    pub line_height: u32,
    /// The colour of the text.
    pub color: Rgba8,
    /// The horizontal alignment of the block.
    pub horizontal_alignment: HorizontalAlign,
}

impl View for FontRepresentation {
    type V = FontRepresentationView;

    open spec fn view(&self) -> FontRepresentationView {
        FontRepresentationView {
            font_family: match self.font_family {
                Some(f) => Some(f@),
                None => None,
            },
            font_size: self.font_size,
            shadow: self.shadow,
            line_height: self.line_height,
            color: self.color,
            horizontal_alignment: self.horizontal_alignment,
        }
    }
}

impl DeepView for FontRepresentation {
    type V = FontRepresentationView;

    open spec fn deep_view(&self) -> FontRepresentationView {
        self.view()
    }
}

/// The default font: 32pt white centered text at line height 1.2.
pub open spec fn default_font_view() -> FontRepresentationView {
    FontRepresentationView {
        font_family: None,
        font_size: CssSize::Pt(320),
        shadow: false,
        line_height: 12,
        color: Rgba8 { r: 255, g: 255, b: 255, a: 255 },
        horizontal_alignment: HorizontalAlign::Centered,
    }
}

/// The default spoiler font: the default at seven tenths of its size.
pub open spec fn default_spoiler_font_view() -> FontRepresentationView {
    FontRepresentationView { font_size: CssSize::Pt(224), ..default_font_view() }
}

/// The default meta font: the default at half its size.
pub open spec fn default_meta_font_view() -> FontRepresentationView {
    FontRepresentationView { font_size: CssSize::Pt(160), ..default_font_view() }
}

/// The comma-separated decimal `r, g, b, a` text of a colour.
pub open spec fn rgba_dec_seq(c: Rgba8) -> Seq<char> {
    dec_seq(c.r as int) + ", "@ + dec_seq(c.g as int) + ", "@ + dec_seq(c.b as int) + ", "@
        + dec_seq(c.a as int)
}

impl FontRepresentation {
    /// The text colour as the comma-separated decimal channel list CSS
    /// `rgba(...)` expects.
    pub fn get_color_as_rgba_string(&self) -> (s: String)
        ensures
            s@ == rgba_dec_seq(self.color),
    {
        let mut out = u32_dec_string(self.color.r as u32);
        out.append(", ");
        out.append(u32_dec_string(self.color.g as u32).as_str());
        out.append(", ");
        out.append(u32_dec_string(self.color.b as u32).as_str());
        out.append(", ");
        out.append(u32_dec_string(self.color.a as u32).as_str());
        proof {
            assert(out@ =~= rgba_dec_seq(self.color));
        }
        out
    }

    /// The default font scaled to seven tenths, for spoiler text.
    pub fn default_spoiler() -> (r: FontRepresentation)
        ensures
            r@ == default_spoiler_font_view(),
    {
        let mut font = FontRepresentation::default();
        let scaled = font.font_size.value_tenths() * 7 / 10;
        font.font_size.set_value_tenths(scaled);
        font
    }

    /// The default font scaled to half, for the meta line.
    pub fn default_meta() -> (r: FontRepresentation)
        ensures
            r@ == default_meta_font_view(),
    {
        let mut font = FontRepresentation::default();
        let scaled = font.font_size.value_tenths() * 5 / 10;
        font.font_size.set_value_tenths(scaled);
        font
    }

    /// An owned copy with the same content.
    pub fn duplicate(&self) -> (r: FontRepresentation)
        ensures
            r@ == self@,
    {
        FontRepresentation {
            font_family: match &self.font_family {
                Some(f) => Some(f.duplicate()),
                None => None,
            },
            font_size: self.font_size,
            shadow: self.shadow,
            line_height: self.line_height,
            color: self.color,
            horizontal_alignment: self.horizontal_alignment,
        }
    }
}

impl Default for FontRepresentation {
    fn default() -> (r: FontRepresentation)
        ensures
            r@ == default_font_view(),
    {
        FontRepresentation {
            font_family: None,
            font_size: CssSize::Pt(320),
            shadow: false,
            line_height: 12,
            color: Rgba8 { r: 255, g: 255, b: 255, a: 255 },
            horizontal_alignment: HorizontalAlign::default(),
        }
    }
}

/// Ghost mirror of [`PresentationDesignTemplate`].
pub ghost struct PresentationDesignTemplateView {
    pub fonts: Seq<FontRepresentationView>,
    pub headline_index: Option<u16>,
    pub spoiler_index: Option<u16>,
    pub meta_index: Option<u16>,
    pub vertical_alignment: VerticalAlign,
    pub spoiler_content_fontsize_factor: u32,
    pub background_color: Rgb8,
    pub background_transparency: u8,
    pub padding: TopBottomLeftRight,
    pub background_image: Option<SourceFileView>,
    pub main_content_spoiler_content_padding: CssSize,
}

/// A presentation design described as a template: fonts, colours, padding
/// and an optional background picture.
#[derive(Debug, PartialEq)]
pub struct PresentationDesignTemplate {
    /// The font configuration for all kinds of content.
    pub fonts: Vec<FontRepresentation>,
    /// The index into `fonts` used for headlines; kept in range by its
    /// setter.
    headline_index: Option<u16>,
    /// The index into `fonts` used for spoiler text.
    pub spoiler_index: Option<u16>,
    /// The index into `fonts` used for the meta block.
    pub meta_index: Option<u16>,
    /// The vertical alignment of the content.
    pub vertical_alignment: VerticalAlign,
    /// The spoiler font size relative to the main font size, in tenths:
    /// `6` means six tenths.
    pub spoiler_content_fontsize_factor: u32,
    /// The background colour.
    pub background_color: Rgb8,
    /// The background colour's transparency towards an image, 0 to 255.
    pub background_transparency: u8,
    /// The padding around the content.
    pub padding: TopBottomLeftRight,
    /// An optional background picture.
    pub background_image: Option<ImageSourceFile>,
    /// The distance between the main content and the spoiler content.
    pub main_content_spoiler_content_padding: CssSize,
}

impl View for PresentationDesignTemplate {
    type V = PresentationDesignTemplateView;

    closed spec fn view(&self) -> PresentationDesignTemplateView {
        PresentationDesignTemplateView {
            fonts: self.fonts.deep_view(),
            headline_index: self.headline_index,
            spoiler_index: self.spoiler_index,
            meta_index: self.meta_index,
            vertical_alignment: self.vertical_alignment,
            spoiler_content_fontsize_factor: self.spoiler_content_fontsize_factor,
            background_color: self.background_color,
            background_transparency: self.background_transparency,
            padding: self.padding,
            background_image: match self.background_image {
                Some(f) => Some(f@),
                None => None,
            },
            main_content_spoiler_content_padding: self.main_content_spoiler_content_padding,
        }
    }
}

impl DeepView for PresentationDesignTemplate {
    type V = PresentationDesignTemplateView;

    open spec fn deep_view(&self) -> PresentationDesignTemplateView {
        self.view()
    }
}

/// The template a new design starts from: the three default fonts, black
/// background, twenty pixels of padding.
pub open spec fn default_template_view() -> PresentationDesignTemplateView {
    PresentationDesignTemplateView {
        fonts: seq![default_font_view(), default_spoiler_font_view(), default_meta_font_view()],
        headline_index: Some(0u16),
        spoiler_index: Some(1u16),
        meta_index: Some(2u16),
        vertical_alignment: VerticalAlign::Middle,
        spoiler_content_fontsize_factor: 6,
        background_color: Rgb8 { r: 0, g: 0, b: 0 },
        background_transparency: 0,
        padding: default_padding_spec(),
        background_image: None,
        main_content_spoiler_content_padding: CssSize::Px(200),
    }
}

impl Default for PresentationDesignTemplate {
    fn default() -> (r: PresentationDesignTemplate)
        ensures
            r@ == default_template_view(),
    {
        let fonts = vec![
            FontRepresentation::default(),
            FontRepresentation::default_spoiler(),
            FontRepresentation::default_meta(),
        ];
        proof {
            assert(fonts.deep_view() =~= default_template_view().fonts);
        }
        PresentationDesignTemplate {
            fonts,
            headline_index: Some(0),
            spoiler_index: Some(1),
            meta_index: Some(2),
            vertical_alignment: VerticalAlign::default(),
            spoiler_content_fontsize_factor: 6,
            background_color: Rgb8 { r: 0, g: 0, b: 0 },
            background_transparency: 0,
            padding: default_padding(),
            background_image: None,
            main_content_spoiler_content_padding: CssSize::Px(200),
        }
    }
}

/// The comma-separated decimal `r, g, b` text of a colour.
pub open spec fn rgb_dec_seq(c: Rgb8) -> Seq<char> {
    dec_seq(c.r as int) + ", "@ + dec_seq(c.g as int) + ", "@ + dec_seq(c.b as int)
}

impl PresentationDesignTemplate {
    /// The background colour as the comma-separated decimal channel list
    /// CSS `rgb(...)` expects.
    pub fn get_background_as_rgb_string(&self) -> (s: String)
        ensures
            s@ == rgb_dec_seq(self@.background_color),
    {
        let mut out = u32_dec_string(self.background_color.r as u32);
        out.append(", ");
        out.append(u32_dec_string(self.background_color.g as u32).as_str());
        out.append(", ");
        out.append(u32_dec_string(self.background_color.b as u32).as_str());
        proof {
            assert(out@ =~= rgb_dec_seq(self@.background_color));
        }
        out
    }

    /// The background colour as a `#RRGGBB` text.
    pub fn get_background_color_as_hex_string(&self) -> (s: String)
        ensures
            s@ == rgb_hex_seq(
                self@.background_color.r as int,
                self@.background_color.g as int,
                self@.background_color.b as int,
            ),
    {
        rgb_hex_string(self.background_color.r, self.background_color.g, self.background_color.b)
    }

    /// Sets the background colour from a hexadecimal text. Returns `Ok(())`
    /// and updates the colour exactly when the text is a valid six-digit
    /// colour; otherwise returns `Err(())` and changes nothing.
    pub fn set_background_color_from_hex_str(&mut self, hex_string: &str) -> (r: Result<(), ()>)
        ensures
            r is Ok <==> is_hex_color(hex_string@),
            is_hex_color(hex_string@) ==> final(self)@ == (PresentationDesignTemplateView {
                background_color: hex_color_value(hex_string@),
                ..old(self)@
            }),
            !is_hex_color(hex_string@) ==> final(self)@ == old(self)@,
    {
        match parse_hex_color(hex_string) {
            Some(rgb) => {
                self.background_color = rgb;
                Ok(())
            },
            None => Err(()),
        }
    }

    /// The headline font index.
    pub fn headline_index(&self) -> (r: Option<u16>)
        ensures
            r == self@.headline_index,
    {
        self.headline_index
    }

    /// The spoiler font index.
    pub fn spoiler_index(&self) -> (r: Option<u16>)
        ensures
            r == self@.spoiler_index,
    {
        self.spoiler_index
    }

    /// Sets the headline font index if a font with that index exists;
    /// an index out of range changes nothing. `None` clears the index.
    pub fn set_headline_index(&mut self, headline_index: Option<u16>)
        ensures
            final(self)@ == (match headline_index {
                Some(index) => if (index as int) < old(self)@.fonts.len() {
                    PresentationDesignTemplateView {
                        headline_index: Some(index),
                        ..old(self)@
                    }
                } else {
                    old(self)@
                },
                None => PresentationDesignTemplateView { headline_index: None, ..old(self)@ },
            }),
    {
        match headline_index {
            Some(index) => {
                if (index as usize) < self.fonts.len() {
                    self.headline_index = Some(index);
                }
            },
            None => self.headline_index = None,
        }
    }

    /// Sets the spoiler font index if a font with that index exists;
    /// an index out of range changes nothing. `None` clears the index.
    pub fn set_spoiler_index(&mut self, spoiler_index: Option<u16>)
        ensures
            final(self)@ == (match spoiler_index {
                Some(index) => if (index as int) < old(self)@.fonts.len() {
                    PresentationDesignTemplateView {
                        spoiler_index: Some(index),
                        ..old(self)@
                    }
                } else {
                    old(self)@
                },
                None => PresentationDesignTemplateView { spoiler_index: None, ..old(self)@ },
            }),
    {
        match spoiler_index {
            Some(index) => {
                if (index as usize) < self.fonts.len() {
                    self.spoiler_index = Some(index);
                }
            },
            None => self.spoiler_index = None,
        }
    }

    /// The first configured font, or the system default when none is
    /// configured.
    pub fn get_default_font(&self) -> (r: FontRepresentation)
        ensures
            r@ == (if self@.fonts.len() > 0 {
                self@.fonts[0]
            } else {
                default_font_view()
            }),
    {
        if self.fonts.len() > 0 {
            self.fonts[0].duplicate()
        } else {
            FontRepresentation::default()
        }
    }

    /// The font the spoiler index points at, or the default spoiler font
    /// when the index is unset or out of range.
    pub fn get_default_spoiler_font(&self) -> (r: FontRepresentation)
        ensures
            r@ == (match self@.spoiler_index {
                Some(i) => if (i as int) < self@.fonts.len() {
                    self@.fonts[i as int]
                } else {
                    default_spoiler_font_view()
                },
                None => default_spoiler_font_view(),
            }),
    {
        match self.spoiler_index {
            Some(spoiler_index) => {
                if (spoiler_index as usize) < self.fonts.len() {
                    self.fonts[spoiler_index as usize].duplicate()
                } else {
                    FontRepresentation::default_spoiler()
                }
            },
            None => FontRepresentation::default_spoiler(),
        }
    }

    /// The font the headline index points at, or the system default font
    /// when the index is unset or out of range.
    pub fn get_default_headline_font(&self) -> (r: FontRepresentation)
        ensures
            r@ == (match self@.headline_index {
                Some(i) => if (i as int) < self@.fonts.len() {
                    self@.fonts[i as int]
                } else {
                    default_font_view()
                },
                None => default_font_view(),
            }),
    {
        match self.headline_index {
            Some(headline_index) => {
                if (headline_index as usize) < self.fonts.len() {
                    self.fonts[headline_index as usize].duplicate()
                } else {
                    FontRepresentation::default()
                }
            },
            None => FontRepresentation::default(),
        }
    }

    /// The font the meta index points at, or the default meta font when the
    /// index is unset or out of range.
    pub fn get_default_meta_font(&self) -> (r: FontRepresentation)
        ensures
            r@ == (match self@.meta_index {
                Some(i) => if (i as int) < self@.fonts.len() {
                    self@.fonts[i as int]
                } else {
                    default_meta_font_view()
                },
                None => default_meta_font_view(),
            }),
    {
        match self.meta_index {
            Some(meta_index) => {
                if (meta_index as usize) < self.fonts.len() {
                    self.fonts[meta_index as usize].duplicate()
                } else {
                    FontRepresentation::default_meta()
                }
            },
            None => FontRepresentation::default_meta(),
        }
    }

    /// An owned copy with the same content.
    pub fn duplicate(&self) -> (r: PresentationDesignTemplate)
        ensures
            r@ == self@,
    {
        let mut fonts: Vec<FontRepresentation> = Vec::new();
        let mut i: usize = 0;
        while i < self.fonts.len()
            invariant
                i <= self.fonts.len(),
                fonts@.len() == i,
                forall|j: int| 0 <= j < i ==> (#[trigger] fonts@[j])@ == self.fonts@[j]@,
            decreases self.fonts.len() - i,
        {
            fonts.push(self.fonts[i].duplicate());
            i = i + 1;
        }
        proof {
            assert forall|j: int| 0 <= j < fonts@.len() implies fonts.deep_view()[j]
                == self.fonts.deep_view()[j] by {
                assert(fonts@[j]@ == self.fonts@[j]@);
            }
            assert(fonts.deep_view() =~= self.fonts.deep_view());
        }
        PresentationDesignTemplate {
            fonts,
            headline_index: self.headline_index,
            spoiler_index: self.spoiler_index,
            meta_index: self.meta_index,
            vertical_alignment: self.vertical_alignment,
            spoiler_content_fontsize_factor: self.spoiler_content_fontsize_factor,
            background_color: self.background_color,
            background_transparency: self.background_transparency,
            padding: self.padding,
            background_image: match &self.background_image {
                Some(f) => Some(f.duplicate()),
                None => None,
            },
            main_content_spoiler_content_padding: self.main_content_spoiler_content_padding,
        }
    }
}

/// Ghost mirror of [`PresentationDesignSettings`].
pub ghost enum PresentationDesignSettingsView {
    Template(PresentationDesignTemplateView),
    Custom(Seq<char>),
}

/// How a presentation design is described: by a template set up in the
/// program, or by hand-written markup.
#[derive(Debug, PartialEq)]
pub enum PresentationDesignSettings {
    /// A design described by a template.
    Template(PresentationDesignTemplate),
    /// A design given directly as markup text.
    Custom(String),
}

impl View for PresentationDesignSettings {
    type V = PresentationDesignSettingsView;

    open spec fn view(&self) -> PresentationDesignSettingsView {
        match self {
            PresentationDesignSettings::Template(t) => PresentationDesignSettingsView::Template(
                t@,
            ),
            PresentationDesignSettings::Custom(s) => PresentationDesignSettingsView::Custom(s@),
        }
    }
}

impl Default for PresentationDesignSettings {
    fn default() -> (r: PresentationDesignSettings)
        ensures
            r@ == PresentationDesignSettingsView::Template(default_template_view()),
    {
        PresentationDesignSettings::Template(PresentationDesignTemplate::default())
    }
}

impl PresentationDesignSettings {
    /// An owned copy with the same content.
    pub fn duplicate(&self) -> (r: PresentationDesignSettings)
        ensures
            r@ == self@,
    {
        match self {
            PresentationDesignSettings::Template(t) => PresentationDesignSettings::Template(
                t.duplicate(),
            ),
            PresentationDesignSettings::Custom(s) => PresentationDesignSettings::Custom(s.clone()),
        }
    }
}

/// Ghost mirror of [`PresentationDesign`].
pub ghost struct PresentationDesignView {
    pub name: Seq<char>,
    pub description: Seq<char>,
    pub presentation_design_settings: PresentationDesignSettingsView,
}

/// A named presentation design.
#[derive(Debug, PartialEq)]
pub struct PresentationDesign {
    /// A name that identifies the design.
    pub name: String,
    /// A description; may be empty.
    pub description: String,
    /// What the design looks like.
    pub presentation_design_settings: PresentationDesignSettings,
}

impl View for PresentationDesign {
    type V = PresentationDesignView;

    open spec fn view(&self) -> PresentationDesignView {
        PresentationDesignView {
            name: self.name@,
            description: self.description@,
            presentation_design_settings: self.presentation_design_settings@,
        }
    }
}

impl DeepView for PresentationDesign {
    type V = PresentationDesignView;

    open spec fn deep_view(&self) -> PresentationDesignView {
        self.view()
    }
}

/// The design used when none is configured: the default template under the
/// name `Default`.
pub open spec fn default_design_view() -> PresentationDesignView {
    PresentationDesignView {
        name: "Default"@,
        description: ""@,
        presentation_design_settings: PresentationDesignSettingsView::Template(
            default_template_view(),
        ),
    }
}

impl Default for PresentationDesign {
    fn default() -> (r: PresentationDesign)
        ensures
            r@ == default_design_view(),
    {
        PresentationDesign {
            name: String::from_str("Default"),
            description: String::from_str(""),
            presentation_design_settings: PresentationDesignSettings::default(),
        }
    }
}

impl PresentationDesign {
    /// An owned copy with the same content.
    pub fn duplicate(&self) -> (r: PresentationDesign)
        ensures
            r@ == self@,
    {
        PresentationDesign {
            name: self.name.clone(),
            description: self.description.clone(),
            presentation_design_settings: self.presentation_design_settings.duplicate(),
        }
    }
}

/// Ghost mirror of [`RepositoryType`].
pub ghost enum RepositoryTypeView {
    LocaleFilePath(Seq<char>),
    Remote(Seq<char>),
    RemoteZip(Seq<char>),
}

/// Where a repository's files come from.
#[derive(Debug, PartialEq)]
pub enum RepositoryType {
    /// A local folder, given by its path.
    LocaleFilePath(String),
    /// A remote URL. Not implemented yet.
    Remote(String),
    /// A remote ZIP file, downloaded and unpacked into a temporary folder
    /// outside this library; the text is the URL of the ZIP file.
    RemoteZip(String),
}

impl View for RepositoryType {
    type V = RepositoryTypeView;

    open spec fn view(&self) -> RepositoryTypeView {
        match self {
            RepositoryType::LocaleFilePath(p) => RepositoryTypeView::LocaleFilePath(p@),
            RepositoryType::Remote(u) => RepositoryTypeView::Remote(u@),
            RepositoryType::RemoteZip(u) => RepositoryTypeView::RemoteZip(u@),
        }
    }
}

impl RepositoryType {
    /// An owned copy with the same content.
    pub fn duplicate(&self) -> (r: RepositoryType)
        ensures
            r@ == self@,
    {
        match self {
            RepositoryType::LocaleFilePath(p) => RepositoryType::LocaleFilePath(p.clone()),
            RepositoryType::Remote(u) => RepositoryType::Remote(u.clone()),
            RepositoryType::RemoteZip(u) => RepositoryType::RemoteZip(u.clone()),
        }
    }
}

/// Ghost mirror of [`Repository`].
pub ghost struct RepositoryView {
    pub name: Seq<char>,
    pub removable: bool,
    pub writing_permissions: bool,
    pub repository_type: RepositoryTypeView,
}

/// A repository of source files.
#[derive(Debug, PartialEq)]
pub struct Repository {
    /// A user-given name that identifies the repository.
    pub name: String,
    /// Whether the repository can be removed.
    pub removable: bool,
    /// Whether the user may write into the repository.
    pub writing_permissions: bool,
    /// Where the repository's files come from.
    pub repository_type: RepositoryType,
}

impl View for Repository {
    type V = RepositoryView;

    open spec fn view(&self) -> RepositoryView {
        RepositoryView {
            name: self.name@,
            removable: self.removable,
            writing_permissions: self.writing_permissions,
            repository_type: self.repository_type@,
        }
    }
}

impl DeepView for Repository {
    type V = RepositoryView;

    open spec fn deep_view(&self) -> RepositoryView {
        self.view()
    }
}

impl Repository {
    /// A removable, writable repository over a local folder.
    pub fn new_local_folder(name: String, path: String) -> (r: Repository)
        ensures
            r@ == (RepositoryView {
                name: name@,
                removable: true,
                writing_permissions: true,
                repository_type: RepositoryTypeView::LocaleFilePath(path@),
            }),
    {
        Repository {
            name,
            removable: true,
            writing_permissions: true,
            repository_type: RepositoryType::LocaleFilePath(path),
        }
    }

    /// A removable, read-only repository over a remote ZIP file.
    pub fn new_remote_zip(name: String, url: String) -> (r: Repository)
        ensures
            r@ == (RepositoryView {
                name: name@,
                removable: true,
                writing_permissions: false,
                repository_type: RepositoryTypeView::RemoteZip(url@),
            }),
    {
        Repository {
            name,
            removable: true,
            writing_permissions: false,
            repository_type: RepositoryType::RemoteZip(url),
        }
    }

    /// An owned copy with the same content.
    pub fn duplicate(&self) -> (r: Repository)
        ensures
            r@ == self@,
    {
        Repository {
            name: self.name.clone(),
            removable: self.removable,
            writing_permissions: self.writing_permissions,
            repository_type: self.repository_type.duplicate(),
        }
    }
}

/// Whether two repository sources agree.
fn repository_type_eq(a: &RepositoryType, b: &RepositoryType) -> (r: bool)
    ensures
        r == (a@ == b@),
{
    match a {
        RepositoryType::LocaleFilePath(p1) => match b {
            RepositoryType::LocaleFilePath(p2) => *p1 == *p2,
            _ => false,
        },
        RepositoryType::Remote(u1) => match b {
            RepositoryType::Remote(u2) => *u1 == *u2,
            _ => false,
        },
        RepositoryType::RemoteZip(u1) => match b {
            RepositoryType::RemoteZip(u2) => *u1 == *u2,
            _ => false,
        },
    }
}

/// Whether two repositories agree in every field.
fn repository_eq(a: &Repository, b: &Repository) -> (r: bool)
    ensures
        r == (a@ == b@),
{
    if !(a.name == b.name) {
        return false;
    }
    if a.removable != b.removable {
        return false;
    }
    if a.writing_permissions != b.writing_permissions {
        return false;
    }
    repository_type_eq(&a.repository_type, &b.repository_type)
}

/// Ghost mirror of [`Settings`].
pub ghost struct SettingsView {
    pub repositories: Seq<RepositoryView>,
    pub wizard_completed: bool,
    pub presentation_designs: Seq<PresentationDesignView>,
    pub song_slide_settings: Seq<SlideSettingsView>,
    pub always_start_fullscreen: bool,
}

/// The program's settings.
#[derive(Debug, PartialEq)]
pub struct Settings {
    /// The repositories the program takes source files from.
    pub repositories: Vec<Repository>,
    /// Set once the initial wizard has been completed.
    pub wizard_completed: bool,
    /// The configured presentation designs; a default is added when none
    /// is configured.
    pub presentation_designs: Vec<PresentationDesign>,
    /// The configured song slide settings; a default is added when none is
    /// configured.
    pub song_slide_settings: Vec<SlideSettings>,
    /// Whether presentations start in fullscreen mode.
    pub always_start_fullscreen: bool,
}

impl View for Settings {
    type V = SettingsView;

    open spec fn view(&self) -> SettingsView {
        SettingsView {
            repositories: self.repositories.deep_view(),
            wizard_completed: self.wizard_completed,
            presentation_designs: self.presentation_designs.deep_view(),
            song_slide_settings: self.song_slide_settings.deep_view(),
            always_start_fullscreen: self.always_start_fullscreen,
        }
    }
}

/// The presentation designs a fresh configuration holds: the default
/// design alone.
fn default_presentation_design_vec() -> (r: Vec<PresentationDesign>)
    ensures
        r.deep_view() == seq![default_design_view()],
{
    let mut designs: Vec<PresentationDesign> = Vec::new();
    designs.push(PresentationDesign::default());
    proof {
        assert(designs.deep_view()[0] == designs@[0]@);
        assert(designs.deep_view() =~= seq![default_design_view()]);
    }
    designs
}

/// The song slide settings a fresh configuration holds: the default
/// settings alone.
fn default_song_slide_vec() -> (r: Vec<SlideSettings>)
    ensures
        r.deep_view() == seq![default_slide_settings_view()],
{
    let mut settings: Vec<SlideSettings> = Vec::new();
    settings.push(SlideSettings::default());
    proof {
        assert(settings.deep_view()[0] == settings@[0]@);
        assert(settings.deep_view() =~= seq![default_slide_settings_view()]);
    }
    settings
}

/// Whether presentations start in fullscreen mode when nothing is
/// configured.
fn default_always_start_fullscreen() -> (r: bool)
    ensures
        r == false,
{
    false
}

impl Default for Settings {
    /// No repositories, wizard not completed, one default design, one
    /// default slide settings, no automatic fullscreen.
    fn default() -> (r: Settings)
        ensures
            r@.repositories == Seq::<RepositoryView>::empty(),
            !r@.wizard_completed,
            r@.presentation_designs == seq![default_design_view()],
            r@.song_slide_settings == seq![default_slide_settings_view()],
            !r@.always_start_fullscreen,
    {
        let repositories: Vec<Repository> = Vec::new();
        proof {
            assert(repositories.deep_view() =~= Seq::<RepositoryView>::empty());
        }
        Settings {
            repositories,
            wizard_completed: false,
            presentation_designs: default_presentation_design_vec(),
            song_slide_settings: default_song_slide_vec(),
            always_start_fullscreen: default_always_start_fullscreen(),
        }
    }
}

/// The last directory of a path as text: what stands after the last path
/// separator, once trailing separators are removed.
pub open spec fn trim_end_seps(s: Seq<char>) -> Seq<char>
    decreases s.len(),
{
    if s.len() > 0 && (s.last() == '/' || s.last() == '\\') {
        trim_end_seps(s.drop_last())
    } else {
        s
    }
}

/// The part of a text after its last path separator, either kind.
pub open spec fn after_last_sep(s: Seq<char>) -> Seq<char>
    decreases s.len(),
{
    if s.len() == 0 {
        s
    } else if s.last() == '/' || s.last() == '\\' {
        Seq::<char>::empty()
    } else {
        after_last_sep(s.drop_last()).push(s.last())
    }
}


/// Whether a character is a path separator.
fn is_path_sep(c: char) -> (r: bool)
    ensures
        r == (c == '/' || c == '\\'),
{
    c == '/' || c == '\\'
}

/// The last directory name of a path: the text after the last separator,
/// trailing separators ignored; `None` when nothing remains.
pub fn get_last_dir(path: &str) -> (r: Option<&str>)
    ensures
        r is Some <==> after_last_sep(trim_end_seps(path@)).len() > 0,
        r matches Some(s) ==> s@ == after_last_sep(trim_end_seps(path@)),
{
    let n = path.unicode_len();
    let mut end: usize = n;
    proof {
        assert(path@.take(n as int) =~= path@);
    }
    while end > 0 && is_path_sep(path.get_char(end - 1))
        invariant
            end <= n,
            n == path@.len(),
            trim_end_seps(path@) == trim_end_seps(path@.take(end as int)),
        decreases end,
    {
        proof {
            let t = path@.take(end as int);
            assert(t.last() == path@[end - 1]);
            assert(t.drop_last() =~= path@.take(end - 1));
        }
        end = end - 1;
    }
    proof {
        if end > 0 {
            assert(path@.take(end as int).last() == path@[end - 1]);
        }
        assert(trim_end_seps(path@) == path@.take(end as int));
    }
    let ghost trimmed = trim_end_seps(path@);
    let mut start: usize = end;
    proof {
        assert(trimmed.take(end as int) =~= trimmed);
        assert(trimmed.skip(end as int) =~= Seq::<char>::empty());
        assert(after_last_sep(trimmed) =~= after_last_sep(trimmed.take(start as int))
            + trimmed.skip(start as int));
    }
    while start > 0 && !is_path_sep(path.get_char(start - 1))
        invariant
            start <= end,
            end <= n,
            n == path@.len(),
            trimmed == trim_end_seps(path@),
            trimmed == path@.take(end as int),
            after_last_sep(trimmed) == after_last_sep(trimmed.take(start as int)) + trimmed.skip(
                start as int,
            ),
        decreases start,
    {
        proof {
            let t = trimmed.take(start as int);
            assert(t.last() == trimmed[start - 1]);
            assert(trimmed[start - 1] == path@[start - 1]);
            assert(t.drop_last() =~= trimmed.take(start - 1));
            assert(after_last_sep(trimmed.take(start - 1)).push(trimmed[start - 1])
                + trimmed.skip(start as int) =~= after_last_sep(trimmed.take(start - 1))
                + trimmed.skip(start - 1));
        }
        start = start - 1;
    }
    proof {
        if start > 0 {
            assert(trimmed.take(start as int).last() == trimmed[start - 1]);
            assert(trimmed[start - 1] == path@[start - 1]);
            assert(after_last_sep(trimmed.take(start as int)) =~= Seq::<char>::empty());
        } else {
            assert(trimmed.take(0) =~= Seq::<char>::empty());
        }
        assert(after_last_sep(trimmed) =~= trimmed.skip(start as int));
    }
    if start == end {
        None
    } else {
        let segment = path.substring_char(start, end);
        proof {
            assert(segment@ =~= trimmed.skip(start as int));
        }
        Some(segment)
    }
}

/// The part of a text before its first dot: the whole text when it has no
/// dot.
pub open spec fn before_first_dot(s: Seq<char>) -> Seq<char>
    decreases s.len(),
{
    if s.len() == 0 {
        s
    } else if s[0] == '.' {
        Seq::<char>::empty()
    } else {
        seq![s[0]] + before_first_dot(s.drop_first())
    }
}

/// The name a repository gets from a URL: the last path segment of the
/// URL, cut before its first dot.
pub open spec fn repo_name_of_url(url: Seq<char>) -> Seq<char> {
    before_first_dot(file_name_of(url))
}

fn url_repo_name(url: &str) -> (r: String)
    ensures
        r@ == repo_name_of_url(url@),
{
    let n = url.unicode_len();
    let mut j: usize = n;
    proof {
        assert(url@.take(n as int) =~= url@);
        assert(url@.skip(n as int) =~= Seq::<char>::empty());
        assert(file_name_of(url@) =~= file_name_of(url@.take(j as int)) + url@.skip(j as int));
    }
    while j > 0 && url.get_char(j - 1) != '/'
        invariant
            j <= n,
            n == url@.len(),
            file_name_of(url@) == file_name_of(url@.take(j as int)) + url@.skip(j as int),
        decreases j,
    {
        proof {
            let t = url@.take(j as int);
            assert(t.last() == url@[j - 1]);
            assert(t.drop_last() =~= url@.take(j - 1));
            assert(file_name_of(url@.take(j - 1)).push(url@[j - 1]) + url@.skip(j as int)
                =~= file_name_of(url@.take(j - 1)) + url@.skip(j - 1));
        }
        j = j - 1;
    }
    proof {
        if j > 0 {
            assert(url@.take(j as int).last() == url@[j - 1]);
            assert(file_name_of(url@.take(j as int)) =~= Seq::<char>::empty());
        } else {
            assert(url@.take(0) =~= Seq::<char>::empty());
        }
        assert(file_name_of(url@) =~= url@.skip(j as int));
    }
    let ghost fname = file_name_of(url@);
    let mut q: usize = j;
    proof {
        assert(fname.skip(0) =~= fname);
        assert(before_first_dot(fname) =~= fname.take(0) + before_first_dot(fname.skip(0)));
    }
    while q < n && url.get_char(q) != '.'
        invariant
            j <= q <= n,
            n == url@.len(),
            fname == file_name_of(url@),
            fname == url@.skip(j as int),
            before_first_dot(fname) == fname.take(q - j) + before_first_dot(
                fname.skip(q - j),
            ),
        decreases n - q,
    {
        proof {
            let rest = fname.skip(q - j);
            assert(rest[0] == fname[q - j]);
            assert(fname[q - j] == url@[q as int]);
            assert(rest.drop_first() =~= fname.skip(q - j + 1));
            assert(fname.take(q - j) + (seq![fname[q - j]] + before_first_dot(
                fname.skip(q - j + 1),
            )) =~= fname.take(q - j + 1) + before_first_dot(fname.skip(q - j + 1)));
        }
        q = q + 1;
    }
    proof {
        let rest = fname.skip(q - j);
        if q < n {
            assert(rest[0] == fname[q - j]);
            assert(fname[q - j] == url@[q as int]);
            assert(before_first_dot(rest) =~= Seq::<char>::empty());
        } else {
            assert(rest =~= Seq::<char>::empty());
        }
        assert(before_first_dot(fname) =~= fname.take(q - j));
    }
    let segment = url.substring_char(j, q);
    proof {
        assert(segment@ =~= fname.take(q - j));
    }
    String::from_str(segment)
}

/// The views of every file of every repository listing, in order.
pub open spec fn all_repo_files(lists: Seq<Vec<SourceFile>>, k: int) -> Seq<SourceFileView>
    decreases lists.len() - k,
{
    if k < 0 || k >= lists.len() {
        Seq::<SourceFileView>::empty()
    } else {
        lists[k].deep_view() + all_repo_files(lists, k + 1)
    }
}

impl Settings {
    /// Adds a repository unless an identical one is already present.
    pub fn add_repository(&mut self, repo: Repository)
        ensures
            final(self)@ == (SettingsView {
                repositories: if old(self)@.repositories.contains(repo@) {
                    old(self)@.repositories
                } else {
                    old(self)@.repositories.push(repo@)
                },
                ..old(self)@
            }),
    {
        let ghost repos = self@.repositories;
        let n = self.repositories.len();
        let mut i: usize = 0;
        let mut found = false;
        while i < n
            invariant
                i <= n,
                n == self.repositories@.len(),
                repos == self@.repositories,
                found ==> repos.contains(repo@),
                !found ==> forall|j: int| 0 <= j < i ==> #[trigger] repos[j] != repo@,
            decreases n - i,
        {
            if repository_eq(&self.repositories[i], &repo) {
                proof {
                    assert(repos[i as int] == repo@);
                }
                found = true;
            }
            i = i + 1;
        }
        if !found {
            proof {
                assert(!repos.contains(repo@));
            }
            let ghost before = self@.repositories;
            self.repositories.push(repo);
            proof {
                let dv = self.repositories.deep_view();
                assert forall|w: int| 0 <= w < before.len() implies dv[w] == before[w] by {
                    assert(dv[w] == self.repositories@[w]@);
                }
                assert(dv[before.len() as int] == self.repositories@[before.len() as int]@);
                assert(dv =~= before.push(repo@));
            }
        }
    }

    /// Adds a local folder as a repository, named after the folder's last
    /// directory — or after the whole path where no directory name can be
    /// read from it.
    pub fn add_repository_folder(&mut self, folder: String)
        ensures
            final(self)@ == (SettingsView {
                repositories: old(self)@.repositories.push(
                    RepositoryView {
                        name: {
                            let segment = after_last_sep(trim_end_seps(folder@));
                            if segment.len() > 0 {
                                segment
                            } else {
                                folder@
                            }
                        },
                        removable: true,
                        writing_permissions: true,
                        repository_type: RepositoryTypeView::LocaleFilePath(folder@),
                    },
                ),
                ..old(self)@
            }),
    {
        let name: String = match get_last_dir(folder.as_str()) {
            Some(segment) => String::from_str(segment),
            None => folder.clone(),
        };
        let ghost before = self@.repositories;
        let repo = Repository::new_local_folder(name, folder);
        self.repositories.push(repo);
        proof {
            let dv = self.repositories.deep_view();
            assert forall|w: int| 0 <= w < before.len() implies dv[w] == before[w] by {
                assert(dv[w] == self.repositories@[w]@);
            }
            assert(dv[before.len() as int] == self.repositories@[before.len() as int]@);
            assert(dv =~= before.push(dv[before.len() as int]));
        }
    }

    /// Adds a remote ZIP repository under the given name.
    pub fn add_remote_zip_repository(&mut self, name: String, url: String)
        ensures
            final(self)@ == (SettingsView {
                repositories: old(self)@.repositories.push(
                    RepositoryView {
                        name: name@,
                        removable: true,
                        writing_permissions: false,
                        repository_type: RepositoryTypeView::RemoteZip(url@),
                    },
                ),
                ..old(self)@
            }),
    {
        let ghost before = self@.repositories;
        let repo = Repository::new_remote_zip(name, url);
        self.repositories.push(repo);
        proof {
            let dv = self.repositories.deep_view();
            assert forall|w: int| 0 <= w < before.len() implies dv[w] == before[w] by {
                assert(dv[w] == self.repositories@[w]@);
            }
            assert(dv[before.len() as int] == self.repositories@[before.len() as int]@);
            assert(dv =~= before.push(dv[before.len() as int]));
        }
    }

    /// Adds a remote ZIP repository, named from the URL: the last path
    /// segment before its first dot.
    pub fn add_remote_zip_repository_url(&mut self, url: String)
        ensures
            final(self)@ == (SettingsView {
                repositories: old(self)@.repositories.push(
                    RepositoryView {
                        name: repo_name_of_url(url@),
                        removable: true,
                        writing_permissions: false,
                        repository_type: RepositoryTypeView::RemoteZip(url@),
                    },
                ),
                ..old(self)@
            }),
    {
        let name = url_repo_name(url.as_str());
        self.add_remote_zip_repository(name, url);
    }

    /// Every source file of every repository, as one ordered listing
    /// without repetitions. The files themselves come from scans performed
    /// outside this library, one listing per repository in repository
    /// order.
    pub fn get_sourcefiles(&self, repository_files: Vec<Vec<SourceFile>>) -> (r: Vec<SourceFile>)
        ensures
            forall|j: int|
                0 <= j && j + 1 < r.deep_view().len() ==> source_file_le(
                    #[trigger] r.deep_view()[j],
                    r.deep_view()[j + 1],
                ) && r.deep_view()[j] != r.deep_view()[j + 1],
            forall|x: SourceFileView|
                r.deep_view().contains(x) <==> all_repo_files(repository_files@, 0).contains(x),
    {
        let ghost lists = repository_files@;
        let mut source_files: Vec<SourceFile> = Vec::new();
        let mut remaining = repository_files;
        let mut k: usize = 0;
        let n = remaining.len();
        proof {
            assert(all_repo_files(lists, 0) =~= source_files.deep_view() + all_repo_files(
                lists,
                0,
            ));
        }
        while k < n
            invariant
                k <= n,
                n == lists.len(),
                remaining@ == lists,
                all_repo_files(lists, 0) == source_files.deep_view() + all_repo_files(
                    lists,
                    k as int,
                ),
            decreases n - k,
        {
            let ghost before = source_files.deep_view();
            let ghost head = lists[k as int].deep_view();
            let list = &remaining[k];
            let m = list.len();
            let mut f: usize = 0;
            while f < m
                invariant
                    f <= m,
                    m == list@.len(),
                    *list == lists[k as int],
                    head == lists[k as int].deep_view(),
                    source_files.deep_view() == before + head.take(f as int),
                decreases m - f,
            {
                let ghost mid = source_files.deep_view();
                source_files.push(list[f].duplicate());
                proof {
                    let dv = source_files.deep_view();
                    assert forall|w: int| 0 <= w < mid.len() implies dv[w] == mid[w] by {
                        assert(dv[w] == source_files@[w]@);
                    }
                    assert(dv[mid.len() as int] == source_files@[mid.len() as int]@);
                    assert(head[f as int] == list@[f as int]@);
                    assert(dv =~= before + head.take(f + 1));
                }
                f = f + 1;
            }
            proof {
                assert(head.take(m as int) =~= head);
                assert(all_repo_files(lists, k as int) == head + all_repo_files(lists, k + 1));
                assert(all_repo_files(lists, 0) =~= source_files.deep_view() + all_repo_files(
                    lists,
                    k + 1,
                ));
            }
            k = k + 1;
        }
        proof {
            assert(all_repo_files(lists, n as int) =~= Seq::<SourceFileView>::empty());
            assert(all_repo_files(lists, 0) =~= source_files.deep_view());
        }
        sort_and_dedup_source_files(source_files)
    }
}

/// Relies on `dirs::config_local_dir` for the platform's configuration
/// directory; the result depends on the machine and environment, so
/// nothing is promised of it. A path that is not valid text is reported as
/// `None`.
#[verifier::external_body]
fn config_local_dir_string() -> (r: Option<String>) {
    dirs::config_local_dir().and_then(|dir| dir.into_os_string().into_string().ok())
}

/// The folder the program's settings live in: the directory `cantara`
/// under the platform's configuration directory, whatever holds of the
/// latter.
pub fn get_settings_folder() -> (r: Option<String>)
    ensures
        r matches Some(s) ==> ends_with(s@, "/cantara"@),
{
    match config_local_dir_string() {
        Some(dir) => {
            let mut folder = dir;
            folder.append("/cantara");
            proof {
                assert(folder@.skip(folder@.len() - "/cantara"@.len()) =~= "/cantara"@);
            }
            Some(folder)
        },
        None => None,
    }
}

/// The program's settings file: `settings.json` in the settings folder.
pub fn get_settings_file() -> (r: Option<String>)
    ensures
        r matches Some(s) ==> ends_with(s@, "/cantara/settings.json"@),
{
    match get_settings_folder() {
        Some(folder) => {
            let ghost before = folder@;
            let mut file = folder;
            file.append("/settings.json");
            proof {
                let ghost target = "/cantara/settings.json"@;
                assert(target =~= "/cantara"@ + "/settings.json"@) by {
                    reveal_strlit("/cantara/settings.json");
                    reveal_strlit("/cantara");
                    reveal_strlit("/settings.json");
                }
                assert(before.skip(before.len() - "/cantara"@.len()) == "/cantara"@);
                assert(file@.skip(file@.len() - target.len()) =~= before.skip(
                    before.len() - "/cantara"@.len(),
                ) + "/settings.json"@);
                assert(file@.skip(file@.len() - target.len()) =~= target);
            }
            Some(file)
        },
        None => None,
    }
}

/// Parses a hexadecimal colour expression such as `#FF0080`.
pub fn hex_string_to_rgb(hex_string: &str) -> (r: Option<Rgb8>)
    ensures
        r is Some <==> is_hex_color(hex_string@),
        r matches Some(c) ==> c == hex_color_value(hex_string@),
{
    parse_hex_color(hex_string)
}

} // verus!
