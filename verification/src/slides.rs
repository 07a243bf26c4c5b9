//! The content units a presentation is made of.
//!
//! A [`Slide`] is one renderable unit. The presentation engine never looks
//! inside a slide: it stores slides, counts them and hands the current one to
//! the rendering layer. The slide compiler that produces them from song files
//! is a separate program outside this library, so the slide forms live here as
//! plain values that such a compiler (or a test) can construct.

use vstd::prelude::*;

verus! {

/// Ghost mirror of [`SlideContent`], with every string as a `Seq<char>`.
pub ghost enum SlideContentView {
    SingleLanguageMainContent {
        main_text: Seq<char>,
        spoiler_text: Option<Seq<char>>,
        meta_text: Option<Seq<char>>,
    },
    Title { title_text: Seq<char>, meta_text: Option<Seq<char>> },
    Empty { black_background: bool },
}

/// Ghost mirror of [`Slide`].
pub ghost struct SlideView {
    pub slide_content: SlideContentView,
}

/// The text of a slide that shows one language: the sung text, an optional
/// spoiler of what follows, and an optional meta line.
///
/// The two optional texts are never `Some` of an empty string: the
/// constructor turns an empty string into `None`.
#[derive(Debug, PartialEq)]
pub struct SingleLanguageMainContentSlide {
    main_text: String,
    spoiler_text: Option<String>,
    meta_text: Option<String>,
}

/// Ghost mirror of a spec-level optional string.
pub open spec fn option_string_view(o: Option<String>) -> Option<Seq<char>> {
    match o {
        Some(s) => Some(s@),
        None => None,
    }
}

impl SingleLanguageMainContentSlide {
    pub closed spec fn view_spec(self) -> SlideContentView {
        SlideContentView::SingleLanguageMainContent {
            main_text: self.main_text@,
            spoiler_text: option_string_view(self.spoiler_text),
            meta_text: option_string_view(self.meta_text),
        }
    }

    /// The optional texts are normalised: `Some("")` means the same as `None`
    /// and is stored as `None`.
    pub closed spec fn wf(self) -> bool {
        &&& (self.spoiler_text matches Some(s) ==> s@.len() > 0)
        &&& (self.meta_text matches Some(s) ==> s@.len() > 0)
    }

    /// The main text of the slide.
    pub fn main_text(self) -> (r: String)
        ensures
            r@ == (match self.view_spec() {
                SlideContentView::SingleLanguageMainContent { main_text, .. } => main_text,
                _ => Seq::<char>::empty(),
            }),
    {
        self.main_text
    }

    /// The spoiler text of the slide, if it has one.
    pub fn spoiler_text(self) -> (r: Option<String>)
        ensures
            option_string_view(r) == (match self.view_spec() {
                SlideContentView::SingleLanguageMainContent { spoiler_text, .. } => spoiler_text,
                _ => None::<Seq<char>>,
            }),
    {
        self.spoiler_text
    }

    /// The meta text of the slide, if it has one.
    pub fn meta_text(self) -> (r: Option<String>)
        ensures
            option_string_view(r) == (match self.view_spec() {
                SlideContentView::SingleLanguageMainContent { meta_text, .. } => meta_text,
                _ => None::<Seq<char>>,
            }),
    {
        self.meta_text
    }
}

/// A title slide, mostly shown at the beginning of a song.
#[derive(Debug, PartialEq)]
pub struct TitleSlide {
    pub title_text: String,
    pub meta_text: Option<String>,
}

/// An empty slide with no text content.
#[derive(Debug, PartialEq)]
pub struct EmptySlide {
    /// If true, the slide is drawn on a plain black background instead of the
    /// design's background.
    pub black_background: bool,
}

/// What a slide shows. The presentation engine never branches on this: only
/// the rendering layer does.
#[derive(Debug, PartialEq)]
pub enum SlideContent {
    SingleLanguageMainContent(SingleLanguageMainContentSlide),
    Title(TitleSlide),
    Empty(EmptySlide),
}

impl View for SlideContent {
    type V = SlideContentView;

    open spec fn view(&self) -> SlideContentView {
        match *self {
            SlideContent::SingleLanguageMainContent(c) => c.view_spec(),
            SlideContent::Title(t) => SlideContentView::Title {
                title_text: t.title_text@,
                meta_text: option_string_view(t.meta_text),
            },
            SlideContent::Empty(e) => SlideContentView::Empty {
                black_background: e.black_background,
            },
        }
    }
}

/// One presented slide.
#[derive(Debug, PartialEq)]
pub struct Slide {
    pub slide_content: SlideContent,
}

impl View for Slide {
    type V = SlideView;

    open spec fn view(&self) -> SlideView {
        SlideView { slide_content: self.slide_content@ }
    }
}

impl DeepView for Slide {
    type V = SlideView;

    open spec fn deep_view(&self) -> SlideView {
        self.view()
    }
}

/// Duplicates an optional string, keeping its content.
fn clone_option_string(o: &Option<String>) -> (r: Option<String>)
    ensures
        option_string_view(r) == option_string_view(*o),
{
    match o {
        Some(s) => Some(s.clone()),
        None => None,
    }
}

/// Turns `Some("")` into `None` and keeps everything else.
fn normalize_option_string(o: Option<String>) -> (r: Option<String>)
    ensures
        (r matches Some(s) ==> s@.len() > 0),
        option_string_view(r) == (match option_string_view(o) {
            Some(s) => if s.len() > 0 { Some(s) } else { None::<Seq<char>> },
            None => None::<Seq<char>>,
        }),
{
    match o {
        Some(s) => {
            if s.as_str().unicode_len() == 0 {
                None
            } else {
                Some(s)
            }
        },
        None => None,
    }
}

impl Slide {
    /// True of every slide that the constructors build: optional texts of a
    /// content slide are never `Some` of an empty string.
    pub open spec fn wf(self) -> bool {
        match self.slide_content {
            SlideContent::SingleLanguageMainContent(c) => c.wf(),
            _ => true,
        }
    }

    /// An empty slide.
    pub fn new_empty_slide(black_background: bool) -> (r: Slide)
        ensures
            r@ == (SlideView {
                slide_content: SlideContentView::Empty { black_background },
            }),
            r.wf(),
    {
        Slide { slide_content: SlideContent::Empty(EmptySlide { black_background }) }
    }

    /// A slide showing sung text, with an optional spoiler and meta line.
    /// Empty optional texts are stored as `None`.
    pub fn new_content_slide(
        main_text: String,
        spoiler_text: Option<String>,
        meta_text: Option<String>,
    ) -> (r: Slide)
        ensures
            r@ == (SlideView {
                slide_content: SlideContentView::SingleLanguageMainContent {
                    main_text: main_text@,
                    spoiler_text: match option_string_view(spoiler_text) {
                        Some(s) => if s.len() > 0 { Some(s) } else { None::<Seq<char>> },
                        None => None::<Seq<char>>,
                    },
                    meta_text: match option_string_view(meta_text) {
                        Some(s) => if s.len() > 0 { Some(s) } else { None::<Seq<char>> },
                        None => None::<Seq<char>>,
                    },
                },
            }),
            r.wf(),
    {
        Slide {
            slide_content: SlideContent::SingleLanguageMainContent(
                SingleLanguageMainContentSlide {
                    main_text,
                    spoiler_text: normalize_option_string(spoiler_text),
                    meta_text: normalize_option_string(meta_text),
                },
            ),
        }
    }

    /// A title slide.
    pub fn new_title_slide(title_text: String, meta_text: Option<String>) -> (r: Slide)
        ensures
            r@ == (SlideView {
                slide_content: SlideContentView::Title {
                    title_text: title_text@,
                    meta_text: option_string_view(meta_text),
                },
            }),
            r.wf(),
    {
        Slide { slide_content: SlideContent::Title(TitleSlide { title_text, meta_text }) }
    }

    /// An owned copy with the same content.
    pub fn duplicate(&self) -> (r: Slide)
        ensures
            r@ == self@,
            r.wf() == self.wf(),
    {
        let content = match &self.slide_content {
            SlideContent::SingleLanguageMainContent(c) => SlideContent::SingleLanguageMainContent(
                SingleLanguageMainContentSlide {
                    main_text: c.main_text.clone(),
                    spoiler_text: clone_option_string(&c.spoiler_text),
                    meta_text: clone_option_string(&c.meta_text),
                },
            ),
            SlideContent::Title(t) => SlideContent::Title(TitleSlide {
                title_text: t.title_text.clone(),
                meta_text: clone_option_string(&t.meta_text),
            }),
            SlideContent::Empty(e) => SlideContent::Empty(EmptySlide {
                black_background: e.black_background,
            }),
        };
        Slide { slide_content: content }
    }
}

/// Which slides of a song carry the meta information line.
#[derive(Debug, Clone, Copy, PartialEq, Eq, Structural)]
pub struct ShowMetaInformation {
    /// Show it on the song's title slide.
    pub title_slide: bool,
    /// Show it on the first content slide.
    pub first_slide: bool,
    /// Show it on the last content slide.
    pub last_slide: bool,
}

impl ShowMetaInformation {
    /// Show the meta line on the title slide and on the first and last
    /// content slide.
    pub fn all() -> (r: ShowMetaInformation)
        ensures
            r == (ShowMetaInformation { title_slide: true, first_slide: true, last_slide: true }),
    {
        ShowMetaInformation { title_slide: true, first_slide: true, last_slide: true }
    }
}

/// Ghost mirror of [`LanguageConfiguration`].
pub ghost enum LanguageConfigurationView {
    SingleLanguage(Option<Seq<char>>),
    MultiLanguage(Seq<Seq<char>>),
}

/// Which language or languages the slides show.
#[derive(Debug, PartialEq)]
pub enum LanguageConfiguration {
    /// One language. `None` means the song's own default language.
    SingleLanguage(Option<String>),
    /// Several languages on each slide, in the given order. An empty list
    /// means every available language.
    MultiLanguage(Vec<String>),
}

impl View for LanguageConfiguration {
    type V = LanguageConfigurationView;

    open spec fn view(&self) -> LanguageConfigurationView {
        match self {
            LanguageConfiguration::SingleLanguage(o) => LanguageConfigurationView::SingleLanguage(
                option_string_view(*o),
            ),
            LanguageConfiguration::MultiLanguage(v) => LanguageConfigurationView::MultiLanguage(
                v.deep_view(),
            ),
        }
    }
}

/// Ghost mirror of [`SlideSettings`].
pub ghost struct SlideSettingsView {
    pub title_slide: bool,
    pub show_spoiler: bool,
    pub show_meta_information: ShowMetaInformation,
    pub meta_syntax: Seq<char>,
    pub empty_last_slide: bool,
    pub max_lines: Option<usize>,
    pub language: LanguageConfigurationView,
}

/// The settings the slide compiler is asked to follow when it turns a song
/// into slides. The engine never interprets them: it resolves which settings
/// apply to a chapter and stores the resolved value there.
#[derive(Debug, PartialEq)]
pub struct SlideSettings {
    /// Whether a title slide is generated for each song.
    pub title_slide: bool,
    /// Whether a spoiler of the following block is shown.
    pub show_spoiler: bool,
    /// Whether and where to display meta information.
    pub show_meta_information: ShowMetaInformation,
    /// The meta information line as a template string.
    pub meta_syntax: String,
    /// Whether an empty slide is added after each song.
    pub empty_last_slide: bool,
    /// The maximum number of lines per block; longer blocks are wrapped onto
    /// several slides. `None` means no limit.
    pub max_lines: Option<usize>,
    /// Which language or languages to display.
    pub language: LanguageConfiguration,
}

impl View for SlideSettings {
    type V = SlideSettingsView;

    open spec fn view(&self) -> SlideSettingsView {
        SlideSettingsView {
            title_slide: self.title_slide,
            show_spoiler: self.show_spoiler,
            show_meta_information: self.show_meta_information,
            meta_syntax: self.meta_syntax@,
            empty_last_slide: self.empty_last_slide,
            max_lines: self.max_lines,
            language: self.language@,
        }
    }
}

impl DeepView for SlideSettings {
    type V = SlideSettingsView;

    open spec fn deep_view(&self) -> SlideSettingsView {
        self.view()
    }
}

/// The value [`SlideSettings::default`] returns.
pub open spec fn default_slide_settings_view() -> SlideSettingsView {
    SlideSettingsView {
        title_slide: true,
        show_spoiler: true,
        show_meta_information: ShowMetaInformation {
            title_slide: true,
            first_slide: true,
            last_slide: true,
        },
        meta_syntax: Seq::<char>::empty(),
        empty_last_slide: true,
        max_lines: None,
        language: LanguageConfigurationView::SingleLanguage(None),
    }
}

impl Default for SlideSettings {
    /// Title slide, spoiler and trailing empty slide on; meta information
    /// everywhere; no line limit; the song's own language.
    fn default() -> (r: SlideSettings)
        ensures
            r@ == default_slide_settings_view(),
    {
        SlideSettings {
            title_slide: true,
            show_spoiler: true,
            show_meta_information: ShowMetaInformation::all(),
            meta_syntax: String::new(),
            empty_last_slide: true,
            max_lines: None,
            language: LanguageConfiguration::SingleLanguage(None),
        }
    }
}

impl LanguageConfiguration {
    /// An owned copy with the same content.
    pub fn duplicate(&self) -> (r: LanguageConfiguration)
        ensures
            r@ == self@,
    {
        match self {
            LanguageConfiguration::SingleLanguage(o) => LanguageConfiguration::SingleLanguage(
                clone_option_string(o),
            ),
            LanguageConfiguration::MultiLanguage(v) => {
                let copy = v.clone();
                proof {
                    assert(copy.deep_view() =~= v.deep_view());
                }
                LanguageConfiguration::MultiLanguage(copy)
            },
        }
    }
}

impl SlideSettings {
    /// An owned copy with the same content.
    pub fn duplicate(&self) -> (r: SlideSettings)
        ensures
            r@ == self@,
    {
        SlideSettings {
            title_slide: self.title_slide,
            show_spoiler: self.show_spoiler,
            show_meta_information: self.show_meta_information,
            meta_syntax: self.meta_syntax.clone(),
            empty_last_slide: self.empty_last_slide,
            max_lines: self.max_lines,
            language: self.language.duplicate(),
        }
    }
}

} // verus!
