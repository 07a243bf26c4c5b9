//! The running presentation and its navigation cursor.
//!
//! A running presentation owns an ordered list of chapters, each a compiled
//! slide sequence with its source and resolved design and settings, and an
//! optional cursor. The cursor is a small state machine: it advances and
//! retreats one slide at a time across chapter boundaries, with both ends
//! terminal. Its specification lives here as a machine over ghost positions
//! ([`spec_next`], [`spec_back`]), the executable cursor is proved to follow
//! that machine step by step, and the laws at the end of the file are proved
//! of the machine itself: the step count equals the flattened slide index,
//! advancing visits every slide exactly once, and one step back undoes one
//! step forward.

use vstd::prelude::*;

use crate::settings::default_design_view;
use crate::settings::PresentationDesign;
use crate::settings::PresentationDesignView;
use crate::slides::default_slide_settings_view;
use crate::slides::Slide;
use crate::slides::SlideSettings;
use crate::slides::SlideSettingsView;
use crate::slides::SlideView;
use crate::sourcefiles::SourceFile;
use crate::sourcefiles::SourceFileView;

verus! {

/// Ghost mirror of [`SelectedItemRepresentation`].
pub ghost struct SelectedItemRepresentationView {
    pub source_file: SourceFileView,
    pub presentation_design_option: Option<PresentationDesignView>,
    pub slide_settings_option: Option<SlideSettingsView>,
}

/// One item the user selected for a presentation: the source file and the
/// optional per-item design and settings overrides.
#[derive(Debug, PartialEq)]
pub struct SelectedItemRepresentation {
    /// The source file of the selected item.
    pub source_file: SourceFile,
    /// The design to use for this item; `None` means the default design.
    pub presentation_design_option: Option<PresentationDesign>,
    /// The slide settings to use for this item; `None` means the default
    /// settings.
    pub slide_settings_option: Option<SlideSettings>,
}

impl View for SelectedItemRepresentation {
    type V = SelectedItemRepresentationView;

    open spec fn view(&self) -> SelectedItemRepresentationView {
        SelectedItemRepresentationView {
            source_file: self.source_file@,
            presentation_design_option: match self.presentation_design_option {
                Some(d) => Some(d@),
                None => None,
            },
            slide_settings_option: match self.slide_settings_option {
                Some(s) => Some(s@),
                None => None,
            },
        }
    }
}

impl DeepView for SelectedItemRepresentation {
    type V = SelectedItemRepresentationView;

    open spec fn deep_view(&self) -> SelectedItemRepresentationView {
        self.view()
    }
}

impl SelectedItemRepresentation {
    /// A selected item with no overrides.
    pub fn new_with_sourcefile(source_file: SourceFile) -> (r: Self)
        ensures
            r@.source_file == source_file@,
            r@.presentation_design_option is None,
            r@.slide_settings_option is None,
    {
        SelectedItemRepresentation {
            source_file,
            presentation_design_option: None,
            slide_settings_option: None,
        }
    }

    /// The design this item is shown with: its own override when present,
    /// the given default otherwise.
    pub fn effective_design(&self, default_design: &PresentationDesign) -> (r: PresentationDesign)
        ensures
            r@ == (match self@.presentation_design_option {
                Some(d) => d,
                None => default_design@,
            }),
    {
        match &self.presentation_design_option {
            Some(d) => d.duplicate(),
            None => default_design.duplicate(),
        }
    }

    /// The slide settings this item is compiled with: its own override when
    /// present, the given default otherwise.
    pub fn effective_slide_settings(&self, default_settings: &SlideSettings) -> (r: SlideSettings)
        ensures
            r@ == (match self@.slide_settings_option {
                Some(s) => s,
                None => default_settings@,
            }),
    {
        match &self.slide_settings_option {
            Some(s) => s.duplicate(),
            None => default_settings.duplicate(),
        }
    }
}

/// Ghost mirror of [`SlideChapter`].
pub ghost struct SlideChapterView {
    pub slides: Seq<SlideView>,
    pub source_file: SourceFileView,
    pub presentation_design_option: Option<PresentationDesignView>,
    pub slide_settings_option: Option<SlideSettingsView>,
}

/// The slides compiled from one source item, together with that item's
/// identity and the design and settings resolved for it.
#[derive(Debug, PartialEq)]
pub struct SlideChapter {
    /// The compiled slides, in playback order.
    pub slides: Vec<Slide>,
    /// The source file the slides were compiled from.
    pub source_file: SourceFile,
    /// The design resolved for this chapter.
    pub presentation_design_option: Option<PresentationDesign>,
    /// The slide settings resolved for this chapter.
    pub slide_settings_option: Option<SlideSettings>,
}

impl View for SlideChapter {
    type V = SlideChapterView;

    open spec fn view(&self) -> SlideChapterView {
        SlideChapterView {
            slides: self.slides.deep_view(),
            source_file: self.source_file@,
            presentation_design_option: match self.presentation_design_option {
                Some(d) => Some(d@),
                None => None,
            },
            slide_settings_option: match self.slide_settings_option {
                Some(s) => Some(s@),
                None => None,
            },
        }
    }
}

impl DeepView for SlideChapter {
    type V = SlideChapterView;

    open spec fn deep_view(&self) -> SlideChapterView {
        self.view()
    }
}

impl SlideChapter {
    /// A chapter from its parts.
    pub fn new(
        slides: Vec<Slide>,
        source_file: SourceFile,
        presentation_design: Option<PresentationDesign>,
        slide_settings: Option<SlideSettings>,
    ) -> (r: Self)
        ensures
            r.slides == slides,
            r.source_file == source_file,
            r.presentation_design_option == presentation_design,
            r.slide_settings_option == slide_settings,
    {
        SlideChapter {
            slides,
            source_file,
            presentation_design_option: presentation_design,
            slide_settings_option: slide_settings,
        }
    }
}

/// The number of slides of one chapter.
pub open spec fn chapter_len(chapters: Seq<SlideChapter>, i: int) -> nat {
    chapters[i].slides@.len()
}

/// The number of slides of the first `c` chapters together.
pub open spec fn prefix_slides(chapters: Seq<SlideChapter>, c: int) -> nat
    decreases c,
{
    if c <= 0 {
        0
    } else {
        prefix_slides(chapters, c - 1) + chapter_len(chapters, c - 1)
    }
}

/// The number of slides of all chapters together.
pub open spec fn total_slides(chapters: Seq<SlideChapter>) -> nat {
    prefix_slides(chapters, chapters.len() as int)
}

/// Whether every chapter has at least one slide. Navigation visits the
/// first slide of every chapter it enters, so only such chapter lists can
/// be navigated from end to end.
pub open spec fn all_chapters_nonempty(chapters: Seq<SlideChapter>) -> bool {
    forall|i: int| 0 <= i < chapters.len() ==> chapter_len(chapters, i) > 0
}

/// A cursor position in ghost form: the chapter, the slide within the
/// chapter, and the step count.
pub ghost struct Pos {
    pub chapter: int,
    pub slide: int,
    pub total: int,
}

/// The position a presentation starts at.
pub open spec fn initial_pos() -> Pos {
    Pos { chapter: 0, slide: 0, total: 0 }
}

/// The position of the last slide of the last chapter.
pub open spec fn last_pos(chapters: Seq<SlideChapter>) -> Pos {
    Pos {
        chapter: chapters.len() - 1,
        slide: chapter_len(chapters, chapters.len() - 1) - 1,
        total: total_slides(chapters) - 1,
    }
}

/// A valid position: its indices are in range and its step count equals the
/// flattened slide index. The bound on the total keeps the step count
/// representable in a machine word.
pub open spec fn pos_wf(chapters: Seq<SlideChapter>, p: Pos) -> bool {
    &&& 0 <= p.chapter < chapters.len()
    &&& 0 <= p.slide < chapter_len(chapters, p.chapter)
    &&& p.total == prefix_slides(chapters, p.chapter) + p.slide
    &&& total_slides(chapters) <= usize::MAX
}

/// One step forward: the next slide of the same chapter, else the first
/// slide of the next chapter, else nothing — the end is terminal.
pub open spec fn spec_next(chapters: Seq<SlideChapter>, p: Pos) -> Option<Pos> {
    if p.slide + 1 < chapter_len(chapters, p.chapter) {
        Some(Pos { chapter: p.chapter, slide: p.slide + 1, total: p.total + 1 })
    } else if p.chapter + 1 < chapters.len() {
        Some(Pos { chapter: p.chapter + 1, slide: 0, total: p.total + 1 })
    } else {
        None
    }
}

/// One step back: the previous slide of the same chapter, else the last
/// slide of the previous chapter, else nothing — the start is terminal.
pub open spec fn spec_back(chapters: Seq<SlideChapter>, p: Pos) -> Option<Pos> {
    if p.slide > 0 {
        Some(Pos { chapter: p.chapter, slide: p.slide - 1, total: p.total - 1 })
    } else if p.chapter > 0 {
        Some(
            Pos {
                chapter: p.chapter - 1,
                slide: chapter_len(chapters, p.chapter - 1) - 1,
                total: p.total - 1,
            },
        )
    } else {
        None
    }
}

/// A position in a running presentation: the chapter, the slide within the
/// chapter, and the step count. A value of this type is kept valid for the
/// chapter list it is used with.
#[derive(Debug, Clone, Copy, PartialEq, Eq, Structural)]
pub struct RunningPresentationPosition {
    /// The number of the current chapter.
    chapter: usize,
    /// The number of the current slide within the chapter.
    chapter_slide: usize,
    /// The step count over all chapters, used by the rendering layer to
    /// detect that the cursor moved.
    slide_total: usize,
}

impl View for RunningPresentationPosition {
    type V = Pos;

    closed spec fn view(&self) -> Pos {
        Pos {
            chapter: self.chapter as int,
            slide: self.chapter_slide as int,
            total: self.slide_total as int,
        }
    }
}

/// The prefix count never exceeds the total.
proof fn lemma_prefix_monotone(chapters: Seq<SlideChapter>, c: int, d: int)
    requires
        0 <= c <= d,
    ensures
        prefix_slides(chapters, c) <= prefix_slides(chapters, d),
    decreases d - c,
{
    if c < d {
        lemma_prefix_monotone(chapters, c, d - 1);
    }
}

/// A valid position's flattened index lies below the total.
proof fn lemma_pos_total_in_range(chapters: Seq<SlideChapter>, p: Pos)
    requires
        pos_wf(chapters, p),
    ensures
        0 <= p.total < total_slides(chapters),
{
    assert(prefix_slides(chapters, p.chapter + 1) == prefix_slides(chapters, p.chapter)
        + chapter_len(chapters, p.chapter));
    lemma_prefix_monotone(chapters, p.chapter + 1, chapters.len() as int);
}

impl RunningPresentationPosition {
    /// The initial position, if the first chapter has at least one slide;
    /// `None` otherwise. Later chapters play no part in this decision.
    pub fn new(presentation: &Vec<SlideChapter>) -> (r: Option<Self>)
        requires
            total_slides(presentation@) <= usize::MAX,
        ensures
            r is Some <==> (presentation@.len() > 0 && chapter_len(presentation@, 0) > 0),
            r matches Some(p) ==> p@ == initial_pos() && pos_wf(presentation@, p@),
    {
        if !presentation.is_empty() && presentation[0].slides.len() > 0 {
            Some(RunningPresentationPosition { chapter: 0, chapter_slide: 0, slide_total: 0 })
        } else {
            None
        }
    }

    /// The number of slides of the chapter the position is in.
    fn cur_chapter_slide_length(&self, presentation: &Vec<SlideChapter>) -> (r: usize)
        requires
            0 <= self@.chapter < presentation@.len(),
        ensures
            r == chapter_len(presentation@, self@.chapter),
    {
        presentation[self.chapter].slides.len()
    }

    /// Moves to the next position if one exists and reports whether it did:
    /// the step follows [`spec_next`], and a failed step changes nothing.
    /// The new position is again valid unless the step enters an empty
    /// chapter, which no chapter list built by the assembler from non-empty
    /// slide sequences contains.
    pub fn try_next(&mut self, presentation: &Vec<SlideChapter>) -> (r: Result<(), ()>)
        requires
            pos_wf(presentation@, old(self)@),
        ensures
            (match spec_next(presentation@, old(self)@) {
                Some(q) => r is Ok && final(self)@ == q,
                None => r is Err && *final(self) == *old(self),
            }),
            (match spec_next(presentation@, old(self)@) {
                Some(q) => chapter_len(presentation@, q.chapter) > 0 ==> pos_wf(
                    presentation@,
                    final(self)@,
                ),
                None => pos_wf(presentation@, final(self)@),
            }),
    {
        proof {
            lemma_pos_total_in_range(presentation@, self@);
        }
        let n = self.cur_chapter_slide_length(presentation);
        if self.chapter_slide < n - 1 {
            self.chapter_slide = self.chapter_slide + 1;
            self.slide_total = self.slide_total + 1;
            Ok(())
        } else if self.chapter < presentation.len() - 1 {
            proof {
                assert(prefix_slides(presentation@, old(self)@.chapter + 1) == prefix_slides(
                    presentation@,
                    old(self)@.chapter,
                ) + chapter_len(presentation@, old(self)@.chapter));
            }
            self.chapter = self.chapter + 1;
            self.chapter_slide = 0;
            self.slide_total = self.slide_total + 1;
            Ok(())
        } else {
            Err(())
        }
    }

    /// Moves to the previous position if one exists and reports whether it
    /// did: the step follows [`spec_back`], and a failed step changes
    /// nothing. Stepping back across a chapter boundary lands on the last
    /// slide of the previous chapter, so that chapter must have one.
    pub fn try_back(&mut self, presentation: &Vec<SlideChapter>) -> (r: Result<(), ()>)
        requires
            pos_wf(presentation@, old(self)@),
            old(self)@.slide == 0 && old(self)@.chapter > 0 ==> chapter_len(
                presentation@,
                old(self)@.chapter - 1,
            ) > 0,
        ensures
            (match spec_back(presentation@, old(self)@) {
                Some(q) => r is Ok && final(self)@ == q,
                None => r is Err && *final(self) == *old(self),
            }),
            pos_wf(presentation@, final(self)@),
    {
        if self.chapter_slide > 0 {
            self.chapter_slide = self.chapter_slide - 1;
            self.slide_total = self.slide_total - 1;
            Ok(())
        } else if self.chapter > 0 {
            proof {
                assert(prefix_slides(presentation@, old(self)@.chapter) == prefix_slides(
                    presentation@,
                    old(self)@.chapter - 1,
                ) + chapter_len(presentation@, old(self)@.chapter - 1));
            }
            self.chapter = self.chapter - 1;
            let len = self.cur_chapter_slide_length(presentation);
            self.chapter_slide = len - 1;
            self.slide_total = self.slide_total - 1;
            Ok(())
        } else {
            Err(())
        }
    }

    /// The number of the current chapter.
    pub fn chapter(&self) -> (r: usize)
        ensures
            r == self@.chapter,
    {
        self.chapter
    }

    /// The number of the current slide within the current chapter.
    pub fn chapter_slide(&self) -> (r: usize)
        ensures
            r == self@.slide,
    {
        self.chapter_slide
    }

    /// The step count over all chapters.
    pub fn slide_total(&self) -> (r: usize)
        ensures
            r == self@.total,
    {
        self.slide_total
    }
}

/// A created presentation which is able to run: the chapter list and the
/// cursor, if there is anything to play.
#[derive(Debug, PartialEq)]
pub struct RunningPresentation {
    /// The chapters, in playback order.
    pub presentation: Vec<SlideChapter>,
    /// The cursor; `None` exactly when there is nothing playable.
    pub position: Option<RunningPresentationPosition>,
}

impl RunningPresentation {
    /// The aggregate's invariant: whenever a position exists, it is valid
    /// for the chapter list.
    pub open spec fn wf(self) -> bool {
        match self.position {
            Some(p) => pos_wf(self.presentation@, p@),
            None => true,
        }
    }

    /// Whether the next step of the cursor stays on a slide; entering an
    /// empty chapter is the one step that would not.
    pub open spec fn next_step_safe(self) -> bool {
        match self.position {
            Some(p) => match spec_next(self.presentation@, p@) {
                Some(q) => chapter_len(self.presentation@, q.chapter) > 0,
                None => true,
            },
            None => true,
        }
    }

    /// Whether a step back of the cursor lands on a slide; stepping back
    /// into an empty chapter is the one step that would not.
    pub open spec fn back_step_safe(self) -> bool {
        match self.position {
            Some(p) => p@.slide == 0 && p@.chapter > 0 ==> chapter_len(
                self.presentation@,
                p@.chapter - 1,
            ) > 0,
            None => true,
        }
    }

    /// A new running presentation over the given chapters. The position is
    /// `(0, 0, 0)` if there is a first chapter with at least one slide, and
    /// `None` otherwise — chapters after the first play no part in the
    /// decision.
    pub fn new(presentation: Vec<SlideChapter>) -> (r: Self)
        requires
            total_slides(presentation@) <= usize::MAX,
        ensures
            r.presentation == presentation,
            r.position is Some <==> (presentation@.len() > 0 && chapter_len(presentation@, 0)
                > 0),
            r.position matches Some(p) ==> p@ == initial_pos(),
            r.wf(),
    {
        let position = RunningPresentationPosition::new(&presentation);
        RunningPresentation { presentation, position }
    }

    /// Goes to the next slide if one exists; at the end, and without a
    /// position, nothing changes. The rendering layer detects the
    /// difference by the step count alone.
    pub fn next_slide(&mut self)
        requires
            old(self).wf(),
            old(self).next_step_safe(),
        ensures
            final(self).presentation == old(self).presentation,
            (match old(self).position {
                None => final(self).position is None,
                Some(p) => match spec_next(old(self).presentation@, p@) {
                    Some(q) => final(self).position matches Some(p2) && p2@ == q,
                    None => final(self).position matches Some(p2) && p2@ == p@,
                },
            }),
            final(self).wf(),
    {
        if let Some(pos) = &mut self.position {
            let _ = pos.try_next(&self.presentation);
        }
    }

    /// Goes to the previous slide if one exists; at the start, and without
    /// a position, nothing changes.
    pub fn previous_slide(&mut self)
        requires
            old(self).wf(),
            old(self).back_step_safe(),
        ensures
            final(self).presentation == old(self).presentation,
            (match old(self).position {
                None => final(self).position is None,
                Some(p) => match spec_back(old(self).presentation@, p@) {
                    Some(q) => final(self).position matches Some(p2) && p2@ == q,
                    None => final(self).position matches Some(p2) && p2@ == p@,
                },
            }),
            final(self).wf(),
    {
        if let Some(pos) = &mut self.position {
            let _ = pos.try_back(&self.presentation);
        }
    }

    /// The slide the cursor stands on, or `None` when there is nothing
    /// playable.
    pub fn get_current_slide(&self) -> (r: Option<Slide>)
        requires
            self.wf(),
        ensures
            (match self.position {
                None => r is None,
                Some(p) => r matches Some(s) && s@
                    == self.presentation@[p@.chapter].slides@[p@.slide]@,
            }),
    {
        match &self.position {
            Some(pos) => {
                let chapter = &self.presentation[pos.chapter()];
                Some(chapter.slides[pos.chapter_slide()].duplicate())
            },
            None => None,
        }
    }

    /// The design of the current chapter: its resolved design when present,
    /// the system default otherwise — also when there is nothing playable.
    pub fn get_current_presentation_design(&self) -> (r: PresentationDesign)
        requires
            self.wf(),
        ensures
            r@ == (match self.position {
                Some(p) => match self.presentation@[p@.chapter].presentation_design_option {
                    Some(d) => d@,
                    None => default_design_view(),
                },
                None => default_design_view(),
            }),
    {
        match &self.position {
            Some(pos) => {
                let chapter = &self.presentation[pos.chapter()];
                match &chapter.presentation_design_option {
                    Some(d) => d.duplicate(),
                    None => PresentationDesign::default(),
                }
            },
            None => PresentationDesign::default(),
        }
    }

    /// The slide settings of the current chapter: its resolved settings
    /// when present, the system default otherwise — also when there is
    /// nothing playable.
    pub fn get_current_slide_settings(&self) -> (r: SlideSettings)
        requires
            self.wf(),
        ensures
            r@ == (match self.position {
                Some(p) => match self.presentation@[p@.chapter].slide_settings_option {
                    Some(s) => s@,
                    None => default_slide_settings_view(),
                },
                None => default_slide_settings_view(),
            }),
    {
        match &self.position {
            Some(pos) => {
                let chapter = &self.presentation[pos.chapter()];
                match &chapter.slide_settings_option {
                    Some(s) => s.duplicate(),
                    None => SlideSettings::default(),
                }
            },
            None => SlideSettings::default(),
        }
    }
}

/// The position reached after `k` forward steps, or `None` if the end came
/// first.
pub open spec fn advance(chapters: Seq<SlideChapter>, p: Pos, k: nat) -> Option<Pos>
    decreases k,
{
    if k == 0 {
        Some(p)
    } else {
        match spec_next(chapters, p) {
            Some(q) => advance(chapters, q, (k - 1) as nat),
            None => None,
        }
    }
}

/// The position reached after `k` backward steps, or `None` if the start
/// came first.
pub open spec fn retreat(chapters: Seq<SlideChapter>, p: Pos, k: nat) -> Option<Pos>
    decreases k,
{
    if k == 0 {
        Some(p)
    } else {
        match spec_back(chapters, p) {
            Some(q) => retreat(chapters, q, (k - 1) as nat),
            None => None,
        }
    }
}

/// One step back undoes one step forward: from any valid position, a
/// successful forward step followed by a backward step restores the exact
/// chapter, slide and step count.
pub proof fn lemma_next_then_back_restores(chapters: Seq<SlideChapter>, p: Pos)
    requires
        pos_wf(chapters, p),
    ensures
        spec_next(chapters, p) matches Some(q) ==> spec_back(chapters, q) == Some(p),
{
}

/// A forward step from a valid position over non-empty chapters either
/// lands on a valid position one step further, or fails exactly at the last
/// slide of the last chapter.
proof fn lemma_next_step(chapters: Seq<SlideChapter>, p: Pos)
    requires
        pos_wf(chapters, p),
        all_chapters_nonempty(chapters),
    ensures
        match spec_next(chapters, p) {
            Some(q) => pos_wf(chapters, q) && q.total == p.total + 1,
            None => p.total == total_slides(chapters) - 1,
        },
{
    lemma_pos_total_in_range(chapters, p);
    if p.slide + 1 < chapter_len(chapters, p.chapter) {
    } else if p.chapter + 1 < chapters.len() {
        assert(prefix_slides(chapters, p.chapter + 1) == prefix_slides(chapters, p.chapter)
            + chapter_len(chapters, p.chapter));
    } else {
        assert(prefix_slides(chapters, p.chapter + 1) == prefix_slides(chapters, p.chapter)
            + chapter_len(chapters, p.chapter));
    }
}

/// A backward step from a valid position over non-empty chapters either
/// lands on a valid position one step earlier, or fails exactly at the
/// first slide of the first chapter.
proof fn lemma_back_step(chapters: Seq<SlideChapter>, p: Pos)
    requires
        pos_wf(chapters, p),
        all_chapters_nonempty(chapters),
    ensures
        match spec_back(chapters, p) {
            Some(q) => pos_wf(chapters, q) && q.total == p.total - 1,
            None => p.total == 0,
        },
{
    if p.slide > 0 {
    } else if p.chapter > 0 {
        assert(prefix_slides(chapters, p.chapter) == prefix_slides(chapters, p.chapter - 1)
            + chapter_len(chapters, p.chapter - 1));
    }
}

/// Two valid positions with the same step count are the same position: the
/// step count is the flattened slide index, and that index determines the
/// chapter and the slide.
proof fn lemma_pos_unique(chapters: Seq<SlideChapter>, p: Pos, q: Pos)
    requires
        pos_wf(chapters, p),
        pos_wf(chapters, q),
        p.total == q.total,
    ensures
        p == q,
{
    if p.chapter < q.chapter {
        assert(prefix_slides(chapters, p.chapter + 1) == prefix_slides(chapters, p.chapter)
            + chapter_len(chapters, p.chapter));
        lemma_prefix_monotone(chapters, p.chapter + 1, q.chapter);
        assert(false);
    } else if q.chapter < p.chapter {
        assert(prefix_slides(chapters, q.chapter + 1) == prefix_slides(chapters, q.chapter)
            + chapter_len(chapters, q.chapter));
        lemma_prefix_monotone(chapters, q.chapter + 1, p.chapter);
        assert(false);
    }
}

/// From a valid position with `k` more slides ahead, `k` forward steps
/// succeed and add `k` to the step count.
proof fn lemma_advance_steps(chapters: Seq<SlideChapter>, p: Pos, k: nat)
    requires
        pos_wf(chapters, p),
        all_chapters_nonempty(chapters),
        p.total + k <= total_slides(chapters) - 1,
    ensures
        advance(chapters, p, k) matches Some(q) && pos_wf(chapters, q) && q.total == p.total + k,
    decreases k,
{
    if k > 0 {
        lemma_next_step(chapters, p);
        let q = spec_next(chapters, p).unwrap();
        lemma_advance_steps(chapters, q, (k - 1) as nat);
    }
}

/// From a valid position, `k` backward steps succeed as long as the step
/// count does not go below zero, and subtract `k` from it.
proof fn lemma_retreat_steps(chapters: Seq<SlideChapter>, p: Pos, k: nat)
    requires
        pos_wf(chapters, p),
        all_chapters_nonempty(chapters),
        k <= p.total,
    ensures
        retreat(chapters, p, k) matches Some(q) && pos_wf(chapters, q) && q.total == p.total - k,
    decreases k,
{
    if k > 0 {
        lemma_back_step(chapters, p);
        let q = spec_back(chapters, p).unwrap();
        lemma_retreat_steps(chapters, q, (k - 1) as nat);
    }
}

/// The last position is valid when no chapter is empty.
proof fn lemma_last_pos_wf(chapters: Seq<SlideChapter>)
    requires
        chapters.len() > 0,
        all_chapters_nonempty(chapters),
        total_slides(chapters) <= usize::MAX,
    ensures
        pos_wf(chapters, last_pos(chapters)),
        spec_next(chapters, last_pos(chapters)) is None,
{
    assert(prefix_slides(chapters, chapters.len() as int) == prefix_slides(
        chapters,
        chapters.len() - 1,
    ) + chapter_len(chapters, chapters.len() - 1));
}

/// Advancing from the initial position visits every slide once: over a
/// non-empty chapter list none of whose chapters is empty, exactly
/// `total_slides - 1` forward steps lead from the initial position to the
/// last slide of the last chapter, and one further forward step fails.
pub proof fn lemma_advance_reaches_last(chapters: Seq<SlideChapter>)
    requires
        chapters.len() > 0,
        all_chapters_nonempty(chapters),
        total_slides(chapters) <= usize::MAX,
    ensures
        advance(chapters, initial_pos(), (total_slides(chapters) - 1) as nat) == Some(
            last_pos(chapters),
        ),
        spec_next(chapters, last_pos(chapters)) is None,
{
    lemma_prefix_monotone(chapters, 1, chapters.len() as int);
    assert(pos_wf(chapters, initial_pos()));
    lemma_last_pos_wf(chapters);
    let k = (total_slides(chapters) - 1) as nat;
    lemma_advance_steps(chapters, initial_pos(), k);
    let q = advance(chapters, initial_pos(), k).unwrap();
    lemma_pos_unique(chapters, q, last_pos(chapters));
}

/// Retreating from the last position returns to the start: over a
/// non-empty chapter list none of whose chapters is empty, exactly
/// `total_slides - 1` backward steps lead from the last position to
/// `(0, 0, 0)`, and one further backward step fails.
pub proof fn lemma_retreat_reaches_initial(chapters: Seq<SlideChapter>)
    requires
        chapters.len() > 0,
        all_chapters_nonempty(chapters),
        total_slides(chapters) <= usize::MAX,
    ensures
        retreat(chapters, last_pos(chapters), (total_slides(chapters) - 1) as nat) == Some(
            initial_pos(),
        ),
        spec_back(chapters, initial_pos()) is None,
{
    lemma_prefix_monotone(chapters, 1, chapters.len() as int);
    assert(pos_wf(chapters, initial_pos()));
    lemma_last_pos_wf(chapters);
    let k = (total_slides(chapters) - 1) as nat;
    lemma_retreat_steps(chapters, last_pos(chapters), k);
    let q = retreat(chapters, last_pos(chapters), k).unwrap();
    lemma_pos_unique(chapters, q, initial_pos());
}

} // verus!
