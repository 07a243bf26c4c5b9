//! Assembling presentations from selected items.
//!
//! The slide compiler that turns a song file into slides is an outside
//! collaborator: it reads the disk and is not part of this library. The
//! assembler here receives, next to the selected items, the compiler's
//! outcome for each item, and is a function of those values alone: the
//! resulting chapter list is pinned exactly by [`assembled_chapters`].
//! An item whose compilation failed is dropped from the deck; the order of
//! the remaining items is kept.

use vstd::prelude::*;
use vstd::string::StringExecFns;

use crate::settings::PresentationDesign;
use crate::settings::PresentationDesignView;
use crate::slides::Slide;
use crate::slides::SlideSettings;
use crate::slides::SlideSettingsView;
use crate::slides::SlideView;
use crate::sourcefiles::SourceFile;
use crate::sourcefiles::SourceFileType;
use crate::sourcefiles::SourceFileView;
use crate::states::chapter_len;
use crate::states::initial_pos;
use crate::states::prefix_slides;
use crate::states::total_slides;
use crate::states::RunningPresentation;
use crate::states::SelectedItemRepresentation;
use crate::states::SlideChapter;
use crate::states::SlideChapterView;

verus! {

/// Why slide compilation for one item failed, as reported by the outside
/// slide compiler.
#[derive(Debug)]
pub struct SlideGenerationError {
    /// The compiler's description of the failure.
    pub message: String,
}

/// The slides one item contributes, if any: an item that is not a song
/// contributes an empty slide sequence without consulting the compiler; a
/// song contributes what the compiler produced, and `None` when it failed.
pub open spec fn generation_outcome(
    item: SelectedItemRepresentation,
    generated: Result<Vec<Slide>, SlideGenerationError>,
) -> Option<Seq<SlideView>> {
    if item.source_file.file_type != SourceFileType::Song {
        Some(Seq::<SlideView>::empty())
    } else {
        match generated {
            Ok(slides) => Some(slides.deep_view()),
            Err(_) => None,
        }
    }
}

/// The chapter built for one item whose slides could be produced: the
/// slides, the item's source, and the design and settings resolved against
/// the given defaults.
pub open spec fn chapter_for(
    item: SelectedItemRepresentation,
    generated: Result<Vec<Slide>, SlideGenerationError>,
    default_design: PresentationDesignView,
    default_settings: SlideSettingsView,
) -> SlideChapterView {
    SlideChapterView {
        slides: generation_outcome(item, generated).unwrap(),
        source_file: item@.source_file,
        presentation_design_option: Some(
            match item@.presentation_design_option {
                Some(d) => d,
                None => default_design,
            },
        ),
        slide_settings_option: Some(
            match item@.slide_settings_option {
                Some(s) => s,
                None => default_settings,
            },
        ),
    }
}

/// The chapter list the assembler builds: one chapter per item whose slides
/// could be produced, in the items' order; items whose compilation failed
/// are left out.
pub open spec fn assembled_chapters(
    items: Seq<SelectedItemRepresentation>,
    generated: Seq<Result<Vec<Slide>, SlideGenerationError>>,
    default_design: PresentationDesignView,
    default_settings: SlideSettingsView,
) -> Seq<SlideChapterView>
    decreases items.len(),
{
    if items.len() == 0 {
        Seq::<SlideChapterView>::empty()
    } else {
        let i = items.len() - 1;
        let rest = assembled_chapters(
            items.drop_last(),
            generated.drop_last(),
            default_design,
            default_settings,
        );
        match generation_outcome(items[i], generated[i]) {
            Some(_) => rest.push(
                chapter_for(items[i], generated[i], default_design, default_settings),
            ),
            None => rest,
        }
    }
}

/// The slide count of a chapter list in ghost form, chapter by chapter.
pub open spec fn view_prefix_slides(chapters: Seq<SlideChapterView>, c: int) -> nat
    decreases c,
{
    if c <= 0 {
        0
    } else {
        view_prefix_slides(chapters, c - 1) + chapters[c - 1].slides.len()
    }
}

/// The slide count of a chapter list in ghost form.
pub open spec fn view_total_slides(chapters: Seq<SlideChapterView>) -> nat {
    view_prefix_slides(chapters, chapters.len() as int)
}

/// The slide counts of a chapter vector and of its ghost form agree.
proof fn lemma_prefix_view_eq(v: Vec<SlideChapter>, c: int)
    requires
        0 <= c <= v@.len(),
    ensures
        prefix_slides(v@, c) == view_prefix_slides(v.deep_view(), c),
    decreases c,
{
    if c > 0 {
        lemma_prefix_view_eq(v, c - 1);
        assert(v.deep_view()[c - 1] == v@[c - 1]@);
    }
}


/// An item whose slide compilation failed is dropped from the deck, and a
/// succeeding item keeps its chapter: assembling one failing and one
/// succeeding item, in either order, yields exactly the succeeding item's
/// chapter.
pub proof fn lemma_failing_item_dropped(
    failing: SelectedItemRepresentation,
    succeeding: SelectedItemRepresentation,
    gen_failing: Result<Vec<Slide>, SlideGenerationError>,
    gen_succeeding: Result<Vec<Slide>, SlideGenerationError>,
    default_design: PresentationDesignView,
    default_settings: SlideSettingsView,
)
    requires
        generation_outcome(failing, gen_failing) is None,
        generation_outcome(succeeding, gen_succeeding) is Some,
    ensures
        assembled_chapters(
            seq![failing, succeeding],
            seq![gen_failing, gen_succeeding],
            default_design,
            default_settings,
        ) == seq![chapter_for(succeeding, gen_succeeding, default_design, default_settings)],
        assembled_chapters(
            seq![succeeding, failing],
            seq![gen_succeeding, gen_failing],
            default_design,
            default_settings,
        ) == seq![chapter_for(succeeding, gen_succeeding, default_design, default_settings)],
{
    let empty_items = Seq::<SelectedItemRepresentation>::empty();
    let empty_gens = Seq::<Result<Vec<Slide>, SlideGenerationError>>::empty();
    assert(assembled_chapters(empty_items, empty_gens, default_design, default_settings)
        == Seq::<SlideChapterView>::empty());
    let items_a = seq![failing, succeeding];
    let gens_a = seq![gen_failing, gen_succeeding];
    assert(items_a.drop_last() =~= seq![failing]);
    assert(gens_a.drop_last() =~= seq![gen_failing]);
    assert(seq![failing].drop_last() =~= empty_items);
    assert(seq![gen_failing].drop_last() =~= empty_gens);
    assert(seq![failing][0] == failing && seq![gen_failing][0] == gen_failing);
    assert(assembled_chapters(seq![failing], seq![gen_failing], default_design, default_settings)
        =~= Seq::<SlideChapterView>::empty());
    assert(items_a[1] == succeeding && gens_a[1] == gen_succeeding);
    assert(assembled_chapters(items_a, gens_a, default_design, default_settings)
        =~= seq![chapter_for(succeeding, gen_succeeding, default_design, default_settings)]);
    let items_b = seq![succeeding, failing];
    let gens_b = seq![gen_succeeding, gen_failing];
    assert(items_b.drop_last() =~= seq![succeeding]);
    assert(gens_b.drop_last() =~= seq![gen_succeeding]);
    assert(seq![succeeding].drop_last() =~= empty_items);
    assert(seq![gen_succeeding].drop_last() =~= empty_gens);
    assert(seq![succeeding][0] == succeeding && seq![gen_succeeding][0] == gen_succeeding);
    assert(assembled_chapters(
        seq![succeeding],
        seq![gen_succeeding],
        default_design,
        default_settings,
    ) =~= seq![chapter_for(succeeding, gen_succeeding, default_design, default_settings)]);
    assert(items_b[1] == failing && gens_b[1] == gen_failing);
    assert(assembled_chapters(items_b, gens_b, default_design, default_settings)
        =~= seq![chapter_for(succeeding, gen_succeeding, default_design, default_settings)]);
}

/// The slides for one selected item: an item that is not a song yields an
/// empty slide list without consulting the compiler; for a song, the
/// compiler's outcome — slides or failure — is passed through.
pub fn create_presentation_slides(
    selected_item: &SelectedItemRepresentation,
    generated: Result<Vec<Slide>, SlideGenerationError>,
) -> (r: Result<Vec<Slide>, SlideGenerationError>)
    ensures
        (match generation_outcome(*selected_item, generated) {
            Some(slides) => r matches Ok(v) && v.deep_view() == slides,
            None => r is Err,
        }),
{
    if selected_item.source_file.file_type == SourceFileType::Song {
        generated
    } else {
        let empty: Vec<Slide> = Vec::new();
        proof {
            assert(empty.deep_view() =~= Seq::<SlideView>::empty());
        }
        Ok(empty)
    }
}

/// Builds a presentation from the selected items and starts it.
///
/// `generated` holds, for each item in order, what the outside slide
/// compiler produced for it; entries of items that are not songs are
/// ignored. Only one presentation runs at a time, so any presentations in
/// `running_presentations` are first cleared. Items whose compilation
/// failed are dropped silently; if any chapter remains, a new running
/// presentation over exactly [`assembled_chapters`] is started and its
/// number returned, else nothing is started.
pub fn add_presentation(
    selected_items: &Vec<SelectedItemRepresentation>,
    generated: Vec<Result<Vec<Slide>, SlideGenerationError>>,
    running_presentations: &mut Vec<RunningPresentation>,
    default_presentation_design: &PresentationDesign,
    default_slide_settings: &SlideSettings,
) -> (r: Option<usize>)
    requires
        generated@.len() == selected_items@.len(),
        view_total_slides(
            assembled_chapters(
                selected_items@,
                generated@,
                default_presentation_design@,
                default_slide_settings@,
            ),
        ) <= usize::MAX,
    ensures
        ({
            let chapters = assembled_chapters(
                selected_items@,
                generated@,
                default_presentation_design@,
                default_slide_settings@,
            );
            &&& (chapters.len() == 0 ==> r is None && final(running_presentations)@.len() == 0)
            &&& (chapters.len() > 0 ==> {
                &&& r == Some(0usize)
                &&& final(running_presentations)@.len() == 1
                &&& final(running_presentations)@[0].presentation.deep_view() == chapters
                &&& final(running_presentations)@[0].wf()
                &&& (final(running_presentations)@[0].position is Some <==> chapters[0].slides.len()
                    > 0)
                &&& (final(running_presentations)@[0].position matches Some(p) ==> p@
                    == initial_pos())
            })
        }),
{
    let ghost dd = default_presentation_design@;
    let ghost ds = default_slide_settings@;
    let ghost all_chapters = assembled_chapters(selected_items@, generated@, dd, ds);
    if running_presentations.len() > 0 {
        running_presentations.clear();
    }
    let n = selected_items.len();
    let mut remaining = generated;
    let mut presentation: Vec<SlideChapter> = Vec::new();
    let mut i: usize = 0;
    proof {
        assert(selected_items@.take(0) =~= Seq::<SelectedItemRepresentation>::empty());
        assert(presentation.deep_view() =~= assembled_chapters(
            selected_items@.take(0),
            generated@.take(0),
            dd,
            ds,
        ));
        assert(remaining@ =~= generated@.skip(0));
    }
    while i < n
        invariant
            n == selected_items@.len(),
            generated@.len() == n,
            i <= n,
            dd == default_presentation_design@,
            ds == default_slide_settings@,
            remaining@ == generated@.skip(i as int),
            presentation.deep_view() == assembled_chapters(
                selected_items@.take(i as int),
                generated@.take(i as int),
                dd,
                ds,
            ),
        decreases n - i,
    {
        let selected_item = &selected_items[i];
        let gen = remaining.remove(0);
        proof {
            assert(generated@.skip(i as int)[0] == generated@[i as int]);
            assert(remaining@ =~= generated@.skip(i + 1));
        }
        let used_presentation_design = selected_item.effective_design(
            default_presentation_design,
        );
        let used_slide_settings = selected_item.effective_slide_settings(default_slide_settings);
        proof {
            assert(*selected_item == selected_items@[i as int]);
        }
        let ghost before = presentation.deep_view();
        let ghost target = assembled_chapters(
            selected_items@.take(i + 1),
            generated@.take(i + 1),
            dd,
            ds,
        );
        proof {
            let items_now = selected_items@.take(i + 1);
            let gens_now = generated@.take(i + 1);
            assert(items_now.drop_last() =~= selected_items@.take(i as int));
            assert(gens_now.drop_last() =~= generated@.take(i as int));
            assert(items_now[items_now.len() - 1] == selected_items@[i as int]);
            assert(gens_now[gens_now.len() - 1] == generated@[i as int]);
            assert(target == (match generation_outcome(
                selected_items@[i as int],
                generated@[i as int],
            ) {
                Some(_) => before.push(
                    chapter_for(selected_items@[i as int], generated@[i as int], dd, ds),
                ),
                None => before,
            }));
        }
        match create_presentation_slides(selected_item, gen) {
            Ok(slides) => {
                let chapter = SlideChapter {
                    slides,
                    source_file: selected_item.source_file.duplicate(),
                    presentation_design_option: Some(used_presentation_design),
                    slide_settings_option: Some(used_slide_settings),
                };
                proof {
                    let chv = chapter_for(selected_items@[i as int], generated@[i as int], dd, ds);
                    assert(chapter@.slides == chv.slides);
                    assert(chapter@.source_file == chv.source_file);
                    assert(chapter@.presentation_design_option == chv.presentation_design_option);
                    assert(chapter@.slide_settings_option == chv.slide_settings_option);
                    assert(chapter@ == chv);
                }
                presentation.push(chapter);
                proof {
                    let dv = presentation.deep_view();
                    assert forall|j: int| 0 <= j < before.len() implies dv[j] == before[j] by {
                        assert(dv[j] == presentation@[j]@);
                    }
                    assert(dv[before.len() as int] == presentation@[before.len() as int]@);
                    assert(dv =~= target);
                }
            },
            Err(_) => {
                // The item is dropped from the deck; surfacing per-item
                // failures is the caller's affair.
            },
        }
        i = i + 1;
    }
    proof {
        assert(selected_items@.take(n as int) =~= selected_items@);
        assert(generated@.take(n as int) =~= generated@);
        lemma_prefix_view_eq(presentation, presentation@.len() as int);
        assert(total_slides(presentation@) == view_total_slides(all_chapters));
    }
    if !presentation.is_empty() {
        proof {
            assert(chapter_len(presentation@, 0) == all_chapters[0].slides.len());
        }
        running_presentations.push(RunningPresentation::new(presentation));
        return Some(running_presentations.len() - 1);
    }
    None
}

/// The example song text shown before any repository is set up.
pub const AMAZING_GRACE_SONG: &'static str = "#title: Amazing Grace
#author: John Newton

Amazing grace
how sweet the sound
that saved a wretch like me.
I once was lost
but now am found,
was blind, but now I see

It was grace that tought
my heart to fear,
and grace my fears relieved:
how precious did that
grace appear the hour
I first believed.

How sweet the name
of Jesus sounds
in a believer's ear.
It soothes his sorrows,
heals the wounds,
and drives away his fear.";

/// A presentation of the example song: one chapter holding the given
/// slides — compiled from [`AMAZING_GRACE_SONG`] by the outside slide
/// compiler — under the given design and settings.
pub fn create_amazing_grace_presentation(
    presentation_design: &PresentationDesign,
    slide_settings: &SlideSettings,
    slides: Vec<Slide>,
) -> (r: RunningPresentation)
    ensures
        r.presentation.deep_view() == seq![
            SlideChapterView {
                slides: slides.deep_view(),
                source_file: SourceFileView {
                    name: "Amazing Grace (Example)"@,
                    path: ""@,
                    file_type: SourceFileType::Song,
                },
                presentation_design_option: Some(presentation_design@),
                slide_settings_option: Some(slide_settings@),
            },
        ],
        r.wf(),
        r.position is Some <==> slides@.len() > 0,
        r.position matches Some(p) ==> p@ == initial_pos(),
{
    let source_file = SourceFile {
        name: String::from_str("Amazing Grace (Example)"),
        path: String::from_str(""),
        file_type: SourceFileType::Song,
    };
    let ghost slides_view = slides.deep_view();
    proof {
        assert(slides.len() == slides@.len());
        assert(slides_view.len() <= usize::MAX);
    }
    let slide_chapter = SlideChapter::new(
        slides,
        source_file,
        Some(presentation_design.duplicate()),
        Some(slide_settings.duplicate()),
    );
    let mut presentation: Vec<SlideChapter> = Vec::new();
    presentation.push(slide_chapter);
    proof {
        assert(prefix_slides(presentation@, 0) == 0);
        assert(prefix_slides(presentation@, 1) == chapter_len(presentation@, 0));
        assert(total_slides(presentation@) == slides_view.len());
        assert(presentation.deep_view()[0] == presentation@[0]@);
        assert(presentation.deep_view() =~= seq![
            SlideChapterView {
                slides: slides_view,
                source_file: SourceFileView {
                    name: "Amazing Grace (Example)"@,
                    path: ""@,
                    file_type: SourceFileType::Song,
                },
                presentation_design_option: Some(presentation_design@),
                slide_settings_option: Some(slide_settings@),
            },
        ]);
    }
    RunningPresentation::new(presentation)
}

} // verus!
