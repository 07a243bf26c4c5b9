use cantara::slides::Slide;
use cantara::slides::SlideSettings;
use cantara::settings::PresentationDesign;
use cantara::sourcefiles::SourceFile;
use cantara::sourcefiles::SourceFileType;
use cantara::states::RunningPresentation;
use cantara::states::SlideChapter;

fn song_source(name: &str) -> SourceFile {
    SourceFile {
        name: name.to_string(),
        path: format!("songs/{}.song", name),
        file_type: SourceFileType::Song,
    }
}

fn content(text: &str) -> Slide {
    Slide::new_content_slide(text.to_string(), None, None)
}

fn two_chapter_presentation() -> RunningPresentation {
    let chapter_one = SlideChapter::new(
        vec![content("A"), content("B")],
        song_source("first"),
        None,
        None,
    );
    let chapter_two = SlideChapter::new(vec![content("C")], song_source("second"), None, None);
    RunningPresentation::new(vec![chapter_one, chapter_two])
}

fn position_of(presentation: &RunningPresentation) -> (usize, usize, usize) {
    let pos = presentation.position.as_ref().unwrap();
    (pos.chapter(), pos.chapter_slide(), pos.slide_total())
}

#[test]
fn initial_position_is_zero() {
    let presentation = two_chapter_presentation();
    assert_eq!(position_of(&presentation), (0, 0, 0));
}

#[test]
fn empty_first_chapter_gives_no_position() {
    let empty_chapter = SlideChapter::new(Vec::new(), song_source("empty"), None, None);
    let full_chapter = SlideChapter::new(vec![content("A")], song_source("full"), None, None);
    let presentation = RunningPresentation::new(vec![empty_chapter, full_chapter]);
    assert!(presentation.position.is_none());

    let no_chapters = RunningPresentation::new(Vec::new());
    assert!(no_chapters.position.is_none());
}

#[test]
fn chapter_boundary_walkthrough() {
    let mut presentation = two_chapter_presentation();
    assert_eq!(position_of(&presentation), (0, 0, 0));
    presentation.next_slide();
    assert_eq!(position_of(&presentation), (0, 1, 1));
    presentation.next_slide();
    assert_eq!(position_of(&presentation), (1, 0, 2));
    presentation.next_slide();
    assert_eq!(position_of(&presentation), (1, 0, 2));
    presentation.previous_slide();
    assert_eq!(position_of(&presentation), (0, 1, 1));
    presentation.previous_slide();
    assert_eq!(position_of(&presentation), (0, 0, 0));
    presentation.previous_slide();
    assert_eq!(position_of(&presentation), (0, 0, 0));
}

#[test]
fn advance_visits_every_slide_and_stops() {
    let mut presentation = two_chapter_presentation();
    // total_slides - 1 steps reach the last slide of the last chapter.
    presentation.next_slide();
    presentation.next_slide();
    assert_eq!(position_of(&presentation), (1, 0, 2));
    // One further step fails and leaves the position unchanged.
    presentation.next_slide();
    assert_eq!(position_of(&presentation), (1, 0, 2));
}

#[test]
fn retreat_returns_to_start_and_stops() {
    let mut presentation = two_chapter_presentation();
    presentation.next_slide();
    presentation.next_slide();
    presentation.previous_slide();
    presentation.previous_slide();
    assert_eq!(position_of(&presentation), (0, 0, 0));
    presentation.previous_slide();
    assert_eq!(position_of(&presentation), (0, 0, 0));
}

#[test]
fn next_then_back_restores_position() {
    let mut presentation = two_chapter_presentation();
    presentation.next_slide();
    let before = position_of(&presentation);
    presentation.next_slide();
    presentation.previous_slide();
    assert_eq!(position_of(&presentation), before);
}

#[test]
fn current_slide_follows_the_cursor() {
    let mut presentation = two_chapter_presentation();
    assert_eq!(presentation.get_current_slide().unwrap(), content("A"));
    presentation.next_slide();
    assert_eq!(presentation.get_current_slide().unwrap(), content("B"));
    presentation.next_slide();
    assert_eq!(presentation.get_current_slide().unwrap(), content("C"));

    let nothing = RunningPresentation::new(Vec::new());
    assert!(nothing.get_current_slide().is_none());
}

#[test]
fn design_and_settings_resolution() {
    let mut override_design = PresentationDesign::default();
    override_design.name = "Dark".to_string();
    let mut override_settings = SlideSettings::default();
    override_settings.title_slide = false;

    let chapter_with_overrides = SlideChapter::new(
        vec![content("A")],
        song_source("first"),
        Some(override_design),
        Some(override_settings),
    );
    let chapter_without = SlideChapter::new(vec![content("B")], song_source("second"), None, None);
    let mut presentation = RunningPresentation::new(vec![chapter_with_overrides, chapter_without]);

    // The first chapter carries overrides: they are returned.
    assert_eq!(presentation.get_current_presentation_design().name, "Dark");
    assert!(!presentation.get_current_slide_settings().title_slide);

    // The second chapter has none: the defaults are returned.
    presentation.next_slide();
    assert_eq!(
        presentation.get_current_presentation_design(),
        PresentationDesign::default()
    );
    assert_eq!(
        presentation.get_current_slide_settings(),
        SlideSettings::default()
    );

    // Without a position, the defaults are returned as well.
    let nothing = RunningPresentation::new(Vec::new());
    assert_eq!(
        nothing.get_current_presentation_design(),
        PresentationDesign::default()
    );
    assert_eq!(nothing.get_current_slide_settings(), SlideSettings::default());
}

#[test]
fn slide_constructors_normalize_empty_texts() {
    let slide = Slide::new_content_slide("Amazing grace".to_string(), Some("".to_string()), None);
    match slide.slide_content {
        cantara::slides::SlideContent::SingleLanguageMainContent(c) => {
            assert!(c.spoiler_text().is_none());
        }
        _ => panic!("expected a content slide"),
    }

    let slide = Slide::new_title_slide("Amazing Grace".to_string(), Some("meta".to_string()));
    match slide.slide_content {
        cantara::slides::SlideContent::Title(t) => {
            assert_eq!(t.title_text, "Amazing Grace");
            assert_eq!(t.meta_text, Some("meta".to_string()));
        }
        _ => panic!("expected a title slide"),
    }
}
