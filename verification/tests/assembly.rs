use cantara::presentation::add_presentation;
use cantara::presentation::create_amazing_grace_presentation;
use cantara::presentation::create_presentation_slides;
use cantara::presentation::SlideGenerationError;
use cantara::settings::PresentationDesign;
use cantara::slides::Slide;
use cantara::slides::SlideSettings;
use cantara::sourcefiles::SourceFile;
use cantara::sourcefiles::SourceFileType;
use cantara::states::RunningPresentation;
use cantara::states::SelectedItemRepresentation;

fn song_item(name: &str, path: &str) -> SelectedItemRepresentation {
    SelectedItemRepresentation::new_with_sourcefile(SourceFile {
        name: name.to_string(),
        path: path.to_string(),
        file_type: SourceFileType::Song,
    })
}

fn image_item(name: &str) -> SelectedItemRepresentation {
    SelectedItemRepresentation::new_with_sourcefile(SourceFile {
        name: name.to_string(),
        path: format!("pictures/{}.png", name),
        file_type: SourceFileType::Image,
    })
}

fn content(text: &str) -> Slide {
    Slide::new_content_slide(text.to_string(), None, None)
}

fn generation_failure() -> Result<Vec<Slide>, SlideGenerationError> {
    Err(SlideGenerationError { message: "file not found".to_string() })
}

#[test]
fn test_presentation_creation_from_amazing_grace() {
    let select_item = SelectedItemRepresentation {
        source_file: SourceFile {
            name: "Amazing Grace".to_string(),
            path: "testfiles/Amazing Grace.song".to_string(),
            file_type: SourceFileType::Song,
        },
        presentation_design_option: None,
        slide_settings_option: None,
    };
    let compiled = Ok(vec![content("Amazing grace"), content("how sweet the sound")]);
    assert!(create_presentation_slides(&select_item, compiled).is_ok());
}

#[test]
fn non_song_items_get_empty_slide_lists() {
    let item = image_item("sunrise");
    // Whatever the compiler entry holds, an image contributes no slides.
    let slides = create_presentation_slides(&item, generation_failure()).unwrap();
    assert!(slides.is_empty());
}

#[test]
fn failing_item_is_dropped_succeeding_item_stays() {
    let failing = song_item("Broken", "songs/broken.song");
    let succeeding = image_item("sunrise");
    let generated = vec![generation_failure(), Ok(Vec::new())];

    let mut running: Vec<RunningPresentation> = Vec::new();
    let number = add_presentation(
        &vec![failing, succeeding],
        generated,
        &mut running,
        &PresentationDesign::default(),
        &SlideSettings::default(),
    );

    assert_eq!(number, Some(0));
    assert_eq!(running.len(), 1);
    let deck = &running[0].presentation;
    assert_eq!(deck.len(), 1);
    assert_eq!(deck[0].source_file.name, "sunrise");
}

#[test]
fn assembled_presentation_starts_at_zero() {
    let first = song_item("First", "songs/first.song");
    let second = song_item("Second", "songs/second.song");
    let generated = vec![
        Ok(vec![content("A"), content("B")]),
        Ok(vec![content("C")]),
    ];

    let mut running: Vec<RunningPresentation> = Vec::new();
    let number = add_presentation(
        &vec![first, second],
        generated,
        &mut running,
        &PresentationDesign::default(),
        &SlideSettings::default(),
    );

    assert_eq!(number, Some(0));
    let presentation = &running[0];
    assert_eq!(presentation.presentation.len(), 2);
    let pos = presentation.position.as_ref().unwrap();
    assert_eq!((pos.chapter(), pos.chapter_slide(), pos.slide_total()), (0, 0, 0));
    // The chapters carry the resolved design and settings.
    assert_eq!(
        presentation.presentation[0].presentation_design_option,
        Some(PresentationDesign::default())
    );
    assert_eq!(
        presentation.presentation[0].slide_settings_option,
        Some(SlideSettings::default())
    );
}

#[test]
fn all_items_failing_starts_nothing() {
    let first = song_item("First", "songs/first.song");
    let generated = vec![generation_failure()];

    let mut running: Vec<RunningPresentation> = Vec::new();
    running.push(RunningPresentation::new(Vec::new()));
    let number = add_presentation(
        &vec![first],
        generated,
        &mut running,
        &PresentationDesign::default(),
        &SlideSettings::default(),
    );

    // The old presentation is cleared and nothing new is started.
    assert_eq!(number, None);
    assert!(running.is_empty());
}

#[test]
fn only_one_presentation_runs_at_a_time() {
    let mut running: Vec<RunningPresentation> = Vec::new();

    let first = song_item("First", "songs/first.song");
    add_presentation(
        &vec![first],
        vec![Ok(vec![content("A")])],
        &mut running,
        &PresentationDesign::default(),
        &SlideSettings::default(),
    );
    assert_eq!(running.len(), 1);

    let second = song_item("Second", "songs/second.song");
    add_presentation(
        &vec![second],
        vec![Ok(vec![content("B")])],
        &mut running,
        &PresentationDesign::default(),
        &SlideSettings::default(),
    );
    assert_eq!(running.len(), 1);
    assert_eq!(running[0].presentation[0].source_file.name, "Second");
}

#[test]
fn amazing_grace_example_presentation() {
    let design = PresentationDesign::default();
    let settings = SlideSettings::default();
    let slides = vec![
        Slide::new_title_slide("Amazing Grace".to_string(), None),
        content("Amazing grace\nhow sweet the sound"),
    ];
    let presentation = create_amazing_grace_presentation(&design, &settings, slides);

    assert_eq!(presentation.presentation.len(), 1);
    let chapter = &presentation.presentation[0];
    assert_eq!(chapter.source_file.name, "Amazing Grace (Example)");
    assert_eq!(chapter.source_file.file_type, SourceFileType::Song);
    assert_eq!(chapter.slides.len(), 2);
    let pos = presentation.position.as_ref().unwrap();
    assert_eq!((pos.chapter(), pos.chapter_slide(), pos.slide_total()), (0, 0, 0));
}
