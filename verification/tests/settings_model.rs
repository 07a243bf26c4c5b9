use cantara::conversions::Rgb8;
use cantara::css::CssString;
use cantara::settings::get_last_dir;
use cantara::settings::get_settings_file;
use cantara::settings::get_settings_folder;
use cantara::settings::hex_string_to_rgb;
use cantara::settings::CssSize;
use cantara::settings::FontRepresentation;
use cantara::settings::PresentationDesign;
use cantara::settings::PresentationDesignTemplate;
use cantara::settings::Repository;
use cantara::settings::RepositoryType;
use cantara::settings::Settings;
use cantara::sourcefiles::SourceFile;
use cantara::sourcefiles::SourceFileType;

#[test]
fn settings_test_load_settings() {
    let settings = get_settings_folder().unwrap();
    println!("Settings folder: {:?}", settings);
    assert!(settings.ends_with("/cantara"));
}

#[test]
fn states_test_load_settings() {
    let settings = get_settings_folder().unwrap();
    println!("Settings folder: {:?}", settings);
    let file = get_settings_file().unwrap();
    assert!(file.ends_with("/cantara/settings.json"));
}

#[test]
fn test_color_conversion() {
    let color_hex_black = "#000000";
    let color_hex_white = "#FFFFFF";
    let color_hex_red = "#ff0000";

    assert_eq!(Rgb8::new(0, 0, 0), hex_string_to_rgb(color_hex_black).unwrap());
    assert_eq!(Rgb8::new(255, 255, 255), hex_string_to_rgb(color_hex_white).unwrap());
    assert_eq!(Rgb8::new(255, 0, 0), hex_string_to_rgb(color_hex_red).unwrap());
}

#[test]
fn template_color_strings() {
    let template = PresentationDesignTemplate::default();
    assert_eq!(template.get_background_as_rgb_string(), "0, 0, 0");
    assert_eq!(template.get_background_color_as_hex_string(), "#000000");

    let mut template = PresentationDesignTemplate::default();
    assert!(template.set_background_color_from_hex_str("#FF8000").is_ok());
    assert_eq!(template.get_background_as_rgb_string(), "255, 128, 0");
    assert!(template.set_background_color_from_hex_str("#XYZ").is_err());
    assert_eq!(template.get_background_as_rgb_string(), "255, 128, 0");
}

#[test]
fn template_font_indices() {
    let mut template = PresentationDesignTemplate::default();
    assert_eq!(template.headline_index(), Some(0));
    assert_eq!(template.spoiler_index(), Some(1));

    // An index out of range changes nothing; the default holds three fonts.
    template.set_headline_index(Some(9));
    assert_eq!(template.headline_index(), Some(0));
    template.set_headline_index(Some(2));
    assert_eq!(template.headline_index(), Some(2));
    template.set_headline_index(None);
    assert_eq!(template.headline_index(), None);

    template.set_spoiler_index(Some(9));
    assert_eq!(template.spoiler_index(), Some(1));
    template.set_spoiler_index(None);
    assert_eq!(template.spoiler_index(), None);
}

#[test]
fn template_font_fallbacks() {
    let template = PresentationDesignTemplate::default();
    let spoiler = template.get_default_spoiler_font();
    // The default spoiler font is the default font at seven tenths of its
    // size: 32pt scaled to 22.4pt.
    assert_eq!(spoiler.font_size, CssSize::Pt(224));
    assert_eq!(template.get_default_font(), FontRepresentation::default());
    assert_eq!(template.get_default_headline_font(), FontRepresentation::default());
    let meta = template.get_default_meta_font();
    assert_eq!(meta.font_size, CssSize::Pt(160));
    assert_eq!(
        FontRepresentation::default().get_color_as_rgba_string(),
        "255, 255, 255, 255"
    );
    assert_eq!(
        FontRepresentation::default().font_size.to_css_string(),
        "32pt"
    );
}

#[test]
fn default_settings_shape() {
    let settings = Settings::default();
    assert!(settings.repositories.is_empty());
    assert!(!settings.wizard_completed);
    assert_eq!(settings.presentation_designs, vec![PresentationDesign::default()]);
    assert_eq!(settings.song_slide_settings.len(), 1);
    assert!(!settings.always_start_fullscreen);
}

#[test]
fn add_repository_avoids_duplicates() {
    let mut settings = Settings::default();
    settings.add_repository(Repository::new_local_folder(
        "songs".to_string(),
        "/home/user/songs".to_string(),
    ));
    settings.add_repository(Repository::new_local_folder(
        "songs".to_string(),
        "/home/user/songs".to_string(),
    ));
    assert_eq!(settings.repositories.len(), 1);

    settings.add_repository(Repository::new_remote_zip(
        "songs".to_string(),
        "https://example.org/songs.zip".to_string(),
    ));
    assert_eq!(settings.repositories.len(), 2);
}

#[test]
fn add_repository_folder_names_after_last_dir() {
    let mut settings = Settings::default();
    settings.add_repository_folder("/home/user/my songs/".to_string());
    let repo = &settings.repositories[0];
    assert_eq!(repo.name, "my songs");
    assert!(repo.removable);
    assert!(repo.writing_permissions);
    assert_eq!(
        repo.repository_type,
        RepositoryType::LocaleFilePath("/home/user/my songs/".to_string())
    );
}

#[test]
fn remote_zip_repository_named_from_url() {
    let mut settings = Settings::default();
    settings.add_remote_zip_repository_url("https://example.org/path/songs.zip".to_string());
    assert_eq!(settings.repositories[0].name, "songs");
    assert!(!settings.repositories[0].writing_permissions);

    settings.add_remote_zip_repository("named".to_string(), "https://example.org/x.zip".to_string());
    assert_eq!(settings.repositories[1].name, "named");
}

#[test]
fn last_dir_of_paths() {
    assert_eq!(get_last_dir("/home/user/songs"), Some("songs"));
    assert_eq!(get_last_dir("/home/user/songs///"), Some("songs"));
    assert_eq!(get_last_dir("songs"), Some("songs"));
    assert_eq!(get_last_dir("C:\\music\\songs"), Some("songs"));
    assert_eq!(get_last_dir("///"), None);
    assert_eq!(get_last_dir(""), None);
}

#[test]
fn sourcefiles_merged_sorted_and_unique() {
    let settings = Settings::default();
    let file_a = SourceFile {
        name: "Amazing Grace".to_string(),
        path: "a/Amazing Grace.song".to_string(),
        file_type: SourceFileType::Song,
    };
    let file_b = SourceFile {
        name: "Be Thou My Vision".to_string(),
        path: "b/Be Thou My Vision.song".to_string(),
        file_type: SourceFileType::Song,
    };
    let lists = vec![
        vec![file_b.clone(), file_a.clone()],
        vec![file_a.clone()],
    ];
    let merged = settings.get_sourcefiles(lists);
    assert_eq!(merged, vec![file_a, file_b]);
}
