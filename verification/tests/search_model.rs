use cantara::search::invalidate_search_cache;
use cantara::search::search_source_files;
use cantara::search::SearchCache;
use cantara::sourcefiles::SourceFile;
use cantara::sourcefiles::SourceFileType;

fn song(name: &str) -> SourceFile {
    SourceFile {
        name: name.to_string(),
        path: format!("songs/{}.song", name),
        file_type: SourceFileType::Song,
    }
}

fn image(name: &str) -> SourceFile {
    SourceFile {
        name: name.to_string(),
        path: format!("pics/{}.png", name),
        file_type: SourceFileType::Image,
    }
}

#[test]
fn empty_query_finds_nothing() {
    let files = vec![song("Amazing Grace")];
    let cache = SearchCache::new();
    assert!(search_source_files(&files, "", &cache).is_empty());
}

#[test]
fn title_matches_fold_case() {
    // The match only happens because both sides are lowercased.
    let files = vec![song("Amazing Grace"), image("Sunrise")];
    let cache = SearchCache::new();

    let results = search_source_files(&files, "aMAZING", &cache);
    assert_eq!(results.len(), 1);
    assert!(results[0].is_title_match);
    assert!(results[0].matched_content.is_none());
    assert_eq!(results[0].source_file.name, "Amazing Grace");

    let results = search_source_files(&files, "sunrise", &cache);
    assert_eq!(results.len(), 1);
    assert_eq!(results[0].source_file.name, "Sunrise");
}

#[test]
fn content_matches_carry_context() {
    let files = vec![song("Amazing Grace")];
    let mut cache = SearchCache::new();
    cache.insert(
        "songs/Amazing Grace.song".to_string(),
        "Amazing grace how sweet the sound that saved a wretch like me".to_string(),
    );

    let results = search_source_files(&files, "WRETCH", &cache);
    assert_eq!(results.len(), 1);
    assert!(!results[0].is_title_match);
    // Thirty characters of context on each side of the first occurrence,
    // clamped to the text.
    let context = results[0].matched_content.as_ref().unwrap();
    assert!(context.contains("wretch"));
    assert_eq!(
        context.as_str(),
        " sweet the sound that saved a wretch like me"
    );
}

#[test]
fn uncached_songs_and_other_kinds_have_no_content_hits() {
    let files = vec![song("Amazing Grace"), image("wretch")];
    let cache = SearchCache::new();
    // No cached content: only the image's title can match.
    let results = search_source_files(&files, "wretch", &cache);
    assert_eq!(results.len(), 1);
    assert!(results[0].is_title_match);
    assert_eq!(results[0].source_file.file_type, SourceFileType::Image);
}

#[test]
fn results_ordered_titles_first_then_by_name() {
    let files = vec![song("Zebra"), song("Alpha"), song("Match Me")];
    let mut cache = SearchCache::new();
    cache.insert("songs/Zebra.song".to_string(), "match the content".to_string());
    cache.insert("songs/Alpha.song".to_string(), "match the content".to_string());

    let results = search_source_files(&files, "match", &cache);
    assert_eq!(results.len(), 3);
    assert!(results[0].is_title_match);
    assert_eq!(results[0].source_file.name, "Match Me");
    assert!(!results[1].is_title_match);
    assert_eq!(results[1].source_file.name, "Alpha");
    assert!(!results[2].is_title_match);
    assert_eq!(results[2].source_file.name, "Zebra");
}

#[test]
fn invalidation_empties_the_cache() {
    let files = vec![song("Amazing Grace")];
    let mut cache = SearchCache::new();
    cache.insert("songs/Amazing Grace.song".to_string(), "wretch".to_string());
    assert_eq!(search_source_files(&files, "wretch", &cache).len(), 1);

    invalidate_search_cache(&mut cache);
    assert!(cache.entries.is_empty());
    assert!(search_source_files(&files, "wretch", &cache).is_empty());
}

#[test]
fn first_cache_entry_for_a_path_wins() {
    let files = vec![song("Amazing Grace")];
    let mut cache = SearchCache::new();
    cache.insert("songs/Amazing Grace.song".to_string(), "first text".to_string());
    cache.insert("songs/Amazing Grace.song".to_string(), "second text".to_string());
    let results = search_source_files(&files, "first", &cache);
    assert_eq!(results.len(), 1);
    let results = search_source_files(&files, "second", &cache);
    assert_eq!(results.len(), 0);
}
