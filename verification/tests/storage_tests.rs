use reader_core::storage::{
    assemble_chapters, bookmark_path, bookmark_sentence_idx, epub_config_path, hash_dir,
    tts_dir,
};

#[test]
fn hash_dir_is_the_hex_digest_under_the_cache_root() {
    // SHA-256("abc") is a published test vector
    assert_eq!(
        hash_dir("abc"),
        ".cache/ba7816bf8f01cfea414140de5dae2223b00361a396177a9cb410ff61f20015ad"
    );
}

#[test]
fn cache_paths_share_the_hash_directory() {
    let dir = hash_dir("/books/novel.epub");
    assert_eq!(dir.len(), ".cache/".len() + 64);
    assert_eq!(tts_dir("/books/novel.epub"), format!("{}/tts", dir));
    assert_eq!(bookmark_path("/books/novel.epub"), format!("{}/bookmark.toml", dir));
    assert_eq!(epub_config_path("/books/novel.epub"), format!("{}/config.toml", dir));
}

#[test]
fn different_paths_get_different_directories() {
    assert_ne!(hash_dir("/a.epub"), hash_dir("/b.epub"));
}

#[test]
fn bookmark_prefers_the_narrated_sentence() {
    assert_eq!(bookmark_sentence_idx(Some(2), 5, 0), Some(2));
    // a narrated index beyond the page falls back to the scroll position
    assert_eq!(bookmark_sentence_idx(Some(9), 5, 0), Some(0));
}

#[test]
fn bookmark_without_narration_rounds_the_scroll_fraction() {
    // 500 of 1000 over indices 0..=4: 2.0 exactly
    assert_eq!(bookmark_sentence_idx(None, 5, 500), Some(2));
    assert_eq!(bookmark_sentence_idx(None, 5, 1000), Some(4));
    // out-of-range fractions clamp
    assert_eq!(bookmark_sentence_idx(None, 5, 40_000), Some(4));
}

#[test]
fn bookmark_on_empty_page_records_no_sentence() {
    assert_eq!(bookmark_sentence_idx(None, 0, 300), None);
    assert_eq!(bookmark_sentence_idx(Some(1), 0, 300), None);
}

#[test]
fn assemble_chapters_strips_markup() {
    let text = assemble_chapters(&vec!["<p>Hello <b>world</b></p>".to_string()], 80);
    assert!(text.contains("Hello"));
    assert!(text.contains("world"));
    assert!(!text.contains('<'));
}

#[test]
fn assemble_chapters_joins_with_blank_lines() {
    let text = assemble_chapters(
        &vec!["<p>One</p>".to_string(), "<p>Two</p>".to_string()],
        80,
    );
    let one = text.find("One").expect("first chapter present");
    let two = text.find("Two").expect("second chapter present");
    assert!(one < two);
    assert!(text[one..two].contains("\n\n"));
}

#[test]
fn assemble_chapters_without_text_yields_placeholder() {
    let text = assemble_chapters(&Vec::new(), 80);
    assert_eq!(text, "No textual content found in this EPUB.");
    let text = assemble_chapters(&vec!["<p>  </p>".to_string()], 80);
    assert_eq!(text, "No textual content found in this EPUB.");
}
