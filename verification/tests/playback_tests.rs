use reader_core::normalizer::TextNormalizer;
use reader_core::playback::{Clip, Effect, Event, PlaybackMachine, StartPos};

fn page(sentences: &[&str]) -> Vec<String> {
    sentences.iter().map(|s| s.to_string()).collect()
}

fn machine_with_pages(pages: Vec<Vec<String>>) -> PlaybackMachine {
    PlaybackMachine::new(TextNormalizer::default(), pages, 0, 1000, 500)
}

fn clip(name: &str, duration_ms: u64) -> Clip {
    Clip { handle: name.to_string(), duration_ms }
}

fn started_machine() -> PlaybackMachine {
    let mut m = machine_with_pages(vec![page(&["Hello there.", "Another one."])]);
    let req = m.start_playback_from(0, StartPos::Audio(0)).expect("a prepare request");
    assert_eq!(req.page, 0);
    assert_eq!(req.audio_start_idx, 0);
    assert_eq!(req.audio_sentences.len(), 2);
    let effects = m.on_batch_ready(
        req.request_id,
        0,
        0,
        vec![clip("c0", 2000), clip("c1", 3000)],
        0,
    );
    assert_eq!(effects.len(), 2);
    assert!(matches!(effects[0], Effect::PlayAudio { .. }));
    m
}

#[test]
fn tick_resolves_track_positions_with_pause() {
    let mut m = started_machine();
    assert_eq!(m.current_sentence_idx, Some(0));
    // pause 500 ms: boundaries at 2500 and 6000
    let fx = m.on_tick(2200);
    assert_eq!(m.current_sentence_idx, Some(0));
    assert!(fx.is_empty());
    let fx = m.on_tick(2600);
    assert_eq!(m.current_sentence_idx, Some(1));
    assert_eq!(fx.len(), 2);
}

#[test]
fn tick_is_idempotent_for_same_instant() {
    let mut m = started_machine();
    let first = m.on_tick(2600);
    assert_eq!(first.len(), 2);
    let second = m.on_tick(2600);
    assert!(second.is_empty());
    assert_eq!(m.current_sentence_idx, Some(1));
}

#[test]
fn stale_request_id_changes_nothing() {
    let mut m = started_machine();
    let before_idx = m.current_sentence_idx;
    let before_track = m.track.clone();
    let fx = m.on_batch_ready(m.request_id.wrapping_add(7), 0, 0, vec![clip("x", 1)], 9);
    assert!(fx.is_empty());
    assert_eq!(m.current_sentence_idx, before_idx);
    assert_eq!(m.track, before_track);
}

#[test]
fn stale_page_changes_nothing() {
    let mut m = machine_with_pages(vec![
        page(&["First page text."]),
        page(&["Second page text."]),
    ]);
    let req = m.start_playback_from(0, StartPos::Audio(0)).unwrap();
    let fx = m.on_batch_ready(req.request_id, 1, 0, vec![clip("x", 10)], 0);
    assert!(fx.is_empty());
    assert!(!m.running);
}

#[test]
fn empty_batch_stops_playback_and_clears_index() {
    let mut m = machine_with_pages(vec![page(&["Some sentence here."])]);
    let req = m.start_playback_from(0, StartPos::Audio(0)).unwrap();
    assert_eq!(m.current_sentence_idx, Some(0));
    let fx = m.on_batch_ready(req.request_id, 0, 0, Vec::new(), 0);
    assert!(fx.is_empty());
    assert!(!m.running);
    assert_eq!(m.current_sentence_idx, None);
}

#[test]
fn finished_track_advances_to_next_page() {
    let mut m = machine_with_pages(vec![
        page(&["First page text."]),
        page(&["Second page text."]),
    ]);
    let req = m.start_playback_from(0, StartPos::Audio(0)).unwrap();
    m.on_batch_ready(req.request_id, 0, 0, vec![clip("c", 1000)], 0);
    let fx = m.on_tick(5000);
    assert!(matches!(fx[0], Effect::StopTts));
    assert!(matches!(fx[1], Effect::StartTts { page: 1, pos: StartPos::Audio(0) }));
    assert_eq!(m.current_page, 1);
    assert!(!m.running);
}

#[test]
fn finished_track_on_last_page_stops_quietly() {
    let mut m = started_machine();
    let fx = m.on_tick(60_000);
    assert_eq!(fx.len(), 1);
    assert!(matches!(fx[0], Effect::StopTts));
    assert!(!m.running);
    assert_eq!(m.current_page, 0);
}

#[test]
fn pause_freezes_elapsed_and_resume_restarts_clock() {
    let mut m = started_machine();
    let fx = m.on_pause(700);
    assert!(matches!(fx[0], Effect::PauseAudio));
    assert!(!m.running);
    assert_eq!(m.elapsed_ms, 700);
    assert_eq!(m.started_at_ms, None);
    let fx = m.on_play(900);
    assert!(matches!(fx[0], Effect::ResumeAudio));
    assert!(m.running);
    assert_eq!(m.started_at_ms, Some(900));
    // 700 ms accumulated + (2000 - 900): boundary 2500 not yet passed
    m.on_tick(2000);
    assert_eq!(m.current_sentence_idx, Some(0));
    // 700 + (2800 - 900) = 2600 > 2500: next sentence
    m.on_tick(2800);
    assert_eq!(m.current_sentence_idx, Some(1));
}

#[test]
fn play_without_session_requests_page_start() {
    let mut m = machine_with_pages(vec![page(&["Some sentence here."])]);
    let fx = m.on_play(0);
    assert_eq!(fx.len(), 3);
    assert!(matches!(fx[0], Effect::StartTts { page: 0, pos: StartPos::Audio(0) }));
}

#[test]
fn seek_forward_within_page_and_across_pages() {
    let mut m = machine_with_pages(vec![
        page(&["One ok.", "Two ok."]),
        page(&["Three ok."]),
    ]);
    let req = m.start_playback_from(0, StartPos::Audio(0)).unwrap();
    m.on_batch_ready(req.request_id, 0, 0, vec![clip("a", 10), clip("b", 10)], 0);
    let fx = m.on_seek_forward();
    assert!(matches!(fx[0], Effect::StartTts { page: 0, pos: StartPos::Audio(1) }));
    // pretend the seek completed at the last sentence, then seek again
    let req = m.start_playback_from(0, StartPos::Audio(1)).unwrap();
    m.on_batch_ready(req.request_id, 0, 1, vec![clip("b", 10)], 0);
    let fx = m.on_seek_forward();
    assert!(matches!(fx[0], Effect::StartTts { page: 1, pos: StartPos::Audio(0) }));
    assert_eq!(m.current_page, 1);
}

#[test]
fn seek_backward_crosses_to_previous_page_last_sentence() {
    let mut m = machine_with_pages(vec![
        page(&["One ok.", "Two ok."]),
        page(&["Three ok."]),
    ]);
    m.go_to_page(1);
    let fx = m.on_seek_backward();
    assert!(matches!(fx[0], Effect::StartTts { page: 0, pos: StartPos::LastAudio }));
    assert_eq!(m.current_page, 0);
}

#[test]
fn play_from_cursor_skips_dropped_sentences_forward() {
    // the second display sentence is dropped (pure punctuation), so a
    // cursor on it starts at the next surviving audio sentence
    let mut m = machine_with_pages(vec![page(&["First ok.", "!!", "Third ok."])]);
    let fx = m.on_play_from_cursor(1);
    match &fx[0] {
        Effect::StartTts { page, pos } => {
            assert_eq!(*page, 0);
            assert_eq!(*pos, StartPos::Audio(1));
        },
        other => panic!("unexpected effect: {:?}", effect_name(other)),
    }
}

#[test]
fn play_from_cursor_past_survivors_starts_at_last_audio() {
    let mut m = machine_with_pages(vec![page(&["First ok.", "Second ok.", "!!"])]);
    let fx = m.on_play_from_cursor(2);
    match &fx[0] {
        Effect::StartTts { page, pos } => {
            assert_eq!(*page, 0);
            assert_eq!(*pos, StartPos::LastAudio);
        },
        other => panic!("unexpected effect: {:?}", effect_name(other)),
    }
}

#[test]
fn start_position_is_clamped_to_audio_range() {
    let mut m = machine_with_pages(vec![page(&["One ok.", "Two ok."])]);
    let req = m.start_playback_from(0, StartPos::Audio(99)).unwrap();
    assert_eq!(req.audio_start_idx, 1);
    assert_eq!(m.current_sentence_idx, Some(1));
    let req = m.start_playback_from(0, StartPos::LastAudio).unwrap();
    assert_eq!(req.audio_start_idx, 1);
}

#[test]
fn page_without_speakable_text_yields_no_request() {
    let mut m = machine_with_pages(vec![page(&["!!", "??"])]);
    assert!(m.start_playback_from(0, StartPos::Audio(0)).is_none());
    assert_eq!(m.current_sentence_idx, None);
}

#[test]
fn request_ids_increase_with_each_request() {
    let mut m = machine_with_pages(vec![page(&["One ok.", "Two ok."])]);
    let a = m.start_playback_from(0, StartPos::Audio(0)).unwrap().request_id;
    let b = m.start_playback_from(0, StartPos::Audio(0)).unwrap().request_id;
    assert_eq!(b, a.wrapping_add(1));
}

#[test]
fn set_speed_restarts_active_session() {
    let mut m = started_machine();
    let fx = m.on_set_speed(2000);
    assert_eq!(m.speed_pm, 2000);
    assert!(matches!(fx[0], Effect::StartTts { page: 0, pos: StartPos::Audio(0) }));
    assert!(matches!(fx[3], Effect::SaveConfig));
}

#[test]
fn set_speed_is_clamped() {
    let mut m = machine_with_pages(vec![page(&["One ok."])]);
    m.on_set_speed(10);
    assert_eq!(m.speed_pm, 500);
    m.on_set_speed(100_000);
    assert_eq!(m.speed_pm, 3000);
}

#[test]
fn set_pause_unchanged_value_does_nothing() {
    let mut m = started_machine();
    let fx = m.on_set_pause(500);
    assert!(fx.is_empty());
    let fx = m.on_set_pause(250);
    assert_eq!(m.pause_after_ms, 250);
    assert!(matches!(fx[0], Effect::SaveConfig));
    assert!(matches!(fx[1], Effect::StartTts { .. }));
}

#[test]
fn reduce_dispatches_and_rejects_stale_batches() {
    let mut m = started_machine();
    let stale = Event::BatchReady {
        request_id: m.request_id.wrapping_add(1),
        page: 0,
        start_idx: 0,
        clips: vec![clip("z", 5)],
        now_ms: 0,
    };
    let fx = m.reduce(stale);
    assert!(fx.is_empty());
    let fx = m.reduce(Event::Pause { now_ms: 100 });
    assert!(matches!(fx[0], Effect::PauseAudio));
    let fx = m.reduce(Event::NextPage);
    assert!(fx.is_empty()); // only one page
}

fn effect_name(e: &Effect) -> &'static str {
    match e {
        Effect::SaveConfig => "SaveConfig",
        Effect::SaveBookmark => "SaveBookmark",
        Effect::StartTts { .. } => "StartTts",
        Effect::StopTts => "StopTts",
        Effect::PauseAudio => "PauseAudio",
        Effect::ResumeAudio => "ResumeAudio",
        Effect::PlayAudio { .. } => "PlayAudio",
        Effect::AutoScrollToCurrent => "AutoScrollToCurrent",
        Effect::ScrollToCurrent => "ScrollToCurrent",
    }
}

#[test]
fn current_sentence_never_goes_backwards_as_time_passes() {
    let mut m = started_machine();
    let mut last = 0usize;
    for t in (0..7000u64).step_by(250) {
        m.on_tick(t);
        if let Some(idx) = m.current_sentence_idx {
            assert!(idx >= last, "index went backwards at {} ms", t);
            last = idx;
        }
    }
    // past the total duration (2000 + 3000 + 2 * 500) the session has stopped
    assert!(!m.running);
}

#[test]
fn start_on_missing_page_clears_narration_state() {
    let mut m = started_machine();
    assert!(m.running);
    assert!(m.start_playback_from(5, StartPos::Audio(0)).is_none());
    assert_eq!(m.current_sentence_idx, None);
    assert_eq!(m.sentence_offset, 0);
    assert_eq!(m.audio_len, 0);
    assert!(!m.running);
    assert!(m.track.is_empty());
}

#[test]
fn reduce_jump_scrolls_to_the_spoken_sentence() {
    let mut m = started_machine();
    let fx = m.reduce(Event::JumpToCurrentAudio);
    assert_eq!(fx.len(), 2);
    assert!(matches!(fx[0], Effect::ScrollToCurrent));
    assert!(matches!(fx[1], Effect::SaveBookmark));
}
