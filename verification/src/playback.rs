//! Narration playback state machine.
//!
//! The machine owns the lifecycle of a narration session: it issues prepare
//! requests under a monotonically increasing request id, rejects stale
//! asynchronous results, resolves elapsed playing time to the currently
//! spoken sentence, and handles pause, resume, seeking and page crossing.
//! It performs no I/O itself: every outside action is returned as an
//! `Effect` for the host to execute.

use vstd::prelude::*;
use crate::normalizer::{spec_plan, PageNormalization, TextNormalizer};

verus! {

/// One prepared audio clip: an opaque handle (for the host, the synthesized
/// file's path) and the clip's duration in milliseconds.
pub struct Clip {
    pub handle: String,
    pub duration_ms: u64,
}

/// Where a restarted playback should begin within a page's audio sentences.
#[derive(Clone, Copy, PartialEq, Eq, Structural, Debug)]
pub enum StartPos {
    /// At the given audio-sentence index, clamped to the page's audio range.
    Audio(usize),
    /// At the page's last audio sentence.
    LastAudio,
}

/// Outside work requested by the machine; the host executes each in order.
pub enum Effect {
    /// Persist the configuration.
    SaveConfig,
    /// Persist the reading position.
    SaveBookmark,
    /// Begin a new narration session on `page` at `pos` (the host calls
    /// `start_playback_from` and forwards the returned prepare request).
    StartTts { page: usize, pos: StartPos },
    /// Stop the audio engine.
    StopTts,
    /// Pause the active clip.
    PauseAudio,
    /// Resume the active clip.
    ResumeAudio,
    /// Play the given clips with the given inter-clip pause.
    PlayAudio { handles: Vec<String>, pause_ms: u64 },
    /// Scroll so the spoken sentence is visible, if auto-scroll is on.
    AutoScrollToCurrent,
    /// Scroll to the spoken sentence unconditionally.
    ScrollToCurrent,
}

/// An input to the state machine, either a user action or a completed piece
/// of outside work.
pub enum Event {
    Play { now_ms: u64 },
    Pause { now_ms: u64 },
    PlayFromPageStart,
    PlayFromCursor { display_idx: usize },
    SeekForward,
    SeekBackward,
    NextPage,
    PreviousPage,
    JumpToCurrentAudio,
    Tick { now_ms: u64 },
    BatchReady { request_id: u64, page: usize, start_idx: usize, clips: Vec<Clip>, now_ms: u64 },
    SetSpeed { speed_pm: u32 },
    SetPause { pause_ms: u64 },
}

/// Elapsed playing time: the accumulated time plus the time since the clock
/// was last started, clamped at the numeric range.
pub open spec fn spec_elapsed(elapsed: u64, started: u64, now: u64) -> int {
    let d: int = if now >= started {
        now - started
    } else {
        0
    };
    if elapsed + d > u64::MAX {
        u64::MAX as int
    } else {
        elapsed + d
    }
}

/// Cumulative duration of track entries `0..=i`, each extended by the
/// inter-sentence pause.
pub open spec fn cum_ms(track: Seq<u64>, pause: u64, i: int) -> int
    decreases i + 1,
    when i >= -1
{
    if i < 0 {
        0
    } else {
        cum_ms(track, pause, i - 1) + track[i] + pause
    }
}

/// The first track position whose cumulative boundary is at or beyond
/// `elapsed`, starting the search at `i`.
pub open spec fn resolve_from(track: Seq<u64>, pause: u64, elapsed: int, i: int) -> Option<int>
    decreases track.len() - i,
    when 0 <= i <= track.len()
{
    if i >= track.len() {
        Option::<int>::None
    } else if elapsed <= cum_ms(track, pause, i) {
        Option::Some(i)
    } else {
        resolve_from(track, pause, elapsed, i + 1)
    }
}

/// The track position playing at `elapsed`, or `None` when the whole track
/// has finished.
pub open spec fn resolve_idx(track: Seq<u64>, pause: u64, elapsed: int) -> Option<int> {
    resolve_from(track, pause, elapsed, 0)
}

/// The spoken-sentence index of track position `i`: the session's sentence
/// offset plus `i`, clamped to the page's audio sentences.
pub open spec fn clamp_idx(raw: int, audio_len: int) -> int {
    if audio_len <= 0 {
        0
    } else if raw < audio_len {
        raw
    } else {
        audio_len - 1
    }
}

proof fn lemma_cum_nonneg(track: Seq<u64>, pause: u64, j: int)
    requires
        -1 <= j < track.len(),
    ensures
        0 <= cum_ms(track, pause, j),
    decreases j + 1,
{
    if j >= 0 {
        lemma_cum_nonneg(track, pause, j - 1);
    }
}

proof fn lemma_cum_ms_monotonic(track: Seq<u64>, pause: u64, i: int, j: int)
    requires
        -1 <= i <= j < track.len(),
    ensures
        cum_ms(track, pause, i) <= cum_ms(track, pause, j),
        0 <= cum_ms(track, pause, j),
    decreases j - i,
{
    lemma_cum_nonneg(track, pause, j);
    if i < j {
        lemma_cum_ms_monotonic(track, pause, i, j - 1);
    }
}

proof fn lemma_resolve_from(track: Seq<u64>, pause: u64, elapsed: int, i: int)
    requires
        0 <= i <= track.len(),
    ensures
        match resolve_from(track, pause, elapsed, i) {
            Option::Some(k) => i <= k < track.len() && elapsed <= cum_ms(track, pause, k)
                && (forall|m: int| i <= m < k ==> elapsed > cum_ms(track, pause, m)),
            Option::None => forall|m: int|
                i <= m < track.len() ==> elapsed > cum_ms(track, pause, m),
        },
    decreases track.len() - i,
{
    if i < track.len() && !(elapsed <= cum_ms(track, pause, i)) {
        lemma_resolve_from(track, pause, elapsed, i + 1);
    }
}

/// Law: for a fixed track, the resolved position is non-decreasing in the
/// elapsed time, and the track is finished (`None`) exactly when the elapsed
/// time exceeds the track's total duration.
pub proof fn lemma_tick_monotonic(track: Seq<u64>, pause: u64, e1: int, e2: int)
    requires
        e1 <= e2,
    ensures
        resolve_idx(track, pause, e1) is Some && resolve_idx(track, pause, e2) is Some
            ==> resolve_idx(track, pause, e1)->0 <= resolve_idx(track, pause, e2)->0,
        resolve_idx(track, pause, e1) is None ==> resolve_idx(track, pause, e2) is None,
        track.len() > 0 ==> (resolve_idx(track, pause, e2) is None <==> e2 > cum_ms(
            track,
            pause,
            track.len() - 1,
        )),
        track.len() == 0 ==> resolve_idx(track, pause, e2) is None,
{
    lemma_resolve_from(track, pause, e1, 0);
    lemma_resolve_from(track, pause, e2, 0);
    if track.len() > 0 {
        if resolve_idx(track, pause, e2) is Some {
            let k = resolve_idx(track, pause, e2)->0;
            lemma_cum_ms_monotonic(track, pause, k, track.len() - 1);
        }
    }
    if resolve_idx(track, pause, e1) is Some && resolve_idx(track, pause, e2) is Some {
        let k1 = resolve_idx(track, pause, e1)->0;
        let k2 = resolve_idx(track, pause, e2)->0;
        if k2 < k1 {
            assert(e1 > cum_ms(track, pause, k2));
            assert(e2 <= cum_ms(track, pause, k2));
        }
    }
}

/// The track position playing at `elapsed`.
fn resolve_in(track: &Vec<u64>, pause: u64, elapsed: u64) -> (r: Option<usize>)
    ensures
        match r {
            Some(k) => resolve_idx(track@, pause, elapsed as int) == Option::Some(k as int),
            None => resolve_idx(track@, pause, elapsed as int) is None,
        },
{
    let mut acc: u128 = 0;
    let mut i: usize = 0;
    while i < track.len()
        invariant
            0 <= i <= track@.len(),
            acc == cum_ms(track@, pause, i - 1),
            acc <= elapsed as u128,
            resolve_from(track@, pause, elapsed as int, 0) == resolve_from(
                track@,
                pause,
                elapsed as int,
                i as int,
            ),
        decreases track@.len() - i,
    {
        assert(track@[i as int] as int + pause as int <= u64::MAX as int * 2);
        let step: u128 = track[i] as u128 + pause as u128;
        acc = acc + step;
        if elapsed as u128 <= acc {
            return Some(i);
        }
        i = i + 1;
    }
    None
}

/// Narration speed bounds, in per-mille of natural speed.
pub const MIN_SPEED_PM: u32 = 500;

pub const MAX_SPEED_PM: u32 = 3000;

/// Largest accepted inter-sentence pause, in milliseconds.
pub const MAX_PAUSE_MS: u64 = 2000;

/// A request to the external audio engine: synthesize the audio sentences
/// of `page` from `audio_start_idx` on, under `request_id`.
pub struct PrepareRequest {
    pub page: usize,
    pub request_id: u64,
    pub audio_start_idx: usize,
    pub audio_sentences: Vec<String>,
    pub speed_pm: u32,
    pub pause_after_ms: u64,
}

/// The playback state machine. It owns the narration session and the
/// current reading position; the host owns the audio engine, the clock and
/// persistence, and drives the machine with events.
pub struct PlaybackMachine {
    /// Sentence normalizer used to plan each page's audio sentences.
    pub normalizer: TextNormalizer,
    /// The display sentences of every page, in reading order.
    pub pages: Vec<Vec<String>>,
    /// The page currently shown.
    pub current_page: usize,
    /// Monotonic identity of the newest prepare request; results carrying
    /// any other id are stale and discarded.
    pub request_id: u64,
    /// Whether a prepared session exists (audio is loaded in the engine).
    pub has_session: bool,
    /// Whether the session is playing right now.
    pub running: bool,
    /// When the clock started, while running.
    pub started_at_ms: Option<u64>,
    /// Playing time accumulated before `started_at_ms`.
    pub elapsed_ms: u64,
    /// Audio-sentence index of the track's first clip.
    pub sentence_offset: usize,
    /// The audio sentence being spoken, for highlighting and scrolling.
    pub current_sentence_idx: Option<usize>,
    /// Durations of the session's clips, in milliseconds.
    pub track: Vec<u64>,
    /// Handles of the session's clips, parallel to `track`.
    pub track_handles: Vec<String>,
    /// Number of audio sentences in the current page's plan.
    pub audio_len: usize,
    /// Narration speed, per-mille.
    pub speed_pm: u32,
    /// Pause between sentences, in milliseconds.
    pub pause_after_ms: u64,
}

/// The audio-sentence count of a page's plan; a page that does not exist
/// has none.
pub open spec fn page_audio_len(m: PlaybackMachine, page: int) -> int {
    if 0 <= page < m.pages@.len() {
        spec_plan(m.normalizer.config, m.pages@[page].deep_view()).0.len() as int
    } else {
        0
    }
}

/// The start index a position resolves to on a page with `n` audio
/// sentences (`n` at least 1).
pub open spec fn start_idx_of(pos: StartPos, n: int) -> int {
    match pos {
        StartPos::Audio(i) => if i < n {
            i as int
        } else {
            n - 1
        },
        StartPos::LastAudio => n - 1,
    }
}

impl PlaybackMachine {
    /// Structural soundness: parallel track vectors, the current page in
    /// range, indices within the page's audio range.
    pub open spec fn wf(self) -> bool {
        &&& self.track@.len() == self.track_handles@.len()
        &&& (self.pages@.len() > 0 ==> (self.current_page as int) < self.pages@.len())
        &&& (match self.current_sentence_idx {
            Option::Some(i) => (i as int) < self.audio_len as int || i == 0,
            Option::None => true,
        })
        &&& ((self.sentence_offset as int) < self.audio_len as int || self.sentence_offset == 0)
    }

    /// A fresh machine: idle on `start_page` (clamped to the pages that
    /// exist), with no session and request id 0.
    pub fn new(
        normalizer: TextNormalizer,
        pages: Vec<Vec<String>>,
        start_page: usize,
        speed_pm: u32,
        pause_after_ms: u64,
    ) -> (r: PlaybackMachine)
        ensures
            r.wf(),
            r.normalizer == normalizer,
            r.pages == pages,
            r.pages@.len() == 0 ==> r.current_page == 0,
            r.pages@.len() > 0 ==> r.current_page as int == if (start_page as int) < r.pages@.len() {
                start_page as int
            } else {
                r.pages@.len() - 1
            },
            r.request_id == 0,
            !r.has_session,
            !r.running,
            r.started_at_ms is None,
            r.elapsed_ms == 0,
            r.sentence_offset == 0,
            r.current_sentence_idx is None,
            r.track@ == Seq::<u64>::empty(),
            r.track_handles@ == Seq::<String>::empty(),
            r.audio_len == 0,
            r.speed_pm == clamp_speed(speed_pm),
            r.pause_after_ms == clamp_pause(pause_after_ms),
    {
        let page = if pages.len() == 0 {
            0
        } else if start_page < pages.len() {
            start_page
        } else {
            pages.len() - 1
        };
        PlaybackMachine {
            normalizer,
            pages,
            current_page: page,
            request_id: 0,
            has_session: false,
            running: false,
            started_at_ms: None,
            elapsed_ms: 0,
            sentence_offset: 0,
            current_sentence_idx: None,
            track: Vec::new(),
            track_handles: Vec::new(),
            audio_len: 0,
            speed_pm: clamp_speed_pm(speed_pm),
            pause_after_ms: clamp_pause_ms(pause_after_ms),
        }
    }

    /// Stops any session, plans the page's audio sentences, and issues a
    /// new prepare request starting at `pos`; `None` when the page does not
    /// exist or has no speakable sentence. In that case no request is owed,
    /// the spoken-sentence index and offset are cleared, and the request id
    /// stays as it is, so any still-pending result remains acceptable only
    /// for the page it was made for.
    pub fn start_playback_from(&mut self, page: usize, pos: StartPos) -> (r: Option<
        PrepareRequest,
    >)
        requires
            old(self).wf(),
        ensures
            final(self).wf(),
            ({
                let n = page_audio_len(*old(self), page as int);
                &&& final(self).normalizer == old(self).normalizer
                &&& final(self).pages == old(self).pages
                &&& final(self).current_page == old(self).current_page
                &&& !final(self).running
                &&& !final(self).has_session
                &&& final(self).started_at_ms is None
                &&& final(self).elapsed_ms == 0
                &&& final(self).track@ == Seq::<u64>::empty()
                &&& final(self).track_handles@ == Seq::<String>::empty()
                &&& final(self).audio_len as int == n
                &&& final(self).speed_pm == old(self).speed_pm
                &&& final(self).pause_after_ms == old(self).pause_after_ms
                &&& (n == 0 ==> {
                    &&& r is None
                    &&& final(self).current_sentence_idx is None
                    &&& final(self).sentence_offset == 0
                    &&& final(self).request_id == old(self).request_id
                })
                &&& (n > 0 ==> {
                    let idx = start_idx_of(pos, n);
                    &&& final(self).request_id as int == (old(self).request_id as int + 1) % (
                    u64::MAX as int + 1)
                    &&& final(self).sentence_offset as int == idx
                    &&& final(self).current_sentence_idx == Option::Some(idx as usize)
                    &&& r is Some
                    &&& r->0.page == page
                    &&& r->0.request_id == final(self).request_id
                    &&& r->0.audio_start_idx as int == idx
                    &&& crate::normalizer::strs_view(r->0.audio_sentences@) == spec_plan(
                        old(self).normalizer.config,
                        old(self).pages@[page as int].deep_view(),
                    ).0
                    &&& r->0.speed_pm == old(self).speed_pm
                    &&& r->0.pause_after_ms == old(self).pause_after_ms
                })
            }),
    {
        self.running = false;
        self.has_session = false;
        self.started_at_ms = None;
        self.elapsed_ms = 0;
        self.track = Vec::new();
        self.track_handles = Vec::new();
        if page >= self.pages.len() {
            self.audio_len = 0;
            self.current_sentence_idx = None;
            self.sentence_offset = 0;
            return None;
        }
        let plan = self.normalizer.plan_page(&self.pages[page]);
        let n = plan.audio_sentences.len();
        self.audio_len = n;
        if n == 0 {
            self.current_sentence_idx = None;
            self.sentence_offset = 0;
            return None;
        }
        let idx = match pos {
            StartPos::Audio(i) => if i < n {
                i
            } else {
                n - 1
            },
            StartPos::LastAudio => n - 1,
        };
        self.sentence_offset = idx;
        self.current_sentence_idx = Some(idx);
        self.request_id = self.request_id.wrapping_add(1);
        Some(
            PrepareRequest {
                page,
                request_id: self.request_id,
                audio_start_idx: idx,
                audio_sentences: plan.audio_sentences,
                speed_pm: self.speed_pm,
                pause_after_ms: self.pause_after_ms,
            },
        )
    }
}

/// The narration speed clamped to its accepted range.
pub open spec fn clamp_speed(v: u32) -> u32 {
    if v < MIN_SPEED_PM {
        MIN_SPEED_PM
    } else if v > MAX_SPEED_PM {
        MAX_SPEED_PM
    } else {
        v
    }
}

pub fn clamp_speed_pm(v: u32) -> (r: u32)
    ensures
        r == clamp_speed(v),
{
    if v < MIN_SPEED_PM {
        MIN_SPEED_PM
    } else if v > MAX_SPEED_PM {
        MAX_SPEED_PM
    } else {
        v
    }
}

/// The inter-sentence pause clamped to its accepted range.
pub open spec fn clamp_pause(v: u64) -> u64 {
    if v > MAX_PAUSE_MS {
        MAX_PAUSE_MS
    } else {
        v
    }
}

pub fn clamp_pause_ms(v: u64) -> (r: u64)
    ensures
        r == clamp_pause(v),
{
    if v > MAX_PAUSE_MS {
        MAX_PAUSE_MS
    } else {
        v
    }
}

/// The durations of a batch of clips, in order.
pub open spec fn durations_of(clips: Seq<Clip>) -> Seq<u64> {
    clips.map_values(|c: Clip| c.duration_ms)
}

/// The handles of a batch of clips, in order.
pub open spec fn handles_of(clips: Seq<Clip>) -> Seq<Seq<char>> {
    clips.map_values(|c: Clip| c.handle@)
}

/// The audio index of the first surviving display sentence at or after
/// `from` in a display-to-audio map.
pub open spec fn first_audio_at_or_after(d2a: Seq<Option<int>>, from: int) -> Option<int>
    decreases d2a.len() - from,
    when 0 <= from <= d2a.len()
{
    if from >= d2a.len() {
        Option::<int>::None
    } else if d2a[from] is Some {
        d2a[from]
    } else {
        first_audio_at_or_after(d2a, from + 1)
    }
}

/// Where playback starts for a cursor at `display_idx` on the current page:
/// the nearest surviving sentence at or after the cursor, or the page's last
/// audio sentence when nothing at or after the cursor survives.
pub open spec fn spec_cursor_pos(m: PlaybackMachine, display_idx: int) -> StartPos {
    let p = spec_plan(m.normalizer.config, m.pages@[m.current_page as int].deep_view());
    let from = if display_idx <= p.1.len() {
        display_idx
    } else {
        p.1.len() as int
    };
    match first_audio_at_or_after(p.1, from) {
        Option::Some(a) => StartPos::Audio(a as usize),
        Option::None => StartPos::LastAudio,
    }
}

/// The audio index of the nearest surviving display sentence at or after
/// `from` in the plan, or `None` when none survives there.
fn first_audio_from(plan: &PageNormalization, from: usize) -> (r: Option<usize>)
    requires
        from <= plan.display_to_audio@.len(),
    ensures
        match r {
            Some(a) => first_audio_at_or_after(
                crate::normalizer::opts_view(plan.display_to_audio@),
                from as int,
            ) == Option::Some(a as int),
            None => first_audio_at_or_after(
                crate::normalizer::opts_view(plan.display_to_audio@),
                from as int,
            ) is None,
        },
{
    let ghost d2a = crate::normalizer::opts_view(plan.display_to_audio@);
    let mut d: usize = from;
    while d < plan.display_to_audio.len()
        invariant
            from <= d <= plan.display_to_audio@.len(),
            d2a == crate::normalizer::opts_view(plan.display_to_audio@),
            d2a.len() == plan.display_to_audio@.len(),
            first_audio_at_or_after(d2a, from as int) == first_audio_at_or_after(d2a, d as int),
        decreases plan.display_to_audio@.len() - d,
    {
        proof {
            assert(d2a[d as int] == match plan.display_to_audio@[d as int] {
                Option::Some(x) => Option::Some(x as int),
                Option::None => Option::<int>::None,
            });
        }
        match plan.display_to_audio[d] {
            Some(a) => {
                return Some(a);
            },
            None => {},
        }
        d = d + 1;
    }
    None
}


impl PlaybackMachine {
    /// Resume a paused session, or start narrating the current page from
    /// its beginning when no session exists.
    pub fn on_play(&mut self, now_ms: u64) -> (r: Vec<Effect>)
        requires
            old(self).wf(),
        ensures
            final(self).wf(),
            play_post(*old(self), *final(self), r@, now_ms),
    {
        if self.has_session {
            self.running = true;
            self.started_at_ms = Some(now_ms);
            let mut r: Vec<Effect> = Vec::new();
            r.push(Effect::ResumeAudio);
            r
        } else {
            let mut r: Vec<Effect> = Vec::new();
            r.push(Effect::StartTts { page: self.current_page, pos: StartPos::Audio(0) });
            r.push(Effect::AutoScrollToCurrent);
            r.push(Effect::SaveBookmark);
            r
        }
    }

    /// Freeze the elapsed clock and stop ticking; the active clip is paused
    /// when a session exists.
    pub fn on_pause(&mut self, now_ms: u64) -> (r: Vec<Effect>)
        requires
            old(self).wf(),
        ensures
            final(self).wf(),
            pause_post(*old(self), *final(self), r@, now_ms),
    {
        let mut r: Vec<Effect> = Vec::new();
        if self.has_session {
            r.push(Effect::PauseAudio);
        }
        self.running = false;
        match self.started_at_ms {
            Some(st) => {
                let delta: u64 = if now_ms >= st {
                    now_ms - st
                } else {
                    0
                };
                self.elapsed_ms = self.elapsed_ms.saturating_add(delta);
                self.started_at_ms = None;
            },
            None => {},
        }
        r
    }

    /// Start narrating the current page from its first audio sentence.
    pub fn on_play_from_page_start(&mut self) -> (r: Vec<Effect>)
        requires
            old(self).wf(),
        ensures
            final(self).wf(),
            page_start_post(*old(self), *final(self), r@),
    {
        let mut r: Vec<Effect> = Vec::new();
        r.push(Effect::StartTts { page: self.current_page, pos: StartPos::Audio(0) });
        r.push(Effect::AutoScrollToCurrent);
        r.push(Effect::SaveBookmark);
        r
    }

    /// Start narrating at the cursor: the nearest surviving audio sentence
    /// at or after the chosen display sentence, or the page's last audio
    /// sentence when nothing after the cursor survives.
    pub fn on_play_from_cursor(&mut self, display_idx: usize) -> (r: Vec<Effect>)
        requires
            old(self).wf(),
        ensures
            final(self).wf(),
            cursor_post(*old(self), *final(self), r@, display_idx as int),
    {
        let pos: StartPos = if self.pages.len() == 0 {
            StartPos::Audio(0)
        } else {
            let plan = self.normalizer.plan_page(&self.pages[self.current_page]);
            let len = plan.display_to_audio.len();
            let from: usize = if display_idx <= len {
                display_idx
            } else {
                len
            };
            match first_audio_from(&plan, from) {
                Some(a) => StartPos::Audio(a),
                None => StartPos::LastAudio,
            }
        };
        let mut r: Vec<Effect> = Vec::new();
        r.push(Effect::StartTts { page: self.current_page, pos });
        r.push(Effect::AutoScrollToCurrent);
        r.push(Effect::SaveBookmark);
        r
    }
}

/// The two machines agree on every field except the current page.
pub open spec fn same_but_page(a: PlaybackMachine, b: PlaybackMachine) -> bool {
    &&& a.normalizer == b.normalizer
    &&& a.pages == b.pages
    &&& a.request_id == b.request_id
    &&& a.has_session == b.has_session
    &&& a.running == b.running
    &&& a.started_at_ms == b.started_at_ms
    &&& a.elapsed_ms == b.elapsed_ms
    &&& a.sentence_offset == b.sentence_offset
    &&& a.current_sentence_idx == b.current_sentence_idx
    &&& a.track == b.track
    &&& a.track_handles == b.track_handles
    &&& a.audio_len == b.audio_len
    &&& a.speed_pm == b.speed_pm
    &&& a.pause_after_ms == b.pause_after_ms
}

/// The spoken-sentence index a seek starts from: the current sentence, or 0
/// when none is set.
pub open spec fn seek_cur(m: PlaybackMachine) -> int {
    match m.current_sentence_idx {
        Option::Some(i) => i as int,
        Option::None => 0,
    }
}

impl PlaybackMachine {
    /// Seek to the next audio sentence, crossing into the next page when the
    /// current one is exhausted.
    pub fn on_seek_forward(&mut self) -> (r: Vec<Effect>)
        requires
            old(self).wf(),
        ensures
            final(self).wf(),
            seek_forward_post(*old(self), *final(self), r@),
    {
        let cur: usize = match self.current_sentence_idx {
            Some(i) => i,
            None => 0,
        };
        let npages = self.pages.len();
        let mut r: Vec<Effect> = Vec::new();
        if cur < usize::MAX && cur + 1 < self.audio_len {
            r.push(Effect::StartTts { page: self.current_page, pos: StartPos::Audio(cur + 1) });
            r.push(Effect::AutoScrollToCurrent);
            r.push(Effect::SaveBookmark);
        } else if self.current_page < usize::MAX && self.current_page + 1 < npages {
            self.current_page = self.current_page + 1;
            r.push(Effect::StartTts { page: self.current_page, pos: StartPos::Audio(0) });
            r.push(Effect::SaveConfig);
            r.push(Effect::AutoScrollToCurrent);
            r.push(Effect::SaveBookmark);
        }
        r
    }

    /// Seek to the previous audio sentence, crossing into the previous
    /// page's last audio sentence at a page boundary.
    pub fn on_seek_backward(&mut self) -> (r: Vec<Effect>)
        requires
            old(self).wf(),
        ensures
            final(self).wf(),
            seek_backward_post(*old(self), *final(self), r@),
    {
        let cur: usize = match self.current_sentence_idx {
            Some(i) => i,
            None => 0,
        };
        let mut r: Vec<Effect> = Vec::new();
        if cur > 0 {
            r.push(Effect::StartTts { page: self.current_page, pos: StartPos::Audio(cur - 1) });
            r.push(Effect::AutoScrollToCurrent);
            r.push(Effect::SaveBookmark);
        } else if self.current_page > 0 {
            self.current_page = self.current_page - 1;
            r.push(Effect::StartTts { page: self.current_page, pos: StartPos::LastAudio });
            r.push(Effect::SaveConfig);
            r.push(Effect::AutoScrollToCurrent);
            r.push(Effect::SaveBookmark);
        }
        r
    }

    /// Show `new_page` and start narrating it from the top; out-of-range
    /// pages are ignored.
    pub fn go_to_page(&mut self, new_page: usize) -> (r: Vec<Effect>)
        requires
            old(self).wf(),
        ensures
            final(self).wf(),
            goto_post(*old(self), *final(self), r@, new_page as int),
    {
        let mut r: Vec<Effect> = Vec::new();
        if new_page < self.pages.len() {
            self.current_page = new_page;
            r.push(Effect::StartTts { page: new_page, pos: StartPos::Audio(0) });
            r.push(Effect::AutoScrollToCurrent);
            r.push(Effect::SaveBookmark);
        }
        r
    }

    /// Change the narration speed; because the prepared clips depend on the
    /// speed, an active session restarts from the spoken sentence.
    pub fn on_set_speed(&mut self, speed_pm: u32) -> (r: Vec<Effect>)
        requires
            old(self).wf(),
        ensures
            final(self).wf(),
            set_speed_post(*old(self), *final(self), r@, speed_pm),
    {
        self.speed_pm = clamp_speed_pm(speed_pm);
        let mut r: Vec<Effect> = Vec::new();
        if self.has_session {
            let cur: usize = match self.current_sentence_idx {
                Some(i) => i,
                None => 0,
            };
            r.push(Effect::StartTts { page: self.current_page, pos: StartPos::Audio(cur) });
            r.push(Effect::AutoScrollToCurrent);
            r.push(Effect::SaveBookmark);
        }
        r.push(Effect::SaveConfig);
        r
    }

    /// Change the inter-sentence pause; because the prepared batch depends
    /// on it, an active session restarts from the spoken sentence. An
    /// unchanged value does nothing.
    pub fn on_set_pause(&mut self, pause_ms: u64) -> (r: Vec<Effect>)
        requires
            old(self).wf(),
        ensures
            final(self).wf(),
            set_pause_post(*old(self), *final(self), r@, pause_ms),
    {
        let c = clamp_pause_ms(pause_ms);
        let mut r: Vec<Effect> = Vec::new();
        if c != self.pause_after_ms {
            self.pause_after_ms = c;
            r.push(Effect::SaveConfig);
            if self.has_session {
                let cur: usize = match self.current_sentence_idx {
                    Some(i) => i,
                    None => 0,
                };
                r.push(Effect::StartTts { page: self.current_page, pos: StartPos::Audio(cur) });
                r.push(Effect::AutoScrollToCurrent);
                r.push(Effect::SaveBookmark);
            }
        }
        r
    }

    /// Scroll to the spoken sentence without changing playback.
    pub fn on_jump_to_current_audio(&mut self) -> (r: Vec<Effect>)
        requires
            old(self).wf(),
        ensures
            final(self).wf(),
            jump_post(*old(self), *final(self), r@),
    {
        let mut r: Vec<Effect> = Vec::new();
        if self.current_sentence_idx.is_some() {
            r.push(Effect::ScrollToCurrent);
            r.push(Effect::SaveBookmark);
        }
        r
    }
}

/// The two machines agree on every field except the spoken-sentence index.
pub open spec fn same_but_current(a: PlaybackMachine, b: PlaybackMachine) -> bool {
    &&& a.normalizer == b.normalizer
    &&& a.pages == b.pages
    &&& a.current_page == b.current_page
    &&& a.request_id == b.request_id
    &&& a.has_session == b.has_session
    &&& a.running == b.running
    &&& a.started_at_ms == b.started_at_ms
    &&& a.elapsed_ms == b.elapsed_ms
    &&& a.sentence_offset == b.sentence_offset
    &&& a.track == b.track
    &&& a.track_handles == b.track_handles
    &&& a.audio_len == b.audio_len
    &&& a.speed_pm == b.speed_pm
    &&& a.pause_after_ms == b.pause_after_ms
}

/// `a` is `b` with the session stopped; the current page and the
/// spoken-sentence index are constrained separately.
pub open spec fn stopped_core(a: PlaybackMachine, b: PlaybackMachine) -> bool {
    &&& !a.running
    &&& !a.has_session
    &&& a.started_at_ms is None
    &&& a.normalizer == b.normalizer
    &&& a.pages == b.pages
    &&& a.request_id == b.request_id
    &&& a.elapsed_ms == b.elapsed_ms
    &&& a.sentence_offset == b.sentence_offset
    &&& a.track == b.track
    &&& a.track_handles == b.track_handles
    &&& a.audio_len == b.audio_len
    &&& a.speed_pm == b.speed_pm
    &&& a.pause_after_ms == b.pause_after_ms
}


/// What `Play` leaves behind: a paused session resumes with the clock
/// restarted; without a session, narration of the current page is requested
/// from its start.
pub open spec fn play_post(
    pre: PlaybackMachine,
    post: PlaybackMachine,
    r: Seq<Effect>,
    now_ms: u64,
) -> bool {
    if pre.has_session {
        &&& post == (PlaybackMachine {
            running: true,
            started_at_ms: Option::Some(now_ms),
            ..pre
        })
        &&& r =~= seq![Effect::ResumeAudio]
    } else {
        &&& post == pre
        &&& r =~= seq![
            (Effect::StartTts { page: pre.current_page, pos: StartPos::Audio(0) }),
            Effect::AutoScrollToCurrent,
            Effect::SaveBookmark,
        ]
    }
}

/// What `Pause` leaves behind: the elapsed clock frozen, the tick clock
/// cleared, and the active clip paused when a session exists.
pub open spec fn pause_post(
    pre: PlaybackMachine,
    post: PlaybackMachine,
    r: Seq<Effect>,
    now_ms: u64,
) -> bool {
    &&& post == (PlaybackMachine {
        running: false,
        started_at_ms: Option::<u64>::None,
        elapsed_ms: match pre.started_at_ms {
            Option::Some(st) => spec_elapsed(pre.elapsed_ms, st, now_ms) as u64,
            Option::None => pre.elapsed_ms,
        },
        ..pre
    })
    &&& (pre.has_session ==> r =~= seq![Effect::PauseAudio])
    &&& (!pre.has_session ==> r =~= Seq::<Effect>::empty())
}

/// What `PlayFromPageStart` leaves behind: the state untouched, narration of
/// the current page requested from its first audio sentence.
pub open spec fn page_start_post(pre: PlaybackMachine, post: PlaybackMachine, r: Seq<Effect>) -> bool {
    &&& post == pre
    &&& r =~= seq![
        (Effect::StartTts { page: pre.current_page, pos: StartPos::Audio(0) }),
        Effect::AutoScrollToCurrent,
        Effect::SaveBookmark,
    ]
}

/// What `PlayFromCursor` leaves behind: the state untouched, narration
/// requested at the cursor's position translated through the page's plan.
pub open spec fn cursor_post(
    pre: PlaybackMachine,
    post: PlaybackMachine,
    r: Seq<Effect>,
    display_idx: int,
) -> bool {
    &&& post == pre
    &&& (pre.pages@.len() == 0 ==> r =~= seq![
        (Effect::StartTts { page: pre.current_page, pos: StartPos::Audio(0) }),
        Effect::AutoScrollToCurrent,
        Effect::SaveBookmark,
    ])
    &&& (pre.pages@.len() > 0 ==> r =~= seq![
        (Effect::StartTts { page: pre.current_page, pos: spec_cursor_pos(pre, display_idx) }),
        Effect::AutoScrollToCurrent,
        Effect::SaveBookmark,
    ])
}

/// What `SeekForward` leaves behind: a restart at the next audio sentence
/// within the page, a crossing into the next page's start, or nothing when
/// at the end of the book.
pub open spec fn seek_forward_post(
    pre: PlaybackMachine,
    post: PlaybackMachine,
    r: Seq<Effect>,
) -> bool {
    if seek_cur(pre) + 1 < pre.audio_len as int {
        &&& post == pre
        &&& r =~= seq![
            (Effect::StartTts {
                page: pre.current_page,
                pos: StartPos::Audio((seek_cur(pre) + 1) as usize),
            }),
            Effect::AutoScrollToCurrent,
            Effect::SaveBookmark,
        ]
    } else if pre.current_page as int + 1 < pre.pages@.len() {
        &&& post.current_page as int == pre.current_page as int + 1
        &&& same_but_page(post, pre)
        &&& r =~= seq![
            (Effect::StartTts { page: post.current_page, pos: StartPos::Audio(0) }),
            Effect::SaveConfig,
            Effect::AutoScrollToCurrent,
            Effect::SaveBookmark,
        ]
    } else {
        &&& post == pre
        &&& r =~= Seq::<Effect>::empty()
    }
}

/// What `SeekBackward` leaves behind: a restart at the previous audio
/// sentence, a crossing to the previous page's last audio sentence, or
/// nothing when at the start of the book.
pub open spec fn seek_backward_post(
    pre: PlaybackMachine,
    post: PlaybackMachine,
    r: Seq<Effect>,
) -> bool {
    if seek_cur(pre) > 0 {
        &&& post == pre
        &&& r =~= seq![
            (Effect::StartTts {
                page: pre.current_page,
                pos: StartPos::Audio((seek_cur(pre) - 1) as usize),
            }),
            Effect::AutoScrollToCurrent,
            Effect::SaveBookmark,
        ]
    } else if pre.current_page > 0 {
        &&& post.current_page as int == pre.current_page as int - 1
        &&& same_but_page(post, pre)
        &&& r =~= seq![
            (Effect::StartTts { page: post.current_page, pos: StartPos::LastAudio }),
            Effect::SaveConfig,
            Effect::AutoScrollToCurrent,
            Effect::SaveBookmark,
        ]
    } else {
        &&& post == pre
        &&& r =~= Seq::<Effect>::empty()
    }
}

/// What showing `new_page` leaves behind: the page switched and narration
/// requested from its top, or nothing when the page does not exist.
pub open spec fn goto_post(
    pre: PlaybackMachine,
    post: PlaybackMachine,
    r: Seq<Effect>,
    new_page: int,
) -> bool {
    if 0 <= new_page < pre.pages@.len() {
        &&& post.current_page as int == new_page
        &&& same_but_page(post, pre)
        &&& r =~= seq![
            (Effect::StartTts { page: post.current_page, pos: StartPos::Audio(0) }),
            Effect::AutoScrollToCurrent,
            Effect::SaveBookmark,
        ]
    } else {
        &&& post == pre
        &&& r =~= Seq::<Effect>::empty()
    }
}

/// What `JumpToCurrentAudio` leaves behind: the state untouched, a scroll to
/// the spoken sentence when one is set.
pub open spec fn jump_post(pre: PlaybackMachine, post: PlaybackMachine, r: Seq<Effect>) -> bool {
    &&& post == pre
    &&& (pre.current_sentence_idx is Some ==> r =~= seq![
        Effect::ScrollToCurrent,
        Effect::SaveBookmark,
    ])
    &&& (pre.current_sentence_idx is None ==> r =~= Seq::<Effect>::empty())
}

/// What `Tick` leaves behind: nothing while not running or before the clock
/// started; the resolved spoken sentence (a repeat of the current one
/// changes nothing, so a repeated tick never advances state twice); or, when
/// the track has finished, a stop and a restart on the next page if one
/// exists.
pub open spec fn tick_post(
    pre: PlaybackMachine,
    post: PlaybackMachine,
    r: Seq<Effect>,
    now_ms: u64,
) -> bool {
    &&& (!pre.running || pre.started_at_ms is None ==> post == pre && r =~= Seq::<Effect>::empty())
    &&& (pre.running && pre.started_at_ms is Some ==> {
        let e = spec_elapsed(pre.elapsed_ms, pre.started_at_ms->0, now_ms);
        match resolve_idx(pre.track@, pre.pause_after_ms, e) {
            Option::Some(i) => {
                let ci = clamp_idx(pre.sentence_offset + i, pre.audio_len as int);
                if pre.current_sentence_idx == Option::Some(ci as usize) {
                    post == pre && r =~= Seq::<Effect>::empty()
                } else {
                    &&& post.current_sentence_idx == Option::Some(ci as usize)
                    &&& same_but_current(post, pre)
                    &&& r =~= seq![Effect::AutoScrollToCurrent, Effect::SaveBookmark]
                }
            },
            Option::None => {
                if pre.current_page as int + 1 < pre.pages@.len() {
                    &&& stopped_core(post, pre)
                    &&& post.current_sentence_idx == pre.current_sentence_idx
                    &&& post.current_page as int == pre.current_page as int + 1
                    &&& r =~= seq![
                        Effect::StopTts,
                        (Effect::StartTts { page: post.current_page, pos: StartPos::Audio(0) }),
                        Effect::AutoScrollToCurrent,
                        Effect::SaveBookmark,
                    ]
                } else {
                    &&& stopped_core(post, pre)
                    &&& post.current_sentence_idx == pre.current_sentence_idx
                    &&& post.current_page == pre.current_page
                    &&& r =~= seq![Effect::StopTts]
                }
            },
        }
    })
}

/// What `BatchReady` leaves behind: a stale request id or page changes
/// nothing; an empty batch stops playback and clears the spoken-sentence
/// index; a fresh, non-empty batch replaces the track, rebases the session
/// at the clamped start index, restarts the clock, and asks the host to
/// play the clips.
pub open spec fn batch_post(
    pre: PlaybackMachine,
    post: PlaybackMachine,
    r: Seq<Effect>,
    request_id: u64,
    page: usize,
    start_idx: usize,
    clips: Seq<Clip>,
    now_ms: u64,
) -> bool {
    &&& (request_id != pre.request_id || page != pre.current_page ==> post == pre && r
        =~= Seq::<Effect>::empty())
    &&& (request_id == pre.request_id && page == pre.current_page && clips.len() == 0 ==> {
        &&& stopped_core(post, pre)
        &&& post.current_page == pre.current_page
        &&& post.current_sentence_idx is None
        &&& r =~= Seq::<Effect>::empty()
    })
    &&& (request_id == pre.request_id && page == pre.current_page && clips.len() > 0 ==> {
        &&& post.track@ == durations_of(clips)
        &&& crate::normalizer::strs_view(post.track_handles@) == handles_of(clips)
        &&& post.sentence_offset as int == clamp_idx(start_idx as int, pre.audio_len as int)
        &&& post.current_sentence_idx == Option::Some(post.sentence_offset)
        &&& post.elapsed_ms == 0
        &&& post.started_at_ms == Option::Some(now_ms)
        &&& post.running
        &&& post.has_session
        &&& post.current_page == pre.current_page
        &&& post.request_id == pre.request_id
        &&& post.normalizer == pre.normalizer
        &&& post.pages == pre.pages
        &&& post.audio_len == pre.audio_len
        &&& post.speed_pm == pre.speed_pm
        &&& post.pause_after_ms == pre.pause_after_ms
        &&& r.len() == 2
        &&& (r[0] matches Effect::PlayAudio { handles, pause_ms }
            && crate::normalizer::strs_view(handles@) == handles_of(clips) && pause_ms
            == pre.pause_after_ms)
        &&& r[1] == Effect::AutoScrollToCurrent
    })
}

/// What `SetSpeed` leaves behind: the clamped speed stored; an active
/// session restarts from the spoken sentence, because the clips depend on
/// the speed.
pub open spec fn set_speed_post(
    pre: PlaybackMachine,
    post: PlaybackMachine,
    r: Seq<Effect>,
    speed_pm: u32,
) -> bool {
    let c = clamp_speed(speed_pm);
    &&& post == (PlaybackMachine { speed_pm: c, ..pre })
    &&& (pre.has_session ==> r =~= seq![
        (Effect::StartTts {
            page: pre.current_page,
            pos: StartPos::Audio(
                match pre.current_sentence_idx {
                    Option::Some(i) => i,
                    Option::None => 0,
                },
            ),
        }),
        Effect::AutoScrollToCurrent,
        Effect::SaveBookmark,
        Effect::SaveConfig,
    ])
    &&& (!pre.has_session ==> r =~= seq![Effect::SaveConfig])
}

/// What `SetPause` leaves behind: an unchanged value does nothing; a new
/// clamped value is stored and an active session restarts from the spoken
/// sentence, because the prepared batch depends on the pause.
pub open spec fn set_pause_post(
    pre: PlaybackMachine,
    post: PlaybackMachine,
    r: Seq<Effect>,
    pause_ms: u64,
) -> bool {
    let c = clamp_pause(pause_ms);
    if c == pre.pause_after_ms {
        &&& post == pre
        &&& r =~= Seq::<Effect>::empty()
    } else {
        &&& post == (PlaybackMachine { pause_after_ms: c, ..pre })
        &&& (pre.has_session ==> r =~= seq![
            Effect::SaveConfig,
            (Effect::StartTts {
                page: pre.current_page,
                pos: StartPos::Audio(
                    match pre.current_sentence_idx {
                        Option::Some(i) => i,
                        Option::None => 0,
                    },
                ),
            }),
            Effect::AutoScrollToCurrent,
            Effect::SaveBookmark,
        ])
        &&& (!pre.has_session ==> r =~= seq![Effect::SaveConfig])
    }
}

impl PlaybackMachine {
    /// Resolve the elapsed playing time to the spoken sentence. Ticks while
    /// not running (or before the clock started) do nothing; a tick that
    /// resolves to the sentence already current does nothing, so repeating a
    /// tick never advances state twice. When the whole track has finished,
    /// the session stops and, if a next page exists, narration restarts
    /// there from the top.
    pub fn on_tick(&mut self, now_ms: u64) -> (r: Vec<Effect>)
        requires
            old(self).wf(),
        ensures
            final(self).wf(),
            tick_post(*old(self), *final(self), r@, now_ms),
    {
        let mut r: Vec<Effect> = Vec::new();
        if !self.running {
            return r;
        }
        let started = match self.started_at_ms {
            Some(st) => st,
            None => {
                return r;
            },
        };
        let delta: u64 = if now_ms >= started {
            now_ms - started
        } else {
            0
        };
        let elapsed = self.elapsed_ms.saturating_add(delta);
        let npages = self.pages.len();
        match resolve_in(&self.track, self.pause_after_ms, elapsed) {
            Some(i) => {
                let raw = match self.sentence_offset.checked_add(i) {
                    Some(x) => x,
                    None => usize::MAX,
                };
                let ci: usize = if self.audio_len == 0 {
                    0
                } else if raw < self.audio_len {
                    raw
                } else {
                    self.audio_len - 1
                };
                let same = match self.current_sentence_idx {
                    Some(c) => c == ci,
                    None => false,
                };
                if !same {
                    self.current_sentence_idx = Some(ci);
                    r.push(Effect::AutoScrollToCurrent);
                    r.push(Effect::SaveBookmark);
                }
            },
            None => {
                self.running = false;
                self.has_session = false;
                self.started_at_ms = None;
                r.push(Effect::StopTts);
                if self.current_page < usize::MAX && self.current_page + 1 < npages {
                    self.current_page = self.current_page + 1;
                    r.push(
                        Effect::StartTts { page: self.current_page, pos: StartPos::Audio(0) },
                    );
                    r.push(Effect::AutoScrollToCurrent);
                    r.push(Effect::SaveBookmark);
                }
            },
        }
        r
    }

    /// Accept a prepared batch: only a result carrying the newest request id
    /// for the page on show replaces the track; anything else is stale and
    /// is discarded without touching any state. An empty batch is a
    /// synthesis failure: playback stops and the spoken-sentence index is
    /// cleared.
    pub fn on_batch_ready(
        &mut self,
        request_id: u64,
        page: usize,
        start_idx: usize,
        clips: Vec<Clip>,
        now_ms: u64,
    ) -> (r: Vec<Effect>)
        requires
            old(self).wf(),
        ensures
            final(self).wf(),
            batch_post(*old(self), *final(self), r@, request_id, page, start_idx, clips@, now_ms),
    {
        let mut r: Vec<Effect> = Vec::new();
        if request_id != self.request_id {
            return r;
        }
        if page != self.current_page {
            return r;
        }
        if clips.len() == 0 {
            self.running = false;
            self.has_session = false;
            self.started_at_ms = None;
            self.current_sentence_idx = None;
            return r;
        }
        let mut durs: Vec<u64> = Vec::new();
        let mut handles: Vec<String> = Vec::new();
        let mut engine_handles: Vec<String> = Vec::new();
        let mut i: usize = 0;
        while i < clips.len()
            invariant
                0 <= i <= clips@.len(),
                durs@ == durations_of(clips@.take(i as int)),
                crate::normalizer::strs_view(handles@) == handles_of(clips@.take(i as int)),
                crate::normalizer::strs_view(engine_handles@) == handles_of(
                    clips@.take(i as int),
                ),
            decreases clips@.len() - i,
        {
            durs.push(clips[i].duration_ms);
            handles.push(clips[i].handle.clone());
            engine_handles.push(clips[i].handle.clone());
            proof {
                assert(durations_of(clips@.take(i + 1)) =~= durations_of(
                    clips@.take(i as int),
                ).push(clips@[i as int].duration_ms));
                assert(handles_of(clips@.take(i + 1)) =~= handles_of(clips@.take(i as int)).push(
                    clips@[i as int].handle@,
                ));
                assert(crate::normalizer::strs_view(handles@) =~= handles_of(clips@.take(i + 1)));
                assert(crate::normalizer::strs_view(engine_handles@) =~= handles_of(
                    clips@.take(i + 1),
                ));
                assert(durs@ =~= durations_of(clips@.take(i + 1)));
            }
            i = i + 1;
        }
        proof {
            assert(clips@.take(clips@.len() as int) =~= clips@);
        }
        self.track = durs;
        self.track_handles = handles;
        self.sentence_offset = if self.audio_len == 0 {
            0
        } else if start_idx < self.audio_len {
            start_idx
        } else {
            self.audio_len - 1
        };
        self.current_sentence_idx = Some(self.sentence_offset);
        self.elapsed_ms = 0;
        self.started_at_ms = Some(now_ms);
        self.running = true;
        self.has_session = true;
        r.push(Effect::PlayAudio { handles: engine_handles, pause_ms: self.pause_after_ms });
        r.push(Effect::AutoScrollToCurrent);
        r
    }

    /// One step of the state machine: the event's handler runs and its
    /// effects are returned for the host to execute. The contract restates
    /// every handler's guarantee for its event, so a caller of `reduce`
    /// alone knows the machine's whole behaviour; in particular a
    /// `BatchReady` whose request id or page is stale never changes any
    /// state, and a `Tick` while not running does nothing.
    pub fn reduce(&mut self, event: Event) -> (r: Vec<Effect>)
        requires
            old(self).wf(),
        ensures
            final(self).wf(),
            final(self).normalizer == old(self).normalizer,
            final(self).pages == old(self).pages,
            (event matches Event::Play { now_ms } ==> play_post(
                *old(self),
                *final(self),
                r@,
                now_ms,
            )),
            (event matches Event::Pause { now_ms } ==> pause_post(
                *old(self),
                *final(self),
                r@,
                now_ms,
            )),
            (event matches Event::PlayFromPageStart ==> page_start_post(
                *old(self),
                *final(self),
                r@,
            )),
            (event matches Event::PlayFromCursor { display_idx } ==> cursor_post(
                *old(self),
                *final(self),
                r@,
                display_idx as int,
            )),
            (event matches Event::SeekForward ==> seek_forward_post(*old(self), *final(self), r@)),
            (event matches Event::SeekBackward ==> seek_backward_post(
                *old(self),
                *final(self),
                r@,
            )),
            (event matches Event::NextPage ==> goto_post(
                *old(self),
                *final(self),
                r@,
                old(self).current_page as int + 1,
            )),
            (event matches Event::PreviousPage ==> goto_post(
                *old(self),
                *final(self),
                r@,
                old(self).current_page as int - 1,
            )),
            (event matches Event::JumpToCurrentAudio ==> jump_post(*old(self), *final(self), r@)),
            (event matches Event::Tick { now_ms } ==> tick_post(
                *old(self),
                *final(self),
                r@,
                now_ms,
            )),
            (event matches Event::BatchReady { request_id, page, start_idx, clips, now_ms }
                ==> batch_post(
                *old(self),
                *final(self),
                r@,
                request_id,
                page,
                start_idx,
                clips@,
                now_ms,
            )),
            (event matches Event::SetSpeed { speed_pm } ==> set_speed_post(
                *old(self),
                *final(self),
                r@,
                speed_pm,
            )),
            (event matches Event::SetPause { pause_ms } ==> set_pause_post(
                *old(self),
                *final(self),
                r@,
                pause_ms,
            )),
            (event matches Event::BatchReady { request_id, page, .. } && (request_id != old(self).request_id || page != old(self).current_page)) ==> (*final(self) == *old(self) && r@
                =~= Seq::<Effect>::empty()),
            (event matches Event::Tick { now_ms } && !old(self).running) ==> (*final(self) == *old(
                self,
            ) && r@ =~= Seq::<Effect>::empty()),
    {
        match event {
            Event::Play { now_ms } => self.on_play(now_ms),
            Event::Pause { now_ms } => self.on_pause(now_ms),
            Event::PlayFromPageStart => self.on_play_from_page_start(),
            Event::PlayFromCursor { display_idx } => self.on_play_from_cursor(display_idx),
            Event::SeekForward => self.on_seek_forward(),
            Event::SeekBackward => self.on_seek_backward(),
            Event::NextPage => {
                let npages = self.pages.len();
                if self.current_page < usize::MAX {
                    let p = self.current_page + 1;
                    self.go_to_page(p)
                } else {
                    assert(self.current_page as int + 1 >= npages);
                    Vec::new()
                }
            },
            Event::PreviousPage => {
                if self.current_page > 0 {
                    let p = self.current_page - 1;
                    self.go_to_page(p)
                } else {
                    Vec::new()
                }
            },
            Event::JumpToCurrentAudio => self.on_jump_to_current_audio(),
            Event::Tick { now_ms } => self.on_tick(now_ms),
            Event::BatchReady { request_id, page, start_idx, clips, now_ms } => self
                .on_batch_ready(request_id, page, start_idx, clips, now_ms),
            Event::SetSpeed { speed_pm } => self.on_set_speed(speed_pm),
            Event::SetPause { pause_ms } => self.on_set_pause(pause_ms),
        }
    }
}

/// Law: the spoken-sentence index a tick computes (the session offset plus
/// the resolved track position, clamped to the page's audio range) is
/// non-decreasing as the elapsed time grows.
pub proof fn lemma_current_idx_monotonic(
    track: Seq<u64>,
    pause: u64,
    e1: int,
    e2: int,
    offset: int,
    audio_len: int,
)
    requires
        e1 <= e2,
        resolve_idx(track, pause, e1) is Some,
        resolve_idx(track, pause, e2) is Some,
    ensures
        clamp_idx(offset + resolve_idx(track, pause, e1)->0, audio_len) <= clamp_idx(
            offset + resolve_idx(track, pause, e2)->0,
            audio_len,
        ),
{
    lemma_tick_monotonic(track, pause, e1, e2);
}

} // verus!
