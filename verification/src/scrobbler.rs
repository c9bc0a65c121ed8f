use vstd::prelude::*;

use std::time::Instant;

use crate::player_state::PlayerState;
use crate::track::{Track, TrackView, is_scrobblable, same_track, threshold_nanos};

verus! {

/// What the caller has to do after the manager has taken a decision.
pub enum Action {
    /// Report the track as now playing.
    NowPlaying(Track),
    /// Scrobble the track; then hand the outcome back with
    /// `ScrobbleManager::scrobble_finished`.
    Scrobble(Track),
    /// The track ended before its threshold; it was heard this many
    /// seconds (rounded to the nearest second).
    Skipped { listened_secs: u64 },
    /// Playback of the current track resumed.
    Resumed,
    /// Playback of the current track paused after this much listening time,
    /// in nanoseconds.
    Paused { accumulated_nanos: u128 },
}

/// The mathematical value of an `Action`.
pub enum ActionView {
    NowPlaying(TrackView),
    Scrobble(TrackView),
    Skipped { listened_secs: u64 },
    Resumed,
    Paused { accumulated_nanos: u128 },
}

impl View for Action {
    type V = ActionView;

    open spec fn view(&self) -> ActionView {
        match self {
            Action::NowPlaying(t) => ActionView::NowPlaying(t@),
            Action::Scrobble(t) => ActionView::Scrobble(t@),
            Action::Skipped { listened_secs } => ActionView::Skipped { listened_secs: *listened_secs },
            Action::Resumed => ActionView::Resumed,
            Action::Paused { accumulated_nanos } => ActionView::Paused {
                accumulated_nanos: *accumulated_nanos,
            },
        }
    }
}

/// The values of a sequence of actions.
pub open spec fn actions_view(a: Seq<Action>) -> Seq<ActionView> {
    a.map_values(|x: Action| x@)
}

/// Whether the manager waits for the outcome of a scrobble, and which play
/// it starts once that outcome is in.
enum Stage {
    Ready,
    AwaitingScrobble(Option<(Track, PlayerState)>),
}

/// The value of the manager's stage.
pub enum StageView {
    Ready,
    AwaitingScrobble(Option<(TrackView, PlayerState)>),
}

/// The mathematical value of a `ScrobbleManager`. Times are nanoseconds on
/// the manager's clock.
pub struct ManagerView {
    pub track: Option<TrackView>,
    pub has_scrobbled: bool,
    pub is_playing: bool,
    pub time_started: u128,
    pub last_play_ts: u128,
    pub accumulated_time: u128,
    pub stage: StageView,
    /// The latest reading of the manager's clock; readings never go back.
    pub latest_reading: u128,
}

/// Time from `from` to `now`; zero when `now` is earlier.
pub open spec fn elapsed_nanos(from: u128, now: u128) -> u128 {
    if now >= from {
        (now - from) as u128
    } else {
        0
    }
}

/// `a + b`, or `u128::MAX` where the sum does not fit.
pub open spec fn saturating_sum(a: u128, b: u128) -> u128 {
    if a + b <= u128::MAX {
        (a + b) as u128
    } else {
        u128::MAX
    }
}

/// A time in nanoseconds rounded to the nearest whole second (halves round
/// up), at most `u64::MAX`.
pub open spec fn rounded_secs(nanos: u128) -> u64 {
    let secs = nanos / 1_000_000_000 + if nanos % 1_000_000_000 >= 500_000_000 {
        1int
    } else {
        0int
    };
    if secs <= u64::MAX {
        secs as u64
    } else {
        u64::MAX
    }
}

impl ManagerView {
    /// The manager before any event.
    pub open spec fn initial() -> ManagerView {
        ManagerView {
            track: None,
            has_scrobbled: false,
            is_playing: false,
            time_started: 0,
            last_play_ts: 0,
            accumulated_time: 0,
            stage: StageView::Ready,
            latest_reading: 0,
        }
    }

    /// The manager's invariant: only a current track plays, is awaited, or
    /// has a play that was not yet scrobbled.
    pub open spec fn wf(self) -> bool {
        &&& self.track is Some ==> !self.has_scrobbled
        &&& self.is_playing ==> self.track is Some
        &&& self.stage is AwaitingScrobble ==> self.track is Some
    }

    /// The manager after a clock reading of `now`.
    pub open spec fn with_reading(self, now: u128) -> ManagerView {
        ManagerView { latest_reading: now, ..self }
    }

    pub open spec fn is_ready(self) -> bool {
        self.stage is Ready
    }

    /// Adds the time since the last resume to the listening time, if playing.
    pub open spec fn add_time(self, now: u128) -> ManagerView {
        if self.is_playing {
            ManagerView {
                accumulated_time: saturating_sum(
                    self.accumulated_time,
                    elapsed_nanos(self.last_play_ts, now),
                ),
                ..self
            }
        } else {
            self
        }
    }

    /// Whether the current track has been heard long enough to scrobble it.
    pub open spec fn threshold_passed(self) -> bool {
        match self.track {
            Some(t) => is_scrobblable(t) && self.accumulated_time >= threshold_nanos(t),
            None => false,
        }
    }

    /// Ends the current play: scrobbles it if heard long enough (awaiting
    /// the outcome), else drops it and reports how long it was heard.
    pub open spec fn finalize(self, now: u128) -> (ManagerView, Seq<ActionView>) {
        if self.track is None || self.has_scrobbled {
            (self, seq![])
        } else {
            let s = self.add_time(now);
            if s.threshold_passed() {
                (
                    ManagerView { stage: StageView::AwaitingScrobble(None), ..s },
                    seq![ActionView::Scrobble(s.track->0)],
                )
            } else {
                (
                    ManagerView { track: None, is_playing: false, ..s },
                    seq![ActionView::Skipped { listened_secs: rounded_secs(s.accumulated_time) }],
                )
            }
        }
    }

    /// A new player state for the current track: resume or pause.
    pub open spec fn update_player_state(self, ps: PlayerState, now: u128) -> (
        ManagerView,
        Seq<ActionView>,
    ) {
        if ps == PlayerState::Playing && !self.is_playing {
            (ManagerView { is_playing: true, last_play_ts: now, ..self }, seq![ActionView::Resumed])
        } else if ps == PlayerState::Paused && self.is_playing {
            let s = self.add_time(now);
            (
                ManagerView { is_playing: false, ..s },
                seq![ActionView::Paused { accumulated_nanos: s.accumulated_time }],
            )
        } else {
            (self, seq![])
        }
    }

    /// Starts a play of `t`; when the player is playing, reports it.
    pub open spec fn start_new_track(self, t: TrackView, ps: PlayerState, now: u128) -> (
        ManagerView,
        Seq<ActionView>,
    ) {
        let s = ManagerView {
            track: Some(t),
            has_scrobbled: false,
            accumulated_time: 0,
            time_started: now,
            ..self
        };
        if ps == PlayerState::Playing {
            (ManagerView { is_playing: true, last_play_ts: now, ..s }, seq![ActionView::NowPlaying(t)])
        } else {
            (s, seq![])
        }
    }

    /// One event from the player: track `t` in state `ps` at time `now`.
    pub open spec fn process(self, t: TrackView, ps: PlayerState, now: u128) -> (
        ManagerView,
        Seq<ActionView>,
    ) {
        if ps == PlayerState::Stopped {
            self.finalize(now)
        } else if self.track is Some && same_track(self.track->0, t) {
            self.update_player_state(ps, now)
        } else {
            let (s1, a1) = self.finalize(now);
            if s1.stage is AwaitingScrobble {
                (ManagerView { stage: StageView::AwaitingScrobble(Some((t, ps))), ..s1 }, a1)
            } else {
                let (s2, a2) = s1.start_new_track(t, ps, now);
                (s2, a1 + a2)
            }
        }
    }

    /// The outcome of the awaited scrobble is in: the play ends, and the
    /// play that was waiting for it starts.
    pub open spec fn finish_scrobble(self, succeeded: bool, now: u128) -> (
        ManagerView,
        Seq<ActionView>,
    ) {
        let s = ManagerView {
            has_scrobbled: succeeded,
            track: None,
            is_playing: false,
            stage: StageView::Ready,
            ..self
        };
        match self.stage {
            StageView::AwaitingScrobble(Some(next)) => s.start_new_track(next.0, next.1, now),
            _ => (s, seq![]),
        }
    }
}

#[verifier::external_type_specification]
#[verifier::external_body]
pub struct ExInstant(Instant);

/// Calls `std::time::Instant::now`. Nothing is claimed of the result: it
/// depends on the time of the call.
#[verifier::external_body]
fn instant_now() -> Instant {
    Instant::now()
}

/// Calls `Instant::elapsed` on `origin` and gives the result in nanoseconds
/// (`Duration::as_nanos`). Nothing is claimed of the value: it depends on
/// the time of the call.
#[verifier::external_body]
fn nanos_since(origin: &Instant) -> u128 {
    origin.elapsed().as_nanos()
}

/// Rounds a time in nanoseconds to the nearest whole second.
pub fn rounded_listened_secs(nanos: u128) -> (res: u64)
    ensures
        res == rounded_secs(nanos),
{
    let whole = nanos / 1_000_000_000;
    let secs = if nanos % 1_000_000_000 >= 500_000_000 {
        whole + 1
    } else {
        whole
    };
    if secs <= u64::MAX as u128 {
        secs as u64
    } else {
        u64::MAX
    }
}

/// Follows what the player plays and decides when a track is reported as
/// playing, scrobbled or skipped.
pub struct ScrobbleManager {
    track: Option<Track>,
    has_scrobbled: bool,
    is_playing: bool,
    time_started: u128,
    last_play_ts: u128,
    accumulated_time: u128,
    stage: Stage,
    origin: Instant,
    latest_reading: u128,
}

/// The value of a pending play.
pub open spec fn pending_view(p: Option<(Track, PlayerState)>) -> Option<(TrackView, PlayerState)> {
    match p {
        Some(x) => Some((x.0@, x.1)),
        None => None,
    }
}

impl View for ScrobbleManager {
    type V = ManagerView;

    closed spec fn view(&self) -> ManagerView {
        ManagerView {
            track: match self.track {
                Some(t) => Some(t@),
                None => None,
            },
            has_scrobbled: self.has_scrobbled,
            is_playing: self.is_playing,
            time_started: self.time_started,
            last_play_ts: self.last_play_ts,
            accumulated_time: self.accumulated_time,
            stage: match self.stage {
                Stage::Ready => StageView::Ready,
                Stage::AwaitingScrobble(p) => StageView::AwaitingScrobble(pending_view(p)),
            },
            latest_reading: self.latest_reading,
        }
    }
}

impl ScrobbleManager {
    /// Every manager keeps the invariant `wf` of its value.
    #[verifier::type_invariant]
    spec fn keeps_invariant(self) -> bool {
        self@.wf()
    }

    /// A manager with no current track; its clock starts now.
    pub fn new() -> (res: ScrobbleManager)
        ensures
            res@ == ManagerView::initial(),
            res@.wf(),
    {
        ScrobbleManager {
            track: None,
            has_scrobbled: false,
            is_playing: false,
            time_started: 0,
            last_play_ts: 0,
            accumulated_time: 0,
            stage: Stage::Ready,
            origin: instant_now(),
            latest_reading: 0,
        }
    }

    /// Reads the manager's clock. A reading earlier than the latest one
    /// (which `Instant` promises never to give) counts as the latest.
    fn read_clock(&mut self) -> (now: u128)
        ensures
            now >= old(self)@.latest_reading,
            final(self)@ == old(self)@.with_reading(now),
    {
        proof {
            use_type_invariant(&*self);
        }
        let reading = nanos_since(&self.origin);
        let now = if reading >= self.latest_reading {
            reading
        } else {
            self.latest_reading
        };
        self.latest_reading = now;
        now
    }

    /// Whether no scrobble outcome is awaited.
    pub fn is_ready(&self) -> (res: bool)
        ensures
            res == self@.is_ready(),
    {
        match self.stage {
            Stage::Ready => true,
            Stage::AwaitingScrobble(_) => false,
        }
    }

    /// The track being played, if any.
    pub fn current_track(&self) -> (res: Option<&Track>)
        ensures
            match res {
                Some(t) => self@.track == Some(t@),
                None => self@.track is None,
            },
    {
        self.track.as_ref()
    }

    /// How long the current track has been heard, in nanoseconds.
    pub fn accumulated_nanos(&self) -> (res: u128)
        ensures
            res == self@.accumulated_time,
    {
        self.accumulated_time
    }

    /// Whether the current track is playing.
    pub fn is_playing(&self) -> (res: bool)
        ensures
            res == self@.is_playing,
    {
        self.is_playing
    }

    /// Whether the last play that ended was scrobbled.
    pub fn has_scrobbled(&self) -> (res: bool)
        ensures
            res == self@.has_scrobbled,
    {
        self.has_scrobbled
    }

    fn add_accumulated_time(&mut self, now: u128)
        ensures
            final(self)@ == old(self)@.add_time(now),
    {
        proof {
            use_type_invariant(&*self);
        }
        if self.is_playing {
            let elapsed = if now >= self.last_play_ts {
                now - self.last_play_ts
            } else {
                0
            };
            self.accumulated_time = self.accumulated_time.saturating_add(elapsed);
        }
    }

    fn is_threshold_passed(&self) -> (res: bool)
        ensures
            res == self@.threshold_passed(),
    {
        match &self.track {
            Some(t) => t.is_even_scrobblable() && self.accumulated_time >= t.get_threshold() as u128,
            None => false,
        }
    }

    fn finalize_track(&mut self, now: u128) -> (res: Vec<Action>)
        requires
            old(self)@.is_ready(),
        ensures
            (final(self)@, actions_view(res@)) == old(self)@.finalize(now),
    {
        proof {
            use_type_invariant(&*self);
        }
        let mut out: Vec<Action> = Vec::new();
        if self.track.is_none() || self.has_scrobbled {
            assert(actions_view(out@) =~= seq![]);
            return out;
        }
        self.add_accumulated_time(now);
        if self.is_threshold_passed() {
            let t = match &self.track {
                Some(t) => t.clone(),
                None => {
                    return out;
                },
            };
            self.stage = Stage::AwaitingScrobble(None);
            out.push(Action::Scrobble(t));
        } else {
            let secs = rounded_listened_secs(self.accumulated_time);
            self.is_playing = false;
            self.track = None;
            out.push(Action::Skipped { listened_secs: secs });
        }
        assert(actions_view(out@) =~= old(self)@.finalize(now).1);
        out
    }

    fn update_player_state(&mut self, player_state: PlayerState, now: u128) -> (res: Vec<Action>)
        requires
            old(self)@.track is Some,
        ensures
            (final(self)@, actions_view(res@)) == old(self)@.update_player_state(player_state, now),
    {
        proof {
            use_type_invariant(&*self);
        }
        let mut out: Vec<Action> = Vec::new();
        match (player_state, self.is_playing) {
            (PlayerState::Playing, false) => {
                self.is_playing = true;
                self.last_play_ts = now;
                out.push(Action::Resumed);
            },
            (PlayerState::Paused, true) => {
                self.add_accumulated_time(now);
                self.is_playing = false;
                out.push(Action::Paused { accumulated_nanos: self.accumulated_time });
            },
            _ => {},
        }
        assert(actions_view(out@) =~= old(self)@.update_player_state(player_state, now).1);
        out
    }

    fn start_new_track(&mut self, track_data: Track, player_state: PlayerState, now: u128) -> (res: Vec<Action>)
        ensures
            (final(self)@, actions_view(res@)) == old(self)@.start_new_track(track_data@, player_state, now),
    {
        proof {
            use_type_invariant(&*self);
        }
        let mut out: Vec<Action> = Vec::new();
        let shown = track_data.clone();
        self.has_scrobbled = false;
        self.track = Some(track_data);
        self.accumulated_time = 0;
        self.time_started = now;
        if player_state == PlayerState::Playing {
            self.is_playing = true;
            self.last_play_ts = now;
            out.push(Action::NowPlaying(shown));
        }
        assert(actions_view(out@) =~= old(self)@.start_new_track(track_data@, player_state, now).1);
        out
    }

    /// Handles one event from the player at time `now` (nanoseconds on the
    /// manager's clock) and returns what the caller has to do, in order.
    pub fn process_track_at(&mut self, track_data: Track, player_state: PlayerState, now: u128) -> (res: Vec<Action>)
        requires
            old(self)@.is_ready(),
        ensures
            (final(self)@, actions_view(res@)) == old(self)@.process(track_data@, player_state, now),
            final(self)@.wf(),
    {
        proof {
            use_type_invariant(&*self);
        }
        match player_state {
            PlayerState::Stopped => self.finalize_track(now),
            _ => {
                let is_the_same_track = match &self.track {
                    Some(t) => t.is_same(&track_data),
                    None => false,
                };
                if is_the_same_track {
                    self.update_player_state(player_state, now)
                } else {
                    let mut out = self.finalize_track(now);
                    if self.is_ready() {
                        let mut more = self.start_new_track(track_data, player_state, now);
                        let ghost a1 = out@;
                        let ghost a2 = more@;
                        out.append(&mut more);
                        assert(actions_view(out@) =~= actions_view(a1) + actions_view(a2));
                    } else {
                        self.stage = Stage::AwaitingScrobble(Some((track_data, player_state)));
                    }
                    out
                }
            },
        }
    }

    /// Handles one event from the player, timed by the manager's clock.
    pub fn process_track(&mut self, track_data: Track, player_state: PlayerState) -> (res: Vec<Action>)
        requires
            old(self)@.is_ready(),
        ensures
            exists|now: u128|
                {
                    &&& now >= old(self)@.latest_reading
                    &&& final(self)@.latest_reading == now
                    &&& (final(self)@, actions_view(res@)) == old(self)@.with_reading(now).process(
                        track_data@,
                        player_state,
                        now,
                    )
                },
            final(self)@.wf(),
    {
        proof {
            use_type_invariant(&*self);
        }
        let now = self.read_clock();
        self.process_track_at(track_data, player_state, now)
    }

    /// Takes the outcome of the awaited scrobble at time `now`, ends that
    /// play, and starts the play that waited for it.
    pub fn scrobble_finished_at(&mut self, succeeded: bool, now: u128) -> (res: Vec<Action>)
        requires
            !old(self)@.is_ready(),
        ensures
            (final(self)@, actions_view(res@)) == old(self)@.finish_scrobble(succeeded, now),
            final(self)@.wf(),
            final(self)@.is_ready(),
    {
        proof {
            use_type_invariant(&*self);
        }
        let mut stage = Stage::Ready;
        std::mem::swap(&mut stage, &mut self.stage);
        self.is_playing = false;
        self.track = None;
        self.has_scrobbled = succeeded;
        match stage {
            Stage::AwaitingScrobble(Some(next)) => self.start_new_track(next.0, next.1, now),
            _ => {
                let out: Vec<Action> = Vec::new();
                assert(actions_view(out@) =~= seq![]);
                out
            },
        }
    }

    /// Takes the outcome of the awaited scrobble, timed by the manager's
    /// clock.
    pub fn scrobble_finished(&mut self, succeeded: bool) -> (res: Vec<Action>)
        requires
            !old(self)@.is_ready(),
        ensures
            exists|now: u128|
                {
                    &&& now >= old(self)@.latest_reading
                    &&& final(self)@.latest_reading == now
                    &&& (final(self)@, actions_view(res@)) == old(self)@.with_reading(now).finish_scrobble(
                        succeeded,
                        now,
                    )
                },
            final(self)@.wf(),
            final(self)@.is_ready(),
    {
        proof {
            use_type_invariant(&*self);
        }
        let now = self.read_clock();
        self.scrobble_finished_at(succeeded, now)
    }
}

} // verus!

verus! {

// ---------------------------------------------------------------------
// Laws of the manager
// ---------------------------------------------------------------------

/// A track is scrobbled only when it is the current track, is long enough
/// to be scrobbled, and has been heard at least its threshold.
pub proof fn law_scrobble_needs_threshold(s: ManagerView, t: TrackView, ps: PlayerState, now: u128)
    requires
        s.wf(),
        s.is_ready(),
    ensures
        forall|i: int|
            0 <= i < s.process(t, ps, now).1.len() && #[trigger] s.process(t, ps, now).1[i] is Scrobble
                ==> {
                let x = s.process(t, ps, now).1[i]->Scrobble_0;
                &&& s.track == Some(x)
                &&& is_scrobblable(x)
                &&& s.process(t, ps, now).0.accumulated_time >= threshold_nanos(x)
            },
{
}

/// Once a stop has been handled (and no scrobble is awaited), a second
/// stop changes nothing and asks for nothing.
pub proof fn law_stop_is_idempotent(
    s: ManagerView,
    t: TrackView,
    t2: TrackView,
    now: u128,
    now2: u128,
)
    requires
        s.wf(),
        s.is_ready(),
        s.process(t, PlayerState::Stopped, now).0.is_ready(),
    ensures
        s.process(t, PlayerState::Stopped, now).0.process(t2, PlayerState::Stopped, now2) == (
            s.process(t, PlayerState::Stopped, now).0,
            Seq::<ActionView>::empty(),
        ),
{
    assert(seq![] =~= Seq::<ActionView>::empty());
}

/// Playing or pausing the current track keeps its play: the track, its
/// start and its scrobble state stay, the listening time does not shrink,
/// and nothing is scrobbled or announced.
pub proof fn law_same_track_keeps_play(s: ManagerView, t: TrackView, ps: PlayerState, now: u128)
    requires
        s.wf(),
        s.is_ready(),
        s.track is Some,
        same_track(s.track->0, t),
        ps != PlayerState::Stopped,
    ensures
        ({
            let (r, a) = s.process(t, ps, now);
            &&& r.track == s.track
            &&& r.time_started == s.time_started
            &&& r.has_scrobbled == s.has_scrobbled
            &&& r.accumulated_time >= s.accumulated_time
            &&& r.is_ready()
            &&& a.len() <= 1
            &&& forall|i: int| 0 <= i < a.len() ==> (a[i] is Resumed || a[i] is Paused)
        }),
{
}

/// Another track ends the current play and starts a new one, with no
/// listening time yet; it is announced when the player plays. When the
/// ended play is scrobbled, the new play waits for the scrobble's outcome.
pub proof fn law_new_track_starts_fresh(s: ManagerView, t: TrackView, ps: PlayerState, now: u128)
    requires
        s.wf(),
        s.is_ready(),
        ps != PlayerState::Stopped,
        !(s.track is Some && same_track(s.track->0, t)),
    ensures
        ({
            let (r, a) = s.process(t, ps, now);
            if r.is_ready() {
                &&& r.track == Some(t)
                &&& r.accumulated_time == 0
                &&& r.time_started == now
                &&& !r.has_scrobbled
                &&& (ps == PlayerState::Playing <==> (a.len() > 0 && a.last() == ActionView::NowPlaying(t)))
            } else {
                &&& a == seq![ActionView::Scrobble(s.track->0)]
                &&& r.stage == StageView::AwaitingScrobble(Some((t, ps)))
            }
        }),
{
    let (s1, a1) = s.finalize(now);
    if s1.is_ready() {
        let (s2, a2) = s1.start_new_track(t, ps, now);
        if ps == PlayerState::Playing {
            assert((a1 + a2)[(a1 + a2).len() - 1] == a2[0]);
        } else {
            assert(a1 + a2 =~= a1);
        }
    }
}

/// When the awaited scrobble's outcome is in, the scrobbled play is over:
/// the waiting play starts afresh, or, with none waiting, nothing plays
/// and a stop asks for nothing.
pub proof fn law_scrobble_outcome_ends_play(
    s: ManagerView,
    ok: bool,
    now: u128,
    t2: TrackView,
    now2: u128,
)
    requires
        s.wf(),
        !s.is_ready(),
    ensures
        ({
            let (r, _a) = s.finish_scrobble(ok, now);
            &&& r.is_ready()
            &&& r.wf()
            &&& match s.stage {
                StageView::AwaitingScrobble(Some(next)) => r.track == Some(next.0)
                    && r.accumulated_time == 0,
                _ => r.track is None && r.process(t2, PlayerState::Stopped, now2) == (
                    r,
                    Seq::<ActionView>::empty(),
                ),
            }
        }),
{
    assert(seq![] =~= Seq::<ActionView>::empty());
}

/// Only time spent playing counts: pausing at `t1`, resuming at `t2` and
/// pausing again at `t3` adds `t1 - last_play_ts` and `t3 - t2`, not the
/// pause between them.
pub proof fn law_paused_time_not_counted(
    s: ManagerView,
    t: TrackView,
    t1: u128,
    t2: u128,
    t3: u128,
)
    requires
        s.wf(),
        s.is_ready(),
        s.is_playing,
        same_track(s.track->0, t),
        s.last_play_ts <= t1 <= t2 <= t3,
        s.accumulated_time + (t1 - s.last_play_ts) + (t3 - t2) <= u128::MAX,
    ensures
        ({
            let r1 = s.process(t, PlayerState::Paused, t1).0;
            let r2 = r1.process(t, PlayerState::Playing, t2).0;
            let r3 = r2.process(t, PlayerState::Paused, t3).0;
            r3.accumulated_time == s.accumulated_time + (t1 - s.last_play_ts) + (t3 - t2)
        }),
{
}

} // verus!

verus! {

/// Whether the threshold is passed grows with the listening time: more
/// listening time of the same play never turns a passed threshold back, and
/// a passed threshold needs a current track longer than thirty seconds.
pub proof fn law_threshold_monotone(s1: ManagerView, s2: ManagerView)
    requires
        s1.track == s2.track,
        s1.accumulated_time <= s2.accumulated_time,
    ensures
        s1.threshold_passed() ==> s2.threshold_passed(),
        s1.threshold_passed() ==> s1.track is Some && is_scrobblable(s1.track->0),
{
}

/// Ending a play twice: once the first end is complete (its scrobble
/// outcome, if one was asked for, handed back), the second end changes
/// nothing and asks for nothing.
pub proof fn law_finalize_twice(s: ManagerView, now: u128, ok: bool, later: u128, now2: u128)
    requires
        s.wf(),
        s.is_ready(),
    ensures
        ({
            let s1 = s.finalize(now).0;
            let s2 = if s1.is_ready() {
                s1
            } else {
                s1.finish_scrobble(ok, later).0
            };
            s2.finalize(now2) == (s2, Seq::<ActionView>::empty())
        }),
{
    assert(seq![] =~= Seq::<ActionView>::empty());
}

// ---------------------------------------------------------------------
// Runs: sequences of events
// ---------------------------------------------------------------------

/// An event the manager handles: a player event, or the outcome of the
/// awaited scrobble; each with its time.
pub enum Event {
    Player(TrackView, PlayerState, u128),
    ScrobbleOutcome(bool, u128),
}

impl ManagerView {
    /// Whether the manager takes `e` now: player events when no scrobble
    /// outcome is awaited, an outcome when one is.
    pub open spec fn accepts(self, e: Event) -> bool {
        match e {
            Event::Player(..) => self.is_ready(),
            Event::ScrobbleOutcome(..) => !self.is_ready(),
        }
    }

    /// The manager's answer to `e`.
    pub open spec fn step(self, e: Event) -> (ManagerView, Seq<ActionView>) {
        match e {
            Event::Player(t, ps, now) => self.process(t, ps, now),
            Event::ScrobbleOutcome(ok, now) => self.finish_scrobble(ok, now),
        }
    }

    /// Whether handling `e` starts a new play.
    pub open spec fn starts_play(self, e: Event) -> bool {
        match e {
            Event::Player(t, ps, now) => ps != PlayerState::Stopped && !(self.track is Some
                && same_track(self.track->0, t)) && self.finalize(now).0.is_ready(),
            Event::ScrobbleOutcome(_, _) => self.stage matches StageView::AwaitingScrobble(Some(_)),
        }
    }

    /// 1 while a play is current that may still be scrobbled, else 0.
    pub open spec fn open_play(self) -> nat {
        if self.track is Some && self.is_ready() {
            1
        } else {
            0
        }
    }
}

/// How many scrobbles `a` asks for.
pub open spec fn count_scrobbles(a: Seq<ActionView>) -> nat
    decreases a.len(),
{
    if a.len() == 0 {
        0
    } else {
        (if a[0] is Scrobble {
            1nat
        } else {
            0nat
        }) + count_scrobbles(a.drop_first())
    }
}

/// Whether the manager, from `s`, takes each event of `evs` in turn.
pub open spec fn run_valid(s: ManagerView, evs: Seq<Event>) -> bool
    decreases evs.len(),
{
    evs.len() == 0 || (s.accepts(evs[0]) && run_valid(s.step(evs[0]).0, evs.drop_first()))
}

/// How many scrobbles a run from `s` over `evs` asks for.
pub open spec fn run_scrobbles(s: ManagerView, evs: Seq<Event>) -> nat
    decreases evs.len(),
{
    if evs.len() == 0 {
        0
    } else {
        count_scrobbles(s.step(evs[0]).1) + run_scrobbles(s.step(evs[0]).0, evs.drop_first())
    }
}

/// How many plays a run from `s` over `evs` starts.
pub open spec fn run_starts(s: ManagerView, evs: Seq<Event>) -> nat
    decreases evs.len(),
{
    if evs.len() == 0 {
        0
    } else {
        (if s.starts_play(evs[0]) {
            1nat
        } else {
            0nat
        }) + run_starts(s.step(evs[0]).0, evs.drop_first())
    }
}

proof fn lemma_count_concat(a: Seq<ActionView>, b: Seq<ActionView>)
    ensures
        count_scrobbles(a + b) == count_scrobbles(a) + count_scrobbles(b),
    decreases a.len(),
{
    if a.len() > 0 {
        assert((a + b).drop_first() =~= a.drop_first() + b);
        lemma_count_concat(a.drop_first(), b);
    } else {
        assert(a + b =~= b);
    }
}

proof fn lemma_count_small(x: ActionView)
    ensures
        count_scrobbles(Seq::<ActionView>::empty()) == 0,
        count_scrobbles(seq![x]) == if x is Scrobble {
            1nat
        } else {
            0nat
        },
{
    assert(seq![x].drop_first() =~= Seq::<ActionView>::empty());
}

/// One step keeps the invariant.
pub proof fn lemma_step_wf(s: ManagerView, e: Event)
    requires
        s.wf(),
        s.accepts(e),
    ensures
        s.step(e).0.wf(),
{
}

/// One step of a run: it asks for at most one scrobble, only when the
/// event ends the current play (a stop, or another track) and only of that
/// play, which is then no longer open; it announces a track only when the
/// event starts a play of it with the player playing.
pub proof fn law_step_scrobbles_only_ending_play(s: ManagerView, e: Event)
    requires
        s.wf(),
        s.accepts(e),
    ensures
        count_scrobbles(s.step(e).1) <= 1,
        count_scrobbles(s.step(e).1) + s.step(e).0.open_play() <= s.open_play() + if s.starts_play(
            e,
        ) {
            1nat
        } else {
            0nat
        },
        forall|i: int|
            0 <= i < s.step(e).1.len() && #[trigger] s.step(e).1[i] is Scrobble ==> {
                &&& e matches Event::Player(t, ps, _)
                &&& (ps == PlayerState::Stopped || !same_track(s.track->0, t))
                &&& s.track == Some(s.step(e).1[i]->Scrobble_0)
                &&& s.step(e).0.open_play() == 0
            },
        forall|i: int|
            0 <= i < s.step(e).1.len() && #[trigger] s.step(e).1[i] is NowPlaying ==> {
                &&& s.starts_play(e)
                &&& s.step(e).0.track == Some(s.step(e).1[i]->NowPlaying_0)
                &&& s.step(e).0.is_playing
                &&& match e {
                    Event::Player(t, ps, _) => t == s.step(e).1[i]->NowPlaying_0 && ps
                        == PlayerState::Playing,
                    Event::ScrobbleOutcome(_, _) => s.stage == StageView::AwaitingScrobble(
                        Some((s.step(e).1[i]->NowPlaying_0, PlayerState::Playing)),
                    ),
                }
            },
{
    lemma_count_small(ActionView::Resumed);
    match e {
        Event::Player(t, ps, now) => {
            let (s1, a1) = s.finalize(now);
            if s.track is Some {
                lemma_count_small(a1[0]);
                assert(a1 =~= seq![a1[0]]);
            } else {
                assert(a1 =~= Seq::<ActionView>::empty());
            }
            if ps != PlayerState::Stopped {
                if s.track is Some && same_track(s.track->0, t) {
                    let (s2, a2) = s.update_player_state(ps, now);
                    if a2.len() > 0 {
                        lemma_count_small(a2[0]);
                        assert(a2 =~= seq![a2[0]]);
                    }
                } else if s1.is_ready() {
                    let (s2, a2) = s1.start_new_track(t, ps, now);
                    lemma_count_concat(a1, a2);
                    if a2.len() > 0 {
                        lemma_count_small(a2[0]);
                        assert(a2 =~= seq![a2[0]]);
                    }
                    assert forall|i: int|
                        0 <= i < (a1 + a2).len() && #[trigger] (a1 + a2)[i] is NowPlaying implies i
                        == a1.len() && (a1 + a2)[i] == ActionView::NowPlaying(t) by {
                        if i < a1.len() {
                            assert((a1 + a2)[i] == a1[i]);
                        } else {
                            assert((a1 + a2)[i] == a2[i - a1.len()]);
                        }
                    }
                    assert forall|i: int|
                        0 <= i < (a1 + a2).len() && #[trigger] (a1 + a2)[i] is Scrobble implies false by {
                        if i < a1.len() {
                            assert((a1 + a2)[i] == a1[i]);
                        } else {
                            assert((a1 + a2)[i] == a2[i - a1.len()]);
                        }
                    }
                }
            }
        },
        Event::ScrobbleOutcome(ok, now) => {
            match s.stage {
                StageView::AwaitingScrobble(Some(next)) => {
                    let s0 = ManagerView {
                        has_scrobbled: ok,
                        track: None,
                        is_playing: false,
                        stage: StageView::Ready,
                        ..s
                    };
                    let (s2, a2) = s0.start_new_track(next.0, next.1, now);
                    if a2.len() > 0 {
                        lemma_count_small(a2[0]);
                        assert(a2 =~= seq![a2[0]]);
                    }
                },
                _ => {},
            }
        },
    }
}

/// Over any run, each play is scrobbled at most once: the scrobbles asked
/// for never outnumber the plays started, counting a play that was already
/// current and open at the run's start. From a new manager, there are at
/// most as many scrobbles as plays.
pub proof fn law_at_most_one_scrobble_per_play(s: ManagerView, evs: Seq<Event>)
    requires
        s.wf(),
        run_valid(s, evs),
    ensures
        run_scrobbles(s, evs) <= s.open_play() + run_starts(s, evs),
    decreases evs.len(),
{
    if evs.len() > 0 {
        law_step_scrobbles_only_ending_play(s, evs[0]);
        lemma_step_wf(s, evs[0]);
        law_at_most_one_scrobble_per_play(s.step(evs[0]).0, evs.drop_first());
    }
}

} // verus!

verus! {

/// From a new manager, a run asks for at most as many scrobbles as it
/// starts plays.
pub proof fn law_new_manager_scrobbles_at_most_plays(evs: Seq<Event>)
    requires
        run_valid(ManagerView::initial(), evs),
    ensures
        run_scrobbles(ManagerView::initial(), evs) <= run_starts(ManagerView::initial(), evs),
{
    law_at_most_one_scrobble_per_play(ManagerView::initial(), evs);
}

/// The manager after a run from `s` over `evs`.
pub open spec fn run_state(s: ManagerView, evs: Seq<Event>) -> ManagerView
    decreases evs.len(),
{
    if evs.len() == 0 {
        s
    } else {
        run_state(s.step(evs[0]).0, evs.drop_first())
    }
}

/// The time of an event.
pub open spec fn event_time(e: Event) -> u128 {
    match e {
        Event::Player(_, _, now) => now,
        Event::ScrobbleOutcome(_, now) => now,
    }
}

/// The player state an event reports (`Stopped` for a scrobble outcome).
pub open spec fn event_state(e: Event) -> PlayerState {
    match e {
        Event::Player(_, ps, _) => ps,
        Event::ScrobbleOutcome(_, _) => PlayerState::Stopped,
    }
}

/// `evs` are play and pause reports of track `t`.
pub open spec fn reports_of(t: TrackView, evs: Seq<Event>) -> bool {
    forall|i: int|
        0 <= i < evs.len() ==> (#[trigger] evs[i] matches Event::Player(t2, ps, _) && same_track(t, t2)
            && ps != PlayerState::Stopped)
}

/// The times of `evs` do not go back, start at or after `t`, and end at or
/// before `now`.
pub open spec fn ordered_times(t: u128, evs: Seq<Event>, now: u128) -> bool
    decreases evs.len(),
{
    if evs.len() == 0 {
        t <= now
    } else {
        t <= event_time(evs[0]) && ordered_times(event_time(evs[0]), evs.drop_first(), now)
    }
}

/// The time a play was played, up to `now`, as the player reported it: it
/// was in state `ps` from time `t` on, then in the states that `evs` report
/// from their times on; only stretches in the `Playing` state count.
pub open spec fn reported_playing_time(ps: PlayerState, t: u128, evs: Seq<Event>, now: u128) -> int
    decreases evs.len(),
{
    if evs.len() == 0 {
        if ps == PlayerState::Playing {
            now - t
        } else {
            0
        }
    } else {
        (if ps == PlayerState::Playing {
            event_time(evs[0]) - t
        } else {
            0
        }) + reported_playing_time(event_state(evs[0]), event_time(evs[0]), evs.drop_first(), now)
    }
}

impl ManagerView {
    /// The listening time of the current play at time `now`: what was
    /// added up, and the running stretch if it is playing.
    pub open spec fn listening_time(self, now: u128) -> int {
        self.accumulated_time + if self.is_playing {
            now - self.last_play_ts
        } else {
            0
        }
    }

    /// A play of `t` has just started at `t0` with the player in state `ps`.
    pub open spec fn just_started(self, t: TrackView, ps: PlayerState, t0: u128) -> bool {
        &&& self.wf()
        &&& self.is_ready()
        &&& self.track == Some(t)
        &&& self.accumulated_time == 0
        &&& self.time_started == t0
        &&& (self.is_playing <==> ps == PlayerState::Playing)
        &&& (self.is_playing ==> self.last_play_ts == t0)
    }
}

/// An event that starts a play leaves the manager with that play just
/// started: the new track, in the reported state, at the event's time.
pub proof fn law_started_play_is_fresh(s: ManagerView, e: Event)
    requires
        s.wf(),
        s.accepts(e),
        s.starts_play(e),
    ensures
        match e {
            Event::Player(t, ps, now) => s.step(e).0.just_started(t, ps, now),
            Event::ScrobbleOutcome(_, now) => match s.stage {
                StageView::AwaitingScrobble(Some(next)) => s.step(e).0.just_started(next.0, next.1, now),
                _ => false,
            },
        },
{
}

proof fn lemma_reports_add_up(s: ManagerView, ps: PlayerState, t: u128, evs: Seq<Event>, now: u128)
    requires
        s.wf(),
        s.is_ready(),
        s.track is Some,
        reports_of(s.track->0, evs),
        s.is_playing <==> ps == PlayerState::Playing,
        s.is_playing ==> s.last_play_ts <= t,
        ordered_times(t, evs, now),
        s.listening_time(t) <= t,
    ensures
        run_valid(s, evs),
        run_state(s, evs).track == s.track,
        run_state(s, evs).listening_time(now) == s.listening_time(t) + reported_playing_time(ps, t, evs, now),
    decreases evs.len(),
{
    if evs.len() > 0 {
        let e = evs[0];
        assert(reports_of(s.track->0, evs.drop_first())) by {
            assert forall|i: int| 0 <= i < evs.drop_first().len() implies (#[trigger] evs.drop_first()[i] matches Event::Player(t2, ps2, _)
                && same_track(s.track->0, t2) && ps2 != PlayerState::Stopped) by {
                assert(evs.drop_first()[i] == evs[i + 1]);
            }
        }
        let s1 = s.step(e).0;
        assert(e matches Event::Player(t2, ps2, _) && same_track(s.track->0, t2) && ps2 != PlayerState::Stopped);
        lemma_reports_add_up(s1, event_state(e), event_time(e), evs.drop_first(), now);
    }
}

/// Over any play and pause reports of the current play, with times that do
/// not go back, the listening time is exactly the time the player reported
/// playing since the play started: paused time never counts.
pub proof fn law_listening_time_is_playing_time(
    s: ManagerView,
    t: TrackView,
    ps: PlayerState,
    t0: u128,
    evs: Seq<Event>,
    now: u128,
)
    requires
        s.just_started(t, ps, t0),
        reports_of(t, evs),
        ordered_times(t0, evs, now),
    ensures
        run_valid(s, evs),
        run_state(s, evs).track == Some(t),
        run_state(s, evs).listening_time(now) == reported_playing_time(ps, t0, evs, now),
{
    lemma_reports_add_up(s, ps, t0, evs, now);
}

} // verus!

verus! {

/// Only name and artist decide whether an event is about the current track:
/// two tracks that agree on them, whatever their album and length, get the
/// same answer when they agree with the current track, and so do stops.
pub proof fn law_only_name_and_artist_decide(
    s: ManagerView,
    a: TrackView,
    b: TrackView,
    ps: PlayerState,
    now: u128,
)
    requires
        s.wf(),
        s.is_ready(),
        same_track(a, b),
        ps == PlayerState::Stopped || (s.track is Some && same_track(s.track->0, a)),
    ensures
        s.process(a, ps, now) == s.process(b, ps, now),
{
}

} // verus!

verus! {

impl ManagerView {
    /// The clock-driven answer to `e`: the clock reads the event's time,
    /// then the manager handles the event at that time (what
    /// `process_track` and `scrobble_finished` do).
    pub open spec fn clocked_step(self, e: Event) -> (ManagerView, Seq<ActionView>) {
        self.with_reading(event_time(e)).step(e)
    }
}

/// The manager after a clock-driven run from `s` over `evs`.
pub open spec fn clocked_run_state(s: ManagerView, evs: Seq<Event>) -> ManagerView
    decreases evs.len(),
{
    if evs.len() == 0 {
        s
    } else {
        clocked_run_state(s.clocked_step(evs[0]).0, evs.drop_first())
    }
}

/// The times of `evs` are clock readings that never go back from `r`, as
/// the clock-driven calls ensure.
pub open spec fn readings_go_forward(r: u128, evs: Seq<Event>) -> bool
    decreases evs.len(),
{
    evs.len() == 0 || (r <= event_time(evs[0]) && readings_go_forward(event_time(evs[0]), evs.drop_first()))
}

proof fn lemma_clocked_reports_add_up(s: ManagerView, ps: PlayerState, t: u128, evs: Seq<Event>, now: u128)
    requires
        s.wf(),
        s.is_ready(),
        s.track is Some,
        reports_of(s.track->0, evs),
        s.is_playing <==> ps == PlayerState::Playing,
        s.is_playing ==> s.last_play_ts <= t,
        s.latest_reading == t,
        readings_go_forward(t, evs),
        now >= clocked_run_state(s, evs).latest_reading,
        s.listening_time(t) <= t,
    ensures
        clocked_run_state(s, evs).track == s.track,
        clocked_run_state(s, evs).listening_time(now) == s.listening_time(t) + reported_playing_time(
            ps,
            t,
            evs,
            now,
        ),
    decreases evs.len(),
{
    if evs.len() > 0 {
        let e = evs[0];
        assert(reports_of(s.track->0, evs.drop_first())) by {
            assert forall|i: int| 0 <= i < evs.drop_first().len() implies (#[trigger] evs.drop_first()[i] matches Event::Player(t2, ps2, _)
                && same_track(s.track->0, t2) && ps2 != PlayerState::Stopped) by {
                assert(evs.drop_first()[i] == evs[i + 1]);
            }
        }
        let s1 = s.clocked_step(e).0;
        assert(e matches Event::Player(t2, ps2, _) && same_track(s.track->0, t2) && ps2 != PlayerState::Stopped);
        lemma_clocked_reports_add_up(s1, event_state(e), event_time(e), evs.drop_first(), now);
    }
}

/// The listening-time law for clock-driven calls: over play and pause
/// reports of the current play handled by `process_track`, whose clock
/// readings never go back, the listening time at any later reading is
/// exactly the time the player reported playing since the play started.
pub proof fn law_clocked_listening_time_is_playing_time(
    s: ManagerView,
    t: TrackView,
    ps: PlayerState,
    t0: u128,
    evs: Seq<Event>,
    now: u128,
)
    requires
        s.just_started(t, ps, t0),
        s.latest_reading == t0,
        reports_of(t, evs),
        readings_go_forward(t0, evs),
        now >= clocked_run_state(s, evs).latest_reading,
    ensures
        clocked_run_state(s, evs).track == Some(t),
        clocked_run_state(s, evs).listening_time(now) == reported_playing_time(ps, t0, evs, now),
{
    lemma_clocked_reports_add_up(s, ps, t0, evs, now);
}

} // verus!

verus! {

/// The threshold is enough: when a play ends (a stop, or an event of a
/// track with another name or another artist) while the current track is
/// longer than thirty seconds and has been heard (its added-up time plus
/// the running stretch, if playing) at least half its length or four
/// minutes, whichever is less, the answer is exactly a scrobble of that
/// track, and the manager awaits its outcome; whether the player was
/// playing or paused at that moment does not matter.
pub proof fn law_heard_play_is_scrobbled(s: ManagerView, t: TrackView, ps: PlayerState, now: u128)
    requires
        s.wf(),
        s.is_ready(),
        s.track is Some,
        s.track->0.duration_ms > 30_000,
        ({
            let x = s.track->0;
            let running: int = if s.is_playing && now >= s.last_play_ts {
                now - s.last_play_ts
            } else {
                0
            };
            let half: int = x.duration_ms * 500_000;
            s.accumulated_time + running >= if half <= 240_000_000_000 {
                half
            } else {
                240_000_000_000
            }
        }),
        ps == PlayerState::Stopped || t.name != s.track->0.name || t.artist != s.track->0.artist,
    ensures
        s.process(t, ps, now).1 == seq![ActionView::Scrobble(s.track->0)],
        s.process(t, ps, now).0.stage == if ps == PlayerState::Stopped {
            StageView::AwaitingScrobble(None)
        } else {
            StageView::AwaitingScrobble(Some((t, ps)))
        },
        s.process(t, ps, now).0.track == s.track,
{
}

/// A play that has not been heard long enough, or of a track of at most
/// thirty seconds, is never scrobbled when it ends: the answer is exactly a
/// skip with the time heard, rounded to the nearest second, and the play
/// is over.
pub proof fn law_unheard_play_is_skipped(s: ManagerView, now: u128)
    requires
        s.wf(),
        s.is_ready(),
        s.track is Some,
        ({
            let x = s.track->0;
            let running: int = if s.is_playing && now >= s.last_play_ts {
                now - s.last_play_ts
            } else {
                0
            };
            let half: int = x.duration_ms * 500_000;
            x.duration_ms <= 30_000 || s.accumulated_time + running < if half <= 240_000_000_000 {
                half
            } else {
                240_000_000_000
            }
        }),
    ensures
        ({
            let running: int = if s.is_playing && now >= s.last_play_ts {
                now - s.last_play_ts
            } else {
                0
            };
            let heard = s.accumulated_time + running;
            &&& heard <= u128::MAX ==> s.finalize(now).1 == seq![
                ActionView::Skipped { listened_secs: rounded_secs(heard as u128) },
            ]
            &&& s.finalize(now).0.track is None
            &&& !s.finalize(now).0.is_playing
            &&& s.finalize(now).0.is_ready()
        }),
{
}

/// The outcome of a scrobble does not change what comes next: the play
/// that waited for it starts either way, and is announced as now playing
/// exactly when it was reported playing.
pub proof fn law_scrobble_outcome_does_not_change_next_play(s: ManagerView, now: u128)
    requires
        s.wf(),
        s.stage matches StageView::AwaitingScrobble(Some(_)),
    ensures
        s.finish_scrobble(true, now).1 == s.finish_scrobble(false, now).1,
        ({
            let next = s.stage->AwaitingScrobble_0->0;
            forall|ok: bool| {
                &&& #[trigger] s.finish_scrobble(ok, now).0.track == Some(next.0)
                &&& s.finish_scrobble(ok, now).0.is_playing == (next.1 == PlayerState::Playing)
                &&& s.finish_scrobble(ok, now).0.accumulated_time == 0
                &&& s.finish_scrobble(ok, now).1 == if next.1 == PlayerState::Playing {
                    seq![ActionView::NowPlaying(next.0)]
                } else {
                    Seq::<ActionView>::empty()
                }
            }
        }),
{
    assert(seq![] =~= Seq::<ActionView>::empty());
}

/// An event of a track by another artist (or with another name) ends the
/// current play, even when the names agree: the current play is scrobbled
/// or skipped, and the new track becomes current (at once, or once the
/// scrobble's outcome is in).
pub proof fn law_other_artist_ends_play(s: ManagerView, t: TrackView, ps: PlayerState, now: u128)
    requires
        s.wf(),
        s.is_ready(),
        s.track is Some,
        t.artist != s.track->0.artist || t.name != s.track->0.name,
        ps != PlayerState::Stopped,
    ensures
        s.process(t, ps, now).1.len() >= 1,
        s.process(t, ps, now).1[0] is Scrobble || s.process(t, ps, now).1[0] is Skipped,
        if s.process(t, ps, now).0.is_ready() {
            s.process(t, ps, now).0.track == Some(t)
        } else {
            s.process(t, ps, now).0.stage == StageView::AwaitingScrobble(Some((t, ps)))
        },
{
}

} // verus!
