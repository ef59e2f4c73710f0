//! The reconciliation engine: folds successive snapshots and the
//! wall-clock delta between polls into edge-triggered events and a
//! continuously interpolated sub-beat phase.
//!
//! Sub-beat phase is exact integer arithmetic: a fraction with fixed
//! denominator [`PHASE_SCALE`]. At a tempo of `t` hundredths of a beat
//! per minute, one beat lasts `PHASE_SCALE / t` microseconds, so
//! advancing by `d` microseconds adds exactly `d * t` to the numerator.

use vstd::prelude::*;
use vstd::arithmetic::div_mod::{
    lemma_add_mod_noop_right,
    lemma_fundamental_div_mod,
    lemma_fundamental_div_mod_converse_mod,
    lemma_mod_division_less_than_divisor,
    lemma_small_mod,
};
use vstd::arithmetic::mul::lemma_mul_upper_bound;
use vstd::utf8::{decode_utf8, valid_utf8};
use crate::memory::{MemorySource, bytes_spec};
use crate::metadata::LookupResult;
use crate::offsets::RekordboxOffsets;
use crate::rekordbox::{
    API_BEARER_LEN,
    Rekordbox,
    Snapshot,
    reader_matches,
    sample_spec,
    table_resolves,
};

verus! {

/// Denominator of the sub-beat phase fraction: 60 seconds per minute
/// times 1,000,000 microseconds per second times 100 hundredths of a
/// beat per minute.
pub const PHASE_SCALE: u64 = 6_000_000_000;

/// Tempo assumed until the first snapshot arrives, in hundredths of a
/// beat per minute.
pub const INITIAL_TEMPO_CENTIBPM: u32 = 12_000;

/// Synthetic tempo driving the phase when no memory source is
/// attached, in hundredths of a beat per minute.
pub const DUMMY_TEMPO_CENTIBPM: u32 = 13_000;

/// Mathematical image of the engine's state. Phase is the numerator
/// of a fraction over [`PHASE_SCALE`]; the manual offset is in signed
/// microseconds; tempi are in hundredths of a beat per minute.
pub ghost struct KeeperModel {
    /// Whether a live snapshot reader is attached.
    pub live: bool,
    pub last_beat: int,
    pub last_time: int,
    pub api_bearer: Seq<char>,
    pub last_d1track: int,
    pub last_d2track: int,
    pub last_master_track: int,
    pub last_master_path: Seq<char>,
    pub last_master_title: Seq<char>,
    pub phase: int,
    pub last_masterdeck_index: int,
    pub offset_micros: int,
    /// Tempo of the most recent snapshot.
    pub tempo: int,
    /// Tempo last handed out by `get_bpm_changed`.
    pub last_tempo: int,
    pub new_beat: bool,
    pub new_track: bool,
    pub new_time: bool,
}

/// A well-formed engine state keeps its phase numerator inside one
/// beat.
pub open spec fn model_wf(m: KeeperModel) -> bool {
    0 <= m.phase < PHASE_SCALE
}

/// The state the engine starts from.
pub open spec fn initial_model(live: bool) -> KeeperModel {
    KeeperModel {
        live,
        last_beat: 0,
        last_time: 0,
        api_bearer: Seq::empty(),
        last_d1track: 0,
        last_d2track: 0,
        last_master_track: 0,
        last_master_path: Seq::empty(),
        last_master_title: Seq::empty(),
        phase: 0,
        last_masterdeck_index: 0,
        offset_micros: 0,
        tempo: INITIAL_TEMPO_CENTIBPM as int,
        last_tempo: 0,
        new_beat: false,
        new_track: false,
        new_time: false,
    }
}

/// One phase advance: `delta` microseconds at tempo `tempo`, wrapped
/// into one beat.
pub open spec fn advanced_phase(phase: int, delta: int, tempo: int) -> int {
    (phase + delta * tempo) % (PHASE_SCALE as int)
}

/// Whether the tick marks the master track as possibly changed, and
/// the master track id after the tick. The track is marked on an
/// active-deck switch, and on a track-id change of the deck that is
/// active; whenever it is marked, the master track becomes the active
/// deck's current track id.
pub open spec fn step_master_track(m: KeeperModel, s: Snapshot) -> (bool, int) {
    let marked = s.masterdeck_index != m.last_masterdeck_index || (s.deck1_track_id
        != m.last_d1track && s.masterdeck_index == 0) || (s.deck2_track_id != m.last_d2track
        && s.masterdeck_index != 0);
    if marked {
        (true, s.spec_master_track_id() as int)
    } else {
        (false, m.last_master_track)
    }
}

/// One live tick of the engine, given the fresh snapshot and the
/// microseconds elapsed since the previous tick.
///
/// A beat edge is any change of the deck-selected master beat count
/// against the stored one, whatever its magnitude or direction — an
/// active-deck switch to a deck one beat ahead is an edge like any
/// other. The edge arms the new-beat flag and resets the phase, and
/// the phase then advances by this tick's delta at the tempo of the
/// previous snapshot; the fresh tempo takes over from the next tick
/// on.
pub open spec fn step_model(m: KeeperModel, s: Snapshot, delta: int) -> KeeperModel {
    let beat_fired = s.spec_master_beats() != m.last_beat;
    let time_fired = s.spec_master_time() != m.last_time;
    let phase0: int = if beat_fired {
        0
    } else {
        m.phase
    };
    KeeperModel {
        live: m.live,
        last_beat: s.spec_master_beats() as int,
        last_time: s.spec_master_time() as int,
        api_bearer: m.api_bearer,
        last_d1track: s.deck1_track_id as int,
        last_d2track: s.deck2_track_id as int,
        last_master_track: step_master_track(m, s).1,
        last_master_path: m.last_master_path,
        last_master_title: m.last_master_title,
        phase: advanced_phase(phase0, delta, m.tempo),
        last_masterdeck_index: s.masterdeck_index as int,
        offset_micros: m.offset_micros,
        tempo: s.tempo_centibpm as int,
        last_tempo: m.last_tempo,
        new_beat: m.new_beat || beat_fired,
        new_track: m.new_track,
        new_time: m.new_time || time_fired,
    }
}

/// The metadata lookup a live tick asks for: the new master track id,
/// exactly when the master track was marked changed and that id is a
/// valid (positive) one. A track id of zero or below never triggers a
/// lookup.
pub open spec fn step_request(m: KeeperModel, s: Snapshot) -> Option<i32> {
    if step_master_track(m, s).0 && step_master_track(m, s).1 > 0 {
        Some(s.spec_master_track_id())
    } else {
        None
    }
}

/// One tick without a memory source: the phase advances at the
/// synthetic tempo and nothing else moves — no edge events in
/// degraded mode.
pub open spec fn dummy_step_model(m: KeeperModel, delta: int) -> KeeperModel {
    KeeperModel { phase: advanced_phase(m.phase, delta, DUMMY_TEMPO_CENTIBPM as int), ..m }
}

/// The phase as reported to callers: corrected by the manual offset,
/// wrapped into one beat even when the offset makes the raw sum
/// negative. Without a live source the offset correction is not
/// applied.
pub open spec fn reported_phase(m: KeeperModel) -> int {
    if m.live {
        (m.phase + m.offset_micros * m.tempo) % (PHASE_SCALE as int)
    } else {
        m.phase % (PHASE_SCALE as int)
    }
}

/// Euclidean remainder of a negated non-negative number.
proof fn lemma_neg_mod(x: int, s: int)
    requires
        x >= 0,
        s > 0,
    ensures
        (-x) % s == if x % s == 0 {
            0int
        } else {
            s - (x % s)
        },
{
    let q = x / s;
    let r = x % s;
    lemma_fundamental_div_mod(x, s);
    lemma_mod_division_less_than_divisor(x, s);
    if r == 0 {
        assert(-x == (-q) * s + 0) by (nonlinear_arith)
            requires
                x == q * s + r,
                r == 0,
        ;
        lemma_fundamental_div_mod_converse_mod(-x, s, -q, 0);
    } else {
        assert(-x == (-q - 1) * s + (s - r)) by (nonlinear_arith)
            requires
                x == q * s + r,
        ;
        lemma_fundamental_div_mod_converse_mod(-x, s, -q - 1, s - r);
    }
}

/// Advances the phase numerator by `delta` microseconds at `tempo`.
fn advance_phase(phase: u64, delta: u64, tempo: u32) -> (r: u64)
    requires
        phase < PHASE_SCALE,
    ensures
        r == advanced_phase(phase as int, delta as int, tempo as int),
        r < PHASE_SCALE,
{
    proof {
        lemma_mul_upper_bound(delta as int, u64::MAX as int, tempo as int, u32::MAX as int);
    }
    let p: u128 = (phase as u128) + (delta as u128) * (tempo as u128);
    proof {
        lemma_mod_division_less_than_divisor(p as int, PHASE_SCALE as int);
    }
    (p % (PHASE_SCALE as u128)) as u64
}

/// Faults a tick can report: a failed memory read (the layout no
/// longer matches the target), or a token field that is not text.
/// Both are fatal to the caller.
#[derive(Clone, Copy, PartialEq, Eq, Structural, Debug)]
pub enum KeeperError {
    SampleFailed,
    TokenInvalid,
}

/// The stateful core: consumes successive snapshots plus wall-clock
/// deltas, maintains the derived state, and hands out each armed
/// event exactly once.
pub struct BeatKeeper {
    rb: Option<Rekordbox>,
    last_beat: i64,
    last_time: i32,
    api_bearer: String,
    last_d1track: i32,
    last_d2track: i32,
    last_master_track: i32,
    last_master_path: String,
    last_master_title: String,
    phase: u64,
    last_masterdeck_index: u8,
    offset_micros: i64,
    tempo_centibpm: u32,
    last_tempo_centibpm: u32,
    new_beat: bool,
    new_track: bool,
    new_time: bool,
}

impl BeatKeeper {
    #[verifier::type_invariant]
    spec fn type_wf(self) -> bool {
        self.phase < PHASE_SCALE
    }

    /// Mathematical image of this state.
    pub closed spec fn model(&self) -> KeeperModel {
        KeeperModel {
            live: self.rb is Some,
            last_beat: self.last_beat as int,
            last_time: self.last_time as int,
            api_bearer: self.api_bearer@,
            last_d1track: self.last_d1track as int,
            last_d2track: self.last_d2track as int,
            last_master_track: self.last_master_track as int,
            last_master_path: self.last_master_path@,
            last_master_title: self.last_master_title@,
            phase: self.phase as int,
            last_masterdeck_index: self.last_masterdeck_index as int,
            offset_micros: self.offset_micros as int,
            tempo: self.tempo_centibpm as int,
            last_tempo: self.last_tempo_centibpm as int,
            new_beat: self.new_beat,
            new_track: self.new_track,
            new_time: self.new_time,
        }
    }

    /// The attached snapshot reader, if any.
    pub closed spec fn reader(&self) -> Option<Rekordbox> {
        self.rb
    }

    fn make(rb: Option<Rekordbox>) -> (r: BeatKeeper)
        ensures
            r.model() == initial_model(rb is Some),
            r.reader() == rb,
    {
        let k = BeatKeeper {
            rb,
            last_beat: 0,
            last_time: 0,
            api_bearer: String::new(),
            last_d1track: 0,
            last_d2track: 0,
            last_master_track: 0,
            last_master_path: String::new(),
            last_master_title: String::new(),
            phase: 0,
            last_masterdeck_index: 0,
            offset_micros: 0,
            tempo_centibpm: INITIAL_TEMPO_CENTIBPM,
            last_tempo_centibpm: 0,
            new_beat: false,
            new_track: false,
            new_time: false,
        };
        proof {
            assert(k.api_bearer@ =~= Seq::<char>::empty());
            assert(k.last_master_path@ =~= Seq::<char>::empty());
            assert(k.last_master_title@ =~= Seq::<char>::empty());
        }
        k
    }

    /// Attaches to a live target: resolves every tracked field's
    /// address against the given offset table. `None` means a chain
    /// did not resolve — the table does not fit the target, which is
    /// fatal at start-up.
    pub fn new<M: MemorySource>(m: &M, base: usize, offsets: &RekordboxOffsets) -> (r: Option<
        BeatKeeper,
    >)
        ensures
            r is Some <==> table_resolves(m, base, *offsets),
            r matches Some(k) ==> k.model() == initial_model(true) && (k.reader() matches Some(rb)
                && reader_matches(rb, m, base, *offsets)),
    {
        let rb = match Rekordbox::new(m, base, offsets) {
            Some(rb) => rb,
            None => {
                return None;
            },
        };
        Some(BeatKeeper::make(Some(rb)))
    }

    /// A keeper with no memory source: diagnostic mode. Ticks advance
    /// the phase at a fixed synthetic tempo and return no edge events.
    pub fn dummy() -> (r: BeatKeeper)
        ensures
            r.model() == initial_model(false),
            r.reader() is None,
    {
        BeatKeeper::make(None)
    }

    /// One tick: samples a fresh snapshot, reconciles it against the
    /// stored state, and returns the metadata lookup this tick calls
    /// for, if any. `Err` means a memory read failed, which is fatal;
    /// the state is then unchanged.
    ///
    /// Without a memory source the tick only advances the phase at
    /// the synthetic tempo and asks for nothing.
    pub fn update<M: MemorySource>(&mut self, m: &M, delta_micros: u64) -> (r: Result<
        Option<i32>,
        KeeperError,
    >)
        ensures
            final (self).reader() == old(self).reader(),
            old(self).reader() is None ==> r == Ok::<Option<i32>, KeeperError>(None) && final (self).model() == dummy_step_model(old(self).model(), delta_micros as int),
            old(self).reader() matches Some(rb) ==> match sample_spec(m, rb) {
                Some(s) => r == Ok::<Option<i32>, KeeperError>(
                    step_request(old(self).model(), s),
                ) && final (self).model() == step_model(old(self).model(), s, delta_micros as int),
                None => r == Err::<Option<i32>, KeeperError>(KeeperError::SampleFailed)
                    && final (self).model() == old(self).model(),
            },
    {
        proof {
            use_type_invariant(&*self);
        }
        let rb = match self.rb {
            None => {
                self.phase = advance_phase(self.phase, delta_micros, DUMMY_TEMPO_CENTIBPM);
                return Ok(None);
            },
            Some(rb) => rb,
        };
        let snap = match rb.sample(m) {
            Some(s) => s,
            None => {
                return Err(KeeperError::SampleFailed);
            },
        };

        // Master-track transitions: an active-deck switch, or a
        // track-id change on the deck that is active, marks the
        // master track as possibly changed.
        let deck_switched = snap.masterdeck_index != self.last_masterdeck_index;
        let d1_changed = snap.deck1_track_id != self.last_d1track;
        let d2_changed = snap.deck2_track_id != self.last_d2track;
        let marked = deck_switched || (d1_changed && snap.masterdeck_index == 0) || (d2_changed
            && snap.masterdeck_index != 0);
        if marked {
            self.last_master_track = snap.master_track_id();
        }
        self.last_masterdeck_index = snap.masterdeck_index;
        self.last_d1track = snap.deck1_track_id;
        self.last_d2track = snap.deck2_track_id;

        // Beat edge: any change of the deck-selected master beat
        // count, forward or backward, arms one edge and resets the
        // sub-beat phase.
        if snap.master_beats() != self.last_beat {
            self.last_beat = snap.master_beats();
            self.phase = 0;
            self.new_beat = true;
        }

        // Time edge.
        if snap.master_time() != self.last_time {
            self.last_time = snap.master_time();
            self.new_time = true;
        }

        // Phase advance, at the tempo the previous snapshot reported.
        let old_tempo = self.tempo_centibpm;
        self.tempo_centibpm = snap.tempo_centibpm;
        self.phase = advance_phase(self.phase, delta_micros, old_tempo);

        let request = if marked && self.last_master_track > 0 {
            Some(self.last_master_track)
        } else {
            None
        };
        Ok(request)
    }

    /// Applies the outcome of the metadata lookup a tick asked for. A
    /// not-found reply leaves the stored path and title untouched and
    /// does not arm the new-track flag; a found record replaces them
    /// and arms it.
    pub fn apply_lookup(&mut self, res: &LookupResult)
        ensures
            final (self).reader() == old(self).reader(),
            match res {
                LookupResult::NotFound => final (self).model() == old(self).model(),
                LookupResult::Found { path, title } => final (self).model() == (KeeperModel {
                    last_master_path: path@,
                    last_master_title: title@,
                    new_track: true,
                    ..old(self).model()
                }),
            },
    {
        proof {
            use_type_invariant(&*self);
        }
        match res {
            LookupResult::NotFound => {},
            LookupResult::Found { path, title } => {
                self.last_master_path = path.clone();
                self.last_master_title = title.clone();
                self.new_track = true;
            },
        }
    }

    /// Reads the authentication token field and stores it as text.
    /// Without a memory source this does nothing. A failed read or a
    /// token that is not text is fatal and leaves the state unchanged.
    pub fn update_api_bearer<M: MemorySource>(&mut self, m: &M) -> (r: Result<(), KeeperError>)
        ensures
            final (self).reader() == old(self).reader(),
            old(self).reader() is None ==> r == Ok::<(), KeeperError>(()) && final (self).model()
                == old(self).model(),
            old(self).reader() matches Some(rb) ==> match bytes_spec(
                m,
                rb.api_bearer_addr,
                API_BEARER_LEN as nat,
            ) {
                Some(bytes) => if valid_utf8(bytes) {
                    r == Ok::<(), KeeperError>(()) && final (self).model() == (KeeperModel {
                        api_bearer: decode_utf8(bytes),
                        ..old(self).model()
                    })
                } else {
                    r == Err::<(), KeeperError>(KeeperError::TokenInvalid) && final (self).model()
                        == old(self).model()
                },
                None => r == Err::<(), KeeperError>(KeeperError::SampleFailed)
                    && final (self).model() == old(self).model(),
            },
    {
        proof {
            use_type_invariant(&*self);
        }
        let rb = match self.rb {
            None => {
                return Ok(());
            },
            Some(rb) => rb,
        };
        let bytes = match rb.read_api_bearer_bytes(m) {
            Some(b) => b,
            None => {
                return Err(KeeperError::SampleFailed);
            },
        };
        match bytes_to_string(&bytes) {
            Some(s) => {
                self.api_bearer = s;
                Ok(())
            },
            None => Err(KeeperError::TokenInvalid),
        }
    }

    /// The reported sub-beat phase, as a numerator over
    /// [`PHASE_SCALE`]: the raw phase shifted by the manual offset's
    /// worth of beats, wrapped into one beat even when the shift is
    /// negative.
    pub fn get_beat_faction(&mut self) -> (r: u64)
        ensures
            r == reported_phase(old(self).model()),
            r < PHASE_SCALE,
            final (self).model() == old(self).model(),
            final (self).reader() == old(self).reader(),
    {
        proof {
            use_type_invariant(&*self);
        }
        let correction: u64 = if self.rb.is_some() {
            let t = self.tempo_centibpm;
            if self.offset_micros >= 0 {
                proof {
                    lemma_mul_upper_bound(
                        self.offset_micros as int,
                        i64::MAX as int,
                        t as int,
                        u32::MAX as int,
                    );
                }
                let x: u128 = (self.offset_micros as u128) * (t as u128);
                proof {
                    lemma_mod_division_less_than_divisor(x as int, PHASE_SCALE as int);
                }
                (x % (PHASE_SCALE as u128)) as u64
            } else {
                let mag: u128 = (-(self.offset_micros as i128)) as u128;
                proof {
                    lemma_mul_upper_bound(mag as int, 0x8000_0000_0000_0000, t as int, u32::MAX as int);
                }
                let x: u128 = mag * (t as u128);
                proof {
                    assert((self.offset_micros as int) * (t as int) == -(x as int))
                        by (nonlinear_arith)
                        requires
                            (mag as int) == -(self.offset_micros as int),
                            (x as int) == (mag as int) * (t as int),
                    ;
                    lemma_mod_division_less_than_divisor(x as int, PHASE_SCALE as int);
                    lemma_neg_mod(x as int, PHASE_SCALE as int);
                }
                let md = (x % (PHASE_SCALE as u128)) as u64;
                if md == 0 {
                    0
                } else {
                    PHASE_SCALE - md
                }
            }
        } else {
            0
        };
        let sum: u128 = (self.phase as u128) + (correction as u128);
        proof {
            lemma_mod_division_less_than_divisor(sum as int, PHASE_SCALE as int);
            if self.rb is Some {
                lemma_add_mod_noop_right(
                    self.phase as int,
                    self.offset_micros as int * self.tempo_centibpm as int,
                    PHASE_SCALE as int,
                );
            }
        }
        (sum % (PHASE_SCALE as u128)) as u64
    }

    /// Compares the current tempo with the last one handed out; a
    /// difference updates the stored value and returns the new tempo.
    /// Unlike the edge flags this is derived, not armed: with an
    /// unchanged tempo it stays `None` however often it is called.
    pub fn get_bpm_changed(&mut self) -> (r: Option<u32>)
        ensures
            final (self).reader() == old(self).reader(),
            ({
                let m0 = old(self).model();
                if m0.live && m0.tempo != m0.last_tempo {
                    r == Some(m0.tempo as u32) && final (self).model() == (KeeperModel {
                        last_tempo: m0.tempo,
                        ..m0
                    })
                } else {
                    r is None && final (self).model() == m0
                }
            }),
    {
        proof {
            use_type_invariant(&*self);
        }
        if self.rb.is_some() {
            if self.tempo_centibpm != self.last_tempo_centibpm {
                self.last_tempo_centibpm = self.tempo_centibpm;
                return Some(self.tempo_centibpm);
            }
        }
        None
    }

    /// Hands out one armed beat edge and disarms it.
    pub fn get_new_beat(&mut self) -> (r: bool)
        ensures
            r == old(self).model().new_beat,
            final (self).model() == (KeeperModel { new_beat: false, ..old(self).model() }),
            final (self).reader() == old(self).reader(),
    {
        proof {
            use_type_invariant(&*self);
        }
        if self.new_beat {
            self.new_beat = false;
            return true;
        }
        false
    }

    /// Hands out one armed time edge and disarms it.
    pub fn get_new_time(&mut self) -> (r: bool)
        ensures
            r == old(self).model().new_time,
            final (self).model() == (KeeperModel { new_time: false, ..old(self).model() }),
            final (self).reader() == old(self).reader(),
    {
        proof {
            use_type_invariant(&*self);
        }
        if self.new_time {
            self.new_time = false;
            return true;
        }
        false
    }

    /// Hands out one armed track edge and disarms it.
    pub fn get_new_master_track(&mut self) -> (r: bool)
        ensures
            r == old(self).model().new_track,
            final (self).model() == (KeeperModel { new_track: false, ..old(self).model() }),
            final (self).reader() == old(self).reader(),
    {
        proof {
            use_type_invariant(&*self);
        }
        if self.new_track {
            self.new_track = false;
            return true;
        }
        false
    }

    /// Last stored master beat count.
    pub fn last_beat(&self) -> (r: i64)
        ensures
            r == self.model().last_beat,
    {
        self.last_beat
    }

    /// Last stored master elapsed time, milliseconds.
    pub fn last_time(&self) -> (r: i32)
        ensures
            r == self.model().last_time,
    {
        self.last_time
    }

    /// Last stored active-deck indicator.
    pub fn last_masterdeck_index(&self) -> (r: u8)
        ensures
            r == self.model().last_masterdeck_index,
    {
        self.last_masterdeck_index
    }

    /// File path of the last resolved master track.
    pub fn last_master_path(&self) -> (r: &String)
        ensures
            r@ == self.model().last_master_path,
    {
        &self.last_master_path
    }

    /// Title of the last resolved master track.
    pub fn last_master_title(&self) -> (r: &String)
        ensures
            r@ == self.model().last_master_title,
    {
        &self.last_master_title
    }

    /// The stored authentication token.
    pub fn api_bearer(&self) -> (r: &String)
        ensures
            r@ == self.model().api_bearer,
    {
        &self.api_bearer
    }

    /// Tempo of the most recent snapshot, hundredths of a beat per
    /// minute.
    pub fn tempo_centibpm(&self) -> (r: u32)
        ensures
            r == self.model().tempo,
    {
        self.tempo_centibpm
    }

    /// Tempo last handed out by `get_bpm_changed`, hundredths of a
    /// beat per minute.
    pub fn last_tempo_centibpm(&self) -> (r: u32)
        ensures
            r == self.model().last_tempo,
    {
        self.last_tempo_centibpm
    }

    /// Whether a live snapshot reader is attached.
    pub fn is_live(&self) -> (r: bool)
        ensures
            r == self.model().live,
    {
        self.rb.is_some()
    }

    /// Accumulates a live latency trim into the manual phase offset.
    pub fn change_beat_offset(&mut self, offset_micros: i64)
        requires
            i64::MIN <= old(self).model().offset_micros + offset_micros <= i64::MAX,
        ensures
            final (self).model() == (KeeperModel {
                offset_micros: old(self).model().offset_micros + offset_micros,
                ..old(self).model()
            }),
            final (self).reader() == old(self).reader(),
    {
        proof {
            use_type_invariant(&*self);
        }
        self.offset_micros = self.offset_micros + offset_micros;
    }
}

/// Relies on `core::str::from_utf8`: succeeds exactly on valid UTF-8
/// and decodes it, as vstd's UTF-8 model states.
#[verifier::external_body]
fn bytes_to_string(bytes: &Vec<u8>) -> (r: Option<String>)
    ensures
        r is Some <==> valid_utf8(bytes@),
        r matches Some(s) ==> s@ == decode_utf8(bytes@),
{
    match core::str::from_utf8(bytes.as_slice()) {
        Ok(s) => Some(s.to_owned()),
        Err(_) => None,
    }
}

/// Folds a sequence of live ticks — a snapshot and the elapsed
/// microseconds for each — through the engine's step.
pub open spec fn run_model(m: KeeperModel, ticks: Seq<(Snapshot, int)>) -> KeeperModel
    decreases ticks.len(),
{
    if ticks.len() == 0 {
        m
    } else {
        run_model(step_model(m, ticks[0].0, ticks[0].1), ticks.skip(1))
    }
}

/// Law: over any run of snapshots that never move the master beat
/// count away from the stored one, the new-beat flag stays down, so
/// `get_new_beat` returns false on every tick of the run.
pub proof fn lemma_no_beat_edges(m: KeeperModel, ticks: Seq<(Snapshot, int)>)
    requires
        !m.new_beat,
        forall|k: int|
            0 <= k < ticks.len() ==> (#[trigger] ticks[k]).0.spec_master_beats() == m.last_beat,
    ensures
        !run_model(m, ticks).new_beat,
        run_model(m, ticks).last_beat == m.last_beat,
    decreases ticks.len(),
{
    if ticks.len() > 0 {
        let m1 = step_model(m, ticks[0].0, ticks[0].1);
        assert(!m1.new_beat);
        assert(m1.last_beat == m.last_beat);
        assert forall|k: int|
            0 <= k < ticks.skip(1).len() implies (#[trigger] ticks.skip(1)[k]).0.spec_master_beats()
            == m1.last_beat by {
            assert(ticks.skip(1)[k] == ticks[k + 1]);
        }
        lemma_no_beat_edges(m1, ticks.skip(1));
    }
}

/// Law: advancing the phase with zero elapsed time changes nothing.
pub proof fn lemma_phase_zero_delta(phase: int, tempo: int)
    requires
        0 <= phase < PHASE_SCALE,
    ensures
        advanced_phase(phase, 0, tempo) == phase,
{
    assert(0 * tempo == 0);
    lemma_small_mod(phase as nat, PHASE_SCALE as nat);
}

/// Law: a whole tick with zero elapsed time leaves the phase
/// unchanged, as long as the snapshot does not move the master beat
/// count (a beat edge resets the phase by design).
pub proof fn lemma_step_zero_delta(m: KeeperModel, s: Snapshot)
    requires
        model_wf(m),
        s.spec_master_beats() == m.last_beat,
    ensures
        step_model(m, s, 0).phase == m.phase,
{
    lemma_phase_zero_delta(m.phase, m.tempo);
}

/// The phase after `n` advances by a fixed `delta` at a fixed tempo.
pub open spec fn advanced_phase_n(phase: int, delta: int, tempo: int, n: nat) -> int
    decreases n,
{
    if n == 0 {
        phase
    } else {
        advanced_phase_n(advanced_phase(phase, delta, tempo), delta, tempo, (n - 1) as nat)
    }
}

/// Repeated advances accumulate: `n` advances add `n * delta * tempo`
/// to the numerator, modulo one beat.
proof fn lemma_phase_n_accumulates(phase: int, delta: int, tempo: int, n: nat)
    requires
        0 <= phase < PHASE_SCALE,
        delta >= 0,
        tempo >= 0,
    ensures
        advanced_phase_n(phase, delta, tempo, n) == (phase + n * delta * tempo) % (
        PHASE_SCALE as int),
    decreases n,
{
    let s = PHASE_SCALE as int;
    if n == 0 {
        assert(n * delta * tempo == 0) by (nonlinear_arith)
            requires
                n == 0,
        ;
        lemma_small_mod(phase as nat, PHASE_SCALE as nat);
    } else {
        let step: int = delta * tempo;
        assert(delta * tempo >= 0) by (nonlinear_arith)
            requires
                delta >= 0,
                tempo >= 0,
        ;
        let p1 = advanced_phase(phase, delta, tempo);
        lemma_mod_division_less_than_divisor(phase + step, s);
        lemma_phase_n_accumulates(p1, delta, tempo, (n - 1) as nat);
        assert(advanced_phase_n(phase, delta, tempo, n) == (p1 + (n - 1) * delta * tempo) % s);
        lemma_add_mod_noop_right((n - 1) * delta * tempo, phase + step, s);
        assert(((n - 1) * delta * tempo + (phase + step) % s) % s == ((n - 1) * delta * tempo + (
        phase + step)) % s);
        assert(n * delta * tempo == (n - 1) * delta * tempo + step) by (nonlinear_arith)
            requires
                n >= 1,
                step == delta * tempo,
        ;
    }
}

/// Law: phase advance is periodic. Advancing `n` times by a fixed
/// `delta` at tempo `t` returns the phase to its start whenever the
/// accumulated numerator `n * delta * t` is a whole number of beats —
/// in particular over one full beat, whose duration in microseconds
/// times the tempo is exactly [`PHASE_SCALE`].
pub proof fn lemma_phase_periodic(phase: int, delta: int, tempo: int, n: nat)
    requires
        0 <= phase < PHASE_SCALE,
        delta >= 0,
        tempo >= 0,
        (n * delta * tempo) % (PHASE_SCALE as int) == 0,
    ensures
        advanced_phase_n(phase, delta, tempo, n) == phase,
{
    let s = PHASE_SCALE as int;
    lemma_phase_n_accumulates(phase, delta, tempo, n);
    lemma_add_mod_noop_right(phase, n * delta * tempo, s);
    lemma_small_mod(phase as nat, PHASE_SCALE as nat);
}

/// Law: adjusting the manual offset by `d` microseconds shifts the
/// reported phase by exactly the offset's worth of beats — `d` times
/// the tempo, over [`PHASE_SCALE`] — wrapped into one beat, also when
/// the shift is negative.
pub proof fn lemma_offset_shift(m: KeeperModel, d: int)
    requires
        model_wf(m),
        m.live,
    ensures
        reported_phase((KeeperModel { offset_micros: m.offset_micros + d, ..m })) == (
        reported_phase(m) + d * m.tempo) % (PHASE_SCALE as int),
{
    let s = PHASE_SCALE as int;
    assert((m.offset_micros + d) * m.tempo == m.offset_micros * m.tempo + d * m.tempo)
        by (nonlinear_arith);
    lemma_add_mod_noop_right(d * m.tempo, m.phase + m.offset_micros * m.tempo, s);
}

/// Law: a master-track change to a track id of zero or below never
/// asks for a metadata lookup, so no new-track event can follow it.
pub proof fn lemma_no_lookup_for_invalid_track(m: KeeperModel, s: Snapshot)
    requires
        s.spec_master_track_id() <= 0,
    ensures
        step_request(m, s) is None,
{
}

} // verus!
