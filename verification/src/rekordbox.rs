//! The snapshot reader: resolves the tracked fields' addresses once,
//! then turns each poll tick into one immutable snapshot.

use vstd::prelude::*;
use crate::memory::{MemorySource, bytes_spec, read_bytes, resolve, resolve_spec};
use crate::offsets::RekordboxOffsets;

verus! {

/// One poll tick's view of the target application. A pure value,
/// re-created every tick. Tempo is in hundredths of a beat per minute;
/// per-deck counters are already combined into absolute beat counts
/// (`bar * 4 + beat`); times are elapsed milliseconds; a track id of
/// zero or below means no track is loaded.
#[derive(Clone, Copy, PartialEq, Eq, Structural, Debug)]
pub struct Snapshot {
    pub tempo_centibpm: u32,
    pub beats1: i64,
    pub beats2: i64,
    pub masterdeck_index: u8,
    pub deck1_track_id: i32,
    pub deck2_track_id: i32,
    pub deck1_time: i32,
    pub deck2_time: i32,
}

impl Snapshot {
    /// Beat count of the deck the active-deck indicator selects.
    pub open spec fn spec_master_beats(&self) -> i64 {
        if self.masterdeck_index == 0 {
            self.beats1
        } else {
            self.beats2
        }
    }

    /// Elapsed time of the deck the active-deck indicator selects.
    pub open spec fn spec_master_time(&self) -> i32 {
        if self.masterdeck_index == 0 {
            self.deck1_time
        } else {
            self.deck2_time
        }
    }

    /// Track id of the deck the active-deck indicator selects.
    pub open spec fn spec_master_track_id(&self) -> i32 {
        if self.masterdeck_index == 0 {
            self.deck1_track_id
        } else {
            self.deck2_track_id
        }
    }

    #[verifier::when_used_as_spec(spec_master_beats)]
    pub fn master_beats(&self) -> (r: i64)
        ensures
            r == self.spec_master_beats(),
    {
        if self.masterdeck_index == 0 {
            self.beats1
        } else {
            self.beats2
        }
    }

    #[verifier::when_used_as_spec(spec_master_time)]
    pub fn master_time(&self) -> (r: i32)
        ensures
            r == self.spec_master_time(),
    {
        if self.masterdeck_index == 0 {
            self.deck1_time
        } else {
            self.deck2_time
        }
    }

    #[verifier::when_used_as_spec(spec_master_track_id)]
    pub fn master_track_id(&self) -> (r: i32)
        ensures
            r == self.spec_master_track_id(),
    {
        if self.masterdeck_index == 0 {
            self.deck1_track_id
        } else {
            self.deck2_track_id
        }
    }
}

/// The resolved addresses of every tracked field, pinned once at
/// start-up against one version's offset table.
#[derive(Clone, Copy)]
pub struct Rekordbox {
    pub master_bpm_addr: usize,
    pub bar1_addr: usize,
    pub beat1_addr: usize,
    pub bar2_addr: usize,
    pub beat2_addr: usize,
    pub masterdeck_index_addr: usize,
    pub deck1_time_addr: usize,
    pub deck2_time_addr: usize,
    pub deck1_track_id_addr: usize,
    pub deck2_track_id_addr: usize,
    pub api_bearer_addr: usize,
}

/// All eleven chains of the table resolve against `m`.
pub open spec fn table_resolves<M: MemorySource>(m: &M, base: usize, o: RekordboxOffsets) -> bool {
    &&& resolve_spec(m, base, o.master_bpm) is Some
    &&& resolve_spec(m, base, o.deck1bar) is Some
    &&& resolve_spec(m, base, o.deck1beat) is Some
    &&& resolve_spec(m, base, o.deck2bar) is Some
    &&& resolve_spec(m, base, o.deck2beat) is Some
    &&& resolve_spec(m, base, o.masterdeck_index) is Some
    &&& resolve_spec(m, base, o.deck1_time) is Some
    &&& resolve_spec(m, base, o.deck2_time) is Some
    &&& resolve_spec(m, base, o.deck1_track_id) is Some
    &&& resolve_spec(m, base, o.deck2_track_id) is Some
    &&& resolve_spec(m, base, o.api_bearer) is Some
}

/// The reader's addresses are the ones the table resolves to.
pub open spec fn reader_matches<M: MemorySource>(
    rb: Rekordbox,
    m: &M,
    base: usize,
    o: RekordboxOffsets,
) -> bool {
    &&& Some(rb.master_bpm_addr) == resolve_spec(m, base, o.master_bpm)
    &&& Some(rb.bar1_addr) == resolve_spec(m, base, o.deck1bar)
    &&& Some(rb.beat1_addr) == resolve_spec(m, base, o.deck1beat)
    &&& Some(rb.bar2_addr) == resolve_spec(m, base, o.deck2bar)
    &&& Some(rb.beat2_addr) == resolve_spec(m, base, o.deck2beat)
    &&& Some(rb.masterdeck_index_addr) == resolve_spec(m, base, o.masterdeck_index)
    &&& Some(rb.deck1_time_addr) == resolve_spec(m, base, o.deck1_time)
    &&& Some(rb.deck2_time_addr) == resolve_spec(m, base, o.deck2_time)
    &&& Some(rb.deck1_track_id_addr) == resolve_spec(m, base, o.deck1_track_id)
    &&& Some(rb.deck2_track_id_addr) == resolve_spec(m, base, o.deck2_track_id)
    &&& Some(rb.api_bearer_addr) == resolve_spec(m, base, o.api_bearer)
}

/// The snapshot one tick produces, when every field reads cleanly.
/// Each field is read once, independently; no atomicity is assumed
/// across fields.
pub open spec fn sample_spec<M: MemorySource>(m: &M, rb: Rekordbox) -> Option<Snapshot> {
    if m.tempo_at(rb.master_bpm_addr) is Some && m.int_at(rb.bar1_addr) is Some
        && m.int_at(rb.beat1_addr) is Some && m.int_at(rb.bar2_addr) is Some
        && m.int_at(rb.beat2_addr) is Some && m.byte_at(rb.masterdeck_index_addr) is Some
        && m.int_at(rb.deck1_track_id_addr) is Some && m.int_at(rb.deck2_track_id_addr) is Some
        && m.int_at(rb.deck1_time_addr) is Some && m.int_at(rb.deck2_time_addr) is Some {
        Some(
            Snapshot {
                tempo_centibpm: m.tempo_at(rb.master_bpm_addr)->Some_0,
                beats1: (m.int_at(rb.bar1_addr)->Some_0 * 4 + m.int_at(rb.beat1_addr)->Some_0) as i64,
                beats2: (m.int_at(rb.bar2_addr)->Some_0 * 4 + m.int_at(rb.beat2_addr)->Some_0) as i64,
                masterdeck_index: m.byte_at(rb.masterdeck_index_addr)->Some_0,
                deck1_track_id: m.int_at(rb.deck1_track_id_addr)->Some_0,
                deck2_track_id: m.int_at(rb.deck2_track_id_addr)->Some_0,
                deck1_time: m.int_at(rb.deck1_time_addr)->Some_0,
                deck2_time: m.int_at(rb.deck2_time_addr)->Some_0,
            },
        )
    } else {
        None
    }
}

impl Rekordbox {
    /// Resolves every tracked field's address once. `None` means some
    /// chain did not resolve: the offset table does not fit the
    /// running target, which is fatal.
    pub fn new<M: MemorySource>(m: &M, base: usize, offsets: &RekordboxOffsets) -> (r: Option<
        Rekordbox,
    >)
        ensures
            r is Some <==> table_resolves(m, base, *offsets),
            r matches Some(rb) ==> reader_matches(rb, m, base, *offsets),
    {
        let master_bpm_addr = match resolve(m, base, &offsets.master_bpm) {
            Some(a) => a,
            None => { return None; },
        };
        let bar1_addr = match resolve(m, base, &offsets.deck1bar) {
            Some(a) => a,
            None => { return None; },
        };
        let beat1_addr = match resolve(m, base, &offsets.deck1beat) {
            Some(a) => a,
            None => { return None; },
        };
        let bar2_addr = match resolve(m, base, &offsets.deck2bar) {
            Some(a) => a,
            None => { return None; },
        };
        let beat2_addr = match resolve(m, base, &offsets.deck2beat) {
            Some(a) => a,
            None => { return None; },
        };
        let masterdeck_index_addr = match resolve(m, base, &offsets.masterdeck_index) {
            Some(a) => a,
            None => { return None; },
        };
        let deck1_time_addr = match resolve(m, base, &offsets.deck1_time) {
            Some(a) => a,
            None => { return None; },
        };
        let deck2_time_addr = match resolve(m, base, &offsets.deck2_time) {
            Some(a) => a,
            None => { return None; },
        };
        let deck1_track_id_addr = match resolve(m, base, &offsets.deck1_track_id) {
            Some(a) => a,
            None => { return None; },
        };
        let deck2_track_id_addr = match resolve(m, base, &offsets.deck2_track_id) {
            Some(a) => a,
            None => { return None; },
        };
        let api_bearer_addr = match resolve(m, base, &offsets.api_bearer) {
            Some(a) => a,
            None => { return None; },
        };
        Some(Rekordbox {
            master_bpm_addr,
            bar1_addr,
            beat1_addr,
            bar2_addr,
            beat2_addr,
            masterdeck_index_addr,
            deck1_time_addr,
            deck2_time_addr,
            deck1_track_id_addr,
            deck2_track_id_addr,
            api_bearer_addr,
        })
    }

    /// Reads the eight tracked fields once each and combines the
    /// per-deck bar and beat counters into absolute beat counts.
    /// `None` means a read failed, which is fatal for the tick loop.
    pub fn sample<M: MemorySource>(&self, m: &M) -> (r: Option<Snapshot>)
        ensures
            r == sample_spec(m, *self),
    {
        let tempo_centibpm = match m.read_tempo(self.master_bpm_addr) {
            Some(v) => v,
            None => { return None; },
        };
        let bar1 = match m.read_int(self.bar1_addr) {
            Some(v) => v,
            None => { return None; },
        };
        let beat1 = match m.read_int(self.beat1_addr) {
            Some(v) => v,
            None => { return None; },
        };
        let bar2 = match m.read_int(self.bar2_addr) {
            Some(v) => v,
            None => { return None; },
        };
        let beat2 = match m.read_int(self.beat2_addr) {
            Some(v) => v,
            None => { return None; },
        };
        let masterdeck_index = match m.read_byte(self.masterdeck_index_addr) {
            Some(v) => v,
            None => { return None; },
        };
        let deck1_track_id = match m.read_int(self.deck1_track_id_addr) {
            Some(v) => v,
            None => { return None; },
        };
        let deck2_track_id = match m.read_int(self.deck2_track_id_addr) {
            Some(v) => v,
            None => { return None; },
        };
        let deck1_time = match m.read_int(self.deck1_time_addr) {
            Some(v) => v,
            None => { return None; },
        };
        let deck2_time = match m.read_int(self.deck2_time_addr) {
            Some(v) => v,
            None => { return None; },
        };
        let beats1 = (bar1 as i64) * 4 + (beat1 as i64);
        let beats2 = (bar2 as i64) * 4 + (beat2 as i64);
        Some(Snapshot {
            tempo_centibpm,
            beats1,
            beats2,
            masterdeck_index,
            deck1_track_id,
            deck2_track_id,
            deck1_time,
            deck2_time,
        })
    }

    /// Reads the fixed-length authentication token field as raw bytes.
    pub fn read_api_bearer_bytes<M: MemorySource>(&self, m: &M) -> (r: Option<Vec<u8>>)
        ensures
            match r {
                Some(v) => bytes_spec(m, self.api_bearer_addr, API_BEARER_LEN as nat) == Some(v@),
                None => bytes_spec(m, self.api_bearer_addr, API_BEARER_LEN as nat) is None,
            },
    {
        read_bytes(m, self.api_bearer_addr, API_BEARER_LEN)
    }
}

/// Length in bytes of the authentication token field.
pub const API_BEARER_LEN: usize = 32;

} // verus!
