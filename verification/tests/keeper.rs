use rkbx_os2l::keeper::{BeatKeeper, KeeperError, PHASE_SCALE};
use rkbx_os2l::memory::FakeMemory;
use rkbx_os2l::metadata::LookupResult;
use rkbx_os2l::offsets::{Pointer, RekordboxOffsets};

const A_TEMPO: usize = 100;
const A_BAR1: usize = 104;
const A_BEAT1: usize = 108;
const A_BAR2: usize = 112;
const A_BEAT2: usize = 116;
const A_MDECK: usize = 120;
const A_D1ID: usize = 124;
const A_D2ID: usize = 128;
const A_BEARER: usize = 132;
const A_D1TIME: usize = 200;
const A_D2TIME: usize = 204;

fn flat(addr: usize) -> Pointer {
    Pointer::new(vec![], addr)
}

fn table() -> RekordboxOffsets {
    RekordboxOffsets {
        rbversion: "6.7.3".to_string(),
        deck1bar: flat(A_BAR1),
        deck1beat: flat(A_BEAT1),
        deck2bar: flat(A_BAR2),
        deck2beat: flat(A_BEAT2),
        master_bpm: flat(A_TEMPO),
        masterdeck_index: flat(A_MDECK),
        deck1_track_id: flat(A_D1ID),
        deck2_track_id: flat(A_D2ID),
        api_bearer: flat(A_BEARER),
        deck1_time: flat(A_D1TIME),
        deck2_time: flat(A_D2TIME),
    }
}

struct Rig {
    mem: FakeMemory,
    keeper: BeatKeeper,
}

impl Rig {
    fn new(tempo_centibpm: u32) -> Rig {
        let mut mem = FakeMemory::new();
        mem.set_tempo(A_TEMPO, tempo_centibpm);
        mem.set_int(A_BAR1, 0);
        mem.set_int(A_BEAT1, 0);
        mem.set_int(A_BAR2, 0);
        mem.set_int(A_BEAT2, 0);
        mem.set_byte(A_MDECK, 0);
        mem.set_int(A_D1ID, 0);
        mem.set_int(A_D2ID, 0);
        mem.set_int(A_D1TIME, 0);
        mem.set_int(A_D2TIME, 0);
        let keeper = BeatKeeper::new(&mem, 0, &table()).unwrap();
        Rig { mem, keeper }
    }

    fn set_beats1(&mut self, beats: i32) {
        self.mem.set_int(A_BAR1, beats / 4);
        self.mem.set_int(A_BEAT1, beats % 4);
    }

    fn set_beats2(&mut self, beats: i32) {
        self.mem.set_int(A_BAR2, beats / 4);
        self.mem.set_int(A_BEAT2, beats % 4);
    }

    fn tick(&mut self, delta_micros: u64) -> Option<i32> {
        self.keeper.update(&self.mem, delta_micros).unwrap()
    }
}

#[test]
fn attach_fails_when_a_chain_does_not_resolve() {
    let mem = FakeMemory::new();
    // A chain with a dereference hop cannot resolve in empty memory.
    let mut offsets = table();
    offsets.master_bpm = Pointer::new(vec![8], 0);
    assert!(BeatKeeper::new(&mem, 0, &offsets).is_none());
}

#[test]
fn no_beat_edge_while_master_beats_hold_still() {
    // The stored count starts at 0, so beats must stay 0 for "unchanged".
    let mut rig = Rig::new(12_000);
    for _ in 0..5 {
        rig.tick(16_667);
        assert!(!rig.keeper.get_new_beat());
    }
}

#[test]
fn beat_edge_fires_once_per_change() {
    let mut rig = Rig::new(12_000);
    rig.set_beats1(10);
    rig.tick(0);
    assert!(rig.keeper.get_new_beat());
    assert!(!rig.keeper.get_new_beat());
    assert_eq!(rig.keeper.last_beat(), 10);
    // A backward jump is an edge too.
    rig.set_beats1(7);
    rig.tick(0);
    assert!(rig.keeper.get_new_beat());
    assert_eq!(rig.keeper.last_beat(), 7);
}

#[test]
fn deck_switch_reports_new_beat_from_new_deck() {
    let mut rig = Rig::new(12_000);
    rig.set_beats1(40);
    rig.tick(0);
    assert!(rig.keeper.get_new_beat());
    assert_eq!(rig.keeper.last_beat(), 40);
    // Active deck switches to deck B, one beat ahead.
    rig.set_beats2(41);
    rig.mem.set_byte(A_MDECK, 1);
    rig.tick(0);
    assert!(rig.keeper.get_new_beat());
    assert_eq!(rig.keeper.last_beat(), 41);
    assert_eq!(rig.keeper.last_masterdeck_index(), 1);
    // Sub-beat phase reset to 0 on that tick (delta was 0).
    assert_eq!(rig.keeper.get_beat_faction(), 0);
}

#[test]
fn zero_delta_leaves_phase_unchanged() {
    let mut rig = Rig::new(12_000);
    rig.tick(10_000);
    let before = rig.keeper.get_beat_faction();
    assert_eq!(before, 10_000 * 12_000);
    rig.tick(0);
    assert_eq!(rig.keeper.get_beat_faction(), before);
}

#[test]
fn phase_advance_is_periodic_over_one_beat() {
    // At 120 BPM one beat lasts 500,000 us: ten ticks of 50,000 us.
    let mut rig = Rig::new(12_000);
    rig.tick(10_000);
    let start = rig.keeper.get_beat_faction();
    for _ in 0..10 {
        rig.tick(50_000);
    }
    assert_eq!(rig.keeper.get_beat_faction(), start);
}

#[test]
fn phase_wraps_within_one_beat() {
    let mut rig = Rig::new(12_000);
    rig.tick(400_000);
    rig.tick(400_000);
    // 800,000 us at 120 BPM is 1.6 beats: phase is at 0.6 of a beat.
    assert_eq!(rig.keeper.get_beat_faction(), (PHASE_SCALE / 10) * 6);
}

#[test]
fn invalid_track_id_requests_no_lookup() {
    let mut rig = Rig::new(12_000);
    rig.mem.set_int(A_D1ID, -3);
    assert_eq!(rig.tick(0), None);
    assert!(!rig.keeper.get_new_master_track());
    rig.mem.set_int(A_D1ID, 0);
    assert_eq!(rig.tick(0), None);
    assert!(!rig.keeper.get_new_master_track());
}

#[test]
fn valid_track_change_requests_lookup() {
    let mut rig = Rig::new(12_000);
    rig.mem.set_int(A_D1ID, 42);
    assert_eq!(rig.tick(0), Some(42));
    // Until a lookup result is applied, no track event is armed.
    assert!(!rig.keeper.get_new_master_track());
}

#[test]
fn track_change_on_inactive_deck_requests_nothing() {
    let mut rig = Rig::new(12_000);
    // Deck 2 is not active; its track change asks for no lookup.
    rig.mem.set_int(A_D2ID, 9);
    assert_eq!(rig.tick(0), None);
}

#[test]
fn not_found_lookup_leaves_track_state_alone() {
    let mut rig = Rig::new(12_000);
    rig.mem.set_int(A_D1ID, 42);
    assert_eq!(rig.tick(0), Some(42));
    rig.keeper.apply_lookup(&LookupResult::NotFound);
    assert!(!rig.keeper.get_new_master_track());
    assert_eq!(rig.keeper.last_master_path().as_str(), "");
    assert_eq!(rig.keeper.last_master_title().as_str(), "");
}

#[test]
fn found_lookup_stores_track_and_arms_event() {
    let mut rig = Rig::new(12_000);
    rig.mem.set_int(A_D1ID, 42);
    assert_eq!(rig.tick(0), Some(42));
    rig.keeper.apply_lookup(&LookupResult::Found {
        path: "C:/music/one.mp3".to_string(),
        title: "one".to_string(),
    });
    assert!(rig.keeper.get_new_master_track());
    assert!(!rig.keeper.get_new_master_track());
    assert_eq!(rig.keeper.last_master_path().as_str(), "C:/music/one.mp3");
    assert_eq!(rig.keeper.last_master_title().as_str(), "one");
}

#[test]
fn offset_shifts_reported_phase() {
    let mut rig = Rig::new(12_000);
    rig.tick(150_000);
    // Raw phase is 0.3 of a beat.
    assert_eq!(rig.keeper.get_beat_faction(), (PHASE_SCALE / 10) * 3);
    // +0.2 of a beat: 100,000 us at 120 BPM.
    rig.keeper.change_beat_offset(100_000);
    assert_eq!(rig.keeper.get_beat_faction(), (PHASE_SCALE / 10) * 5);
}

#[test]
fn negative_offset_wraps_into_unit_interval() {
    let mut rig = Rig::new(12_000);
    rig.tick(150_000);
    // Raw phase 0.3 of a beat, offset -0.5: reported phase is 0.8.
    rig.keeper.change_beat_offset(-250_000);
    assert_eq!(rig.keeper.get_beat_faction(), (PHASE_SCALE / 10) * 8);
}

#[test]
fn beat_scenario_at_128_bpm() {
    let mut rig = Rig::new(12_800);
    rig.set_beats1(10);
    rig.tick(0);
    assert!(rig.keeper.get_new_beat());
    assert_eq!(rig.keeper.get_beat_faction(), 0);
    // Beat 10 -> 11 at tick N; 16,667 us have passed since tick N-1.
    rig.set_beats1(11);
    rig.tick(16_667);
    assert!(rig.keeper.get_new_beat());
    // Phase entering tick N+1: 16,667 us * 128 BPM = 0.0356 beats.
    assert_eq!(rig.keeper.get_beat_faction(), 16_667 * 12_800);
    assert_eq!(rig.keeper.last_beat(), 11);
}

#[test]
fn time_edge_fires_on_change() {
    let mut rig = Rig::new(12_000);
    rig.tick(0);
    assert!(!rig.keeper.get_new_time());
    rig.mem.set_int(A_D1TIME, 1500);
    rig.tick(0);
    assert!(rig.keeper.get_new_time());
    assert!(!rig.keeper.get_new_time());
    assert_eq!(rig.keeper.last_time(), 1500);
}

#[test]
fn master_time_follows_active_deck() {
    let mut rig = Rig::new(12_000);
    rig.mem.set_int(A_D1TIME, 1000);
    rig.mem.set_int(A_D2TIME, 9000);
    rig.tick(0);
    assert_eq!(rig.keeper.last_time(), 1000);
    rig.mem.set_byte(A_MDECK, 1);
    rig.tick(0);
    assert_eq!(rig.keeper.last_time(), 9000);
}

#[test]
fn bpm_change_is_reported_once_per_change() {
    let mut rig = Rig::new(12_800);
    rig.tick(0);
    assert_eq!(rig.keeper.get_bpm_changed(), Some(12_800));
    assert_eq!(rig.keeper.get_bpm_changed(), None);
    rig.mem.set_tempo(A_TEMPO, 12_850);
    rig.tick(0);
    assert_eq!(rig.keeper.get_bpm_changed(), Some(12_850));
    assert_eq!(rig.keeper.get_bpm_changed(), None);
}

#[test]
fn dummy_keeper_advances_phase_without_events() {
    let mem = FakeMemory::new();
    let mut keeper = BeatKeeper::dummy();
    assert!(!keeper.is_live());
    // 130 BPM synthetic tempo.
    assert_eq!(keeper.update(&mem, 10_000), Ok(None));
    assert!(!keeper.get_new_beat());
    assert!(!keeper.get_new_time());
    assert!(!keeper.get_new_master_track());
    assert_eq!(keeper.get_bpm_changed(), None);
    assert_eq!(keeper.get_beat_faction(), 10_000 * 13_000);
}

#[test]
fn sample_failure_is_fatal_and_changes_nothing() {
    let mut rig = Rig::new(12_000);
    rig.tick(10_000);
    let phase = rig.keeper.get_beat_faction();
    let mut broken = FakeMemory::new();
    broken.set_tempo(A_TEMPO, 12_000);
    assert_eq!(rig.keeper.update(&broken, 10_000), Err(KeeperError::SampleFailed));
    assert_eq!(rig.keeper.get_beat_faction(), phase);
}

#[test]
fn api_bearer_is_read_as_text() {
    let mut rig = Rig::new(12_000);
    let token = b"0123456789abcdefghijklmnopqrstuv";
    for (k, b) in token.iter().enumerate() {
        rig.mem.set_byte(A_BEARER + k, *b);
    }
    assert_eq!(rig.keeper.update_api_bearer(&rig.mem), Ok(()));
    assert_eq!(rig.keeper.api_bearer().as_str(), "0123456789abcdefghijklmnopqrstuv");
}

#[test]
fn api_bearer_read_failure_is_fatal() {
    let mut rig = Rig::new(12_000);
    // Only 31 of the 32 token bytes are readable.
    for k in 0..31 {
        rig.mem.set_byte(A_BEARER + k, b'x');
    }
    assert_eq!(rig.keeper.update_api_bearer(&rig.mem), Err(KeeperError::SampleFailed));
    assert_eq!(rig.keeper.api_bearer().as_str(), "");
}

#[test]
fn api_bearer_rejects_invalid_text() {
    let mut rig = Rig::new(12_000);
    for k in 0..32 {
        rig.mem.set_byte(A_BEARER + k, 0xff);
    }
    assert_eq!(rig.keeper.update_api_bearer(&rig.mem), Err(KeeperError::TokenInvalid));
    assert_eq!(rig.keeper.api_bearer().as_str(), "");
}
