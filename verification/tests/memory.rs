use rkbx_os2l::memory::{read_bytes, resolve, FakeMemory, MemorySource};
use rkbx_os2l::offsets::Pointer;

#[test]
fn fake_memory_reads_back_what_was_set() {
    let mut m = FakeMemory::new();
    m.set_word(16, 1000);
    m.set_int(24, -7);
    m.set_byte(32, 9);
    m.set_tempo(40, 12800);
    assert_eq!(m.read_word(16), Some(1000));
    assert_eq!(m.read_int(24), Some(-7));
    assert_eq!(m.read_byte(32), Some(9));
    assert_eq!(m.read_tempo(40), Some(12800));
    assert_eq!(m.read_word(17), None);
}

#[test]
fn fake_memory_last_write_wins() {
    let mut m = FakeMemory::new();
    m.set_int(24, 1);
    m.set_int(24, 2);
    assert_eq!(m.read_int(24), Some(2));
}

#[test]
fn resolve_flat_pointer_adds_final_offset() {
    let m = FakeMemory::new();
    // No dereference hops: the address is base + final offset.
    let p = Pointer::new(vec![], 0x40);
    assert_eq!(resolve(&m, 0x1000, &p), Some(0x1040));
}

#[test]
fn resolve_follows_dereference_chain() {
    let mut m = FakeMemory::new();
    // base 0x1000: word at 0x1000+0x10 -> 0x2000, word at 0x2000+0x8 -> 0x3000,
    // then final offset 0x4.
    m.set_word(0x1010, 0x2000);
    m.set_word(0x2008, 0x3000);
    let p = Pointer::new(vec![0x10, 0x8], 0x4);
    assert_eq!(resolve(&m, 0x1000, &p), Some(0x3004));
}

#[test]
fn resolve_fails_on_unreadable_hop() {
    let mut m = FakeMemory::new();
    m.set_word(0x1010, 0x2000);
    let p = Pointer::new(vec![0x10, 0x8], 0x4);
    // The second hop at 0x2008 is unreadable.
    assert_eq!(resolve(&m, 0x1000, &p), None);
}

#[test]
fn resolve_fails_on_address_overflow() {
    let m = FakeMemory::new();
    let p = Pointer::new(vec![], usize::MAX);
    assert_eq!(resolve(&m, 2, &p), None);
}

#[test]
fn read_bytes_collects_a_run() {
    let mut m = FakeMemory::new();
    for k in 0..4 {
        m.set_byte(100 + k, b'a' + k as u8);
    }
    assert_eq!(read_bytes(&m, 100, 4), Some(b"abcd".to_vec()));
    assert_eq!(read_bytes(&m, 100, 0), Some(Vec::new()));
    // One byte past the run is unreadable.
    assert_eq!(read_bytes(&m, 100, 5), None);
}
