//! Reading typed values out of the target process's address space.
//!
//! All reads go through the [`MemorySource`] capability, so the
//! resolver and everything above it can be exercised against an
//! in-memory table instead of a live process.

use vstd::prelude::*;
use crate::offsets::Pointer;

verus! {

/// A source of typed reads at absolute addresses. A result of `None`
/// means the read failed, which callers treat as fatal: the assumed
/// memory layout no longer matches the running target.
///
/// Each `read_*` method must return exactly what the corresponding
/// spec view says; implementations with other ideas of their contents
/// do not verify. The tempo lives in the target as beats per minute;
/// a source hands it out in hundredths of a beat per minute so that
/// everything above this interface is exact integer arithmetic.
pub trait MemorySource: Sized {
    /// Machine word visible at `addr`, if readable.
    spec fn word_at(&self, addr: usize) -> Option<usize>;

    /// 32-bit signed integer visible at `addr`, if readable.
    spec fn int_at(&self, addr: usize) -> Option<i32>;

    /// Single byte visible at `addr`, if readable.
    spec fn byte_at(&self, addr: usize) -> Option<u8>;

    /// Tempo visible at `addr`, in hundredths of a beat per minute.
    spec fn tempo_at(&self, addr: usize) -> Option<u32>;

    fn read_word(&self, addr: usize) -> (r: Option<usize>)
        ensures
            r == self.word_at(addr),
    ;

    fn read_int(&self, addr: usize) -> (r: Option<i32>)
        ensures
            r == self.int_at(addr),
    ;

    fn read_byte(&self, addr: usize) -> (r: Option<u8>)
        ensures
            r == self.byte_at(addr),
    ;

    fn read_tempo(&self, addr: usize) -> (r: Option<u32>)
        ensures
            r == self.tempo_at(addr),
    ;
}

/// Where the dereference part of a pointer chain lands: starting from
/// `cur`, each offset is added and a machine word is read there, which
/// becomes the next address. An unreadable hop or an address overflow
/// is a failure.
pub open spec fn chain_spec<M: MemorySource>(m: &M, cur: usize, offs: Seq<usize>) -> Option<usize>
    decreases offs.len(),
{
    if offs.len() == 0 {
        Some(cur)
    } else if cur + offs[0] > usize::MAX {
        None
    } else {
        match m.word_at((cur + offs[0]) as usize) {
            None => None,
            Some(next) => chain_spec(m, next, offs.skip(1)),
        }
    }
}

/// Absolute address of the value a pointer chain names: the
/// dereference hops, then the final flat offset.
pub open spec fn resolve_spec<M: MemorySource>(m: &M, base: usize, p: Pointer) -> Option<usize> {
    match chain_spec(m, base, p.offsets@) {
        None => None,
        Some(a) => if a + p.final_offset > usize::MAX {
            None
        } else {
            Some((a + p.final_offset) as usize)
        },
    }
}

/// Resolves a pointer chain against a live memory source: one word
/// read per offset, then the final offset added to the last word read.
pub fn resolve<M: MemorySource>(m: &M, base: usize, p: &Pointer) -> (r: Option<usize>)
    ensures
        r == resolve_spec(m, base, *p),
{
    let mut cur: usize = base;
    let mut i: usize = 0;
    let n = p.offsets.len();
    proof {
        assert(p.offsets@.skip(0) =~= p.offsets@);
    }
    while i < n
        invariant
            0 <= i <= n,
            n == p.offsets@.len(),
            chain_spec(m, base, p.offsets@) == chain_spec(m, cur, p.offsets@.skip(i as int)),
        decreases n - i,
    {
        let ghost pre = p.offsets@.skip(i as int);
        proof {
            assert(pre[0] == p.offsets@[i as int]);
            assert(pre.skip(1) =~= p.offsets@.skip(i + 1));
        }
        let off = p.offsets[i];
        let hop = match cur.checked_add(off) {
            Some(a) => a,
            None => {
                return None;
            },
        };
        cur = match m.read_word(hop) {
            Some(next) => next,
            None => {
                return None;
            },
        };
        i = i + 1;
    }
    proof {
        assert(p.offsets@.skip(n as int).len() == 0);
    }
    cur.checked_add(p.final_offset)
}

/// The run of `count` bytes starting at `addr`, if every one of them
/// is readable at a valid address.
pub open spec fn bytes_spec<M: MemorySource>(m: &M, addr: usize, count: nat) -> Option<Seq<u8>>
    decreases count,
{
    if count == 0 {
        Some(Seq::empty())
    } else if addr + 1 > usize::MAX && count > 1 {
        None
    } else {
        match m.byte_at(addr) {
            None => None,
            Some(b) => {
                if count == 1 {
                    Some(seq![b])
                } else {
                    match bytes_spec(m, (addr + 1) as usize, (count - 1) as nat) {
                        None => None,
                        Some(rest) => Some(seq![b] + rest),
                    }
                }
            },
        }
    }
}

/// Reads `count` consecutive single bytes, for variable-length fields
/// whose exact length is known up front.
pub fn read_bytes<M: MemorySource>(m: &M, addr: usize, count: usize) -> (r: Option<Vec<u8>>)
    ensures
        match r {
            Some(v) => bytes_spec(m, addr, count as nat) == Some(v@),
            None => bytes_spec(m, addr, count as nat) is None,
        },
{
    let mut out: Vec<u8> = Vec::new();
    let mut cur: usize = addr;
    let mut left: usize = count;
    proof {
        match bytes_spec(m, addr, count as nat) {
            Some(rest) => {
                assert(out@ + rest =~= rest);
            },
            None => {},
        }
    }
    while left > 0
        invariant
            left <= count,
            out@.len() == count - left,
            ({
                let full = bytes_spec(m, addr, count as nat);
                match bytes_spec(m, cur, left as nat) {
                    Some(rest) => full == Some(out@ + rest),
                    None => full is None,
                }
            }),
        decreases left,
    {
        let ghost cur0 = cur;
        let ghost left0 = left as nat;
        let ghost out0 = out@;
        let b = match m.read_byte(cur) {
            Some(b) => b,
            None => {
                return None;
            },
        };
        if left > 1 {
            cur = match cur.checked_add(1) {
                Some(a) => a,
                None => {
                    return None;
                },
            };
        }
        out.push(b);
        left = left - 1;
        proof {
            if left0 == 1 {
                assert(bytes_spec(m, cur0, left0) == Some(seq![b]));
                assert(out0 + seq![b] =~= out@);
                assert(bytes_spec(m, cur, left as nat) == Some(Seq::<u8>::empty()));
                assert(out@ + Seq::<u8>::empty() =~= out@);
            } else {
                match bytes_spec(m, cur, left as nat) {
                    Some(rest) => {
                        assert(bytes_spec(m, cur0, left0) == Some(seq![b] + rest));
                        assert(out0 + (seq![b] + rest) =~= out@ + rest);
                    },
                    None => {
                        assert(bytes_spec(m, cur0, left0) is None);
                    },
                }
            }
        }
    }
    Some(out)
}

/// Looks an address up in a list of entries; the entry added last wins.
pub open spec fn table_lookup<V>(entries: Seq<(usize, V)>, addr: usize) -> Option<V>
    decreases entries.len(),
{
    if entries.len() == 0 {
        None
    } else if entries.last().0 == addr {
        Some(entries.last().1)
    } else {
        table_lookup(entries.drop_last(), addr)
    }
}

/// An in-memory stand-in for a live process: explicit tables of words,
/// integers, bytes and tempi, keyed by address. Lets the resolver, the
/// snapshot reader and the reconciliation engine run without any
/// external process attached.
pub struct FakeMemory {
    words: Vec<(usize, usize)>,
    ints: Vec<(usize, i32)>,
    bytes: Vec<(usize, u8)>,
    tempos: Vec<(usize, u32)>,
}

fn table_get<V: Copy>(entries: &Vec<(usize, V)>, addr: usize) -> (r: Option<V>)
    ensures
        r == table_lookup(entries@, addr),
{
    let mut i: usize = entries.len();
    proof {
        assert(entries@.take(entries@.len() as int) =~= entries@);
    }
    while i > 0
        invariant
            i <= entries@.len(),
            table_lookup(entries@, addr) == table_lookup(entries@.take(i as int), addr),
        decreases i,
    {
        i = i - 1;
        proof {
            assert(entries@.take(i + 1).last() == entries@[i as int]);
            assert(entries@.take(i + 1).drop_last() =~= entries@.take(i as int));
        }
        let e = entries[i];
        if e.0 == addr {
            return Some(e.1);
        }
    }
    proof {
        assert(entries@.take(0).len() == 0);
    }
    None
}

impl FakeMemory {
    pub fn new() -> (r: FakeMemory)
        ensures
            forall|a: usize| r.word_at(a) is None,
            forall|a: usize| r.int_at(a) is None,
            forall|a: usize| r.byte_at(a) is None,
            forall|a: usize| r.tempo_at(a) is None,
    {
        FakeMemory { words: Vec::new(), ints: Vec::new(), bytes: Vec::new(), tempos: Vec::new() }
    }

    pub fn set_word(&mut self, addr: usize, val: usize)
        ensures
            forall|a: usize|
                final (self).word_at(a) == if a == addr {
                    Some(val)
                } else {
                    old(self).word_at(a)
                },
            forall|a: usize| final (self).int_at(a) == old(self).int_at(a),
            forall|a: usize| final (self).byte_at(a) == old(self).byte_at(a),
            forall|a: usize| final (self).tempo_at(a) == old(self).tempo_at(a),
    {
        self.words.push((addr, val));
        proof {
            assert(self.words@.last() == (addr, val));
            assert(self.words@.drop_last() =~= old(self).words@);
        }
    }

    pub fn set_int(&mut self, addr: usize, val: i32)
        ensures
            forall|a: usize|
                final (self).int_at(a) == if a == addr {
                    Some(val)
                } else {
                    old(self).int_at(a)
                },
            forall|a: usize| final (self).word_at(a) == old(self).word_at(a),
            forall|a: usize| final (self).byte_at(a) == old(self).byte_at(a),
            forall|a: usize| final (self).tempo_at(a) == old(self).tempo_at(a),
    {
        self.ints.push((addr, val));
        proof {
            assert(self.ints@.drop_last() =~= old(self).ints@);
        }
    }

    pub fn set_byte(&mut self, addr: usize, val: u8)
        ensures
            forall|a: usize|
                final (self).byte_at(a) == if a == addr {
                    Some(val)
                } else {
                    old(self).byte_at(a)
                },
            forall|a: usize| final (self).word_at(a) == old(self).word_at(a),
            forall|a: usize| final (self).int_at(a) == old(self).int_at(a),
            forall|a: usize| final (self).tempo_at(a) == old(self).tempo_at(a),
    {
        self.bytes.push((addr, val));
        proof {
            assert(self.bytes@.drop_last() =~= old(self).bytes@);
        }
    }

    pub fn set_tempo(&mut self, addr: usize, val: u32)
        ensures
            forall|a: usize|
                final (self).tempo_at(a) == if a == addr {
                    Some(val)
                } else {
                    old(self).tempo_at(a)
                },
            forall|a: usize| final (self).word_at(a) == old(self).word_at(a),
            forall|a: usize| final (self).int_at(a) == old(self).int_at(a),
            forall|a: usize| final (self).byte_at(a) == old(self).byte_at(a),
    {
        self.tempos.push((addr, val));
        proof {
            assert(self.tempos@.drop_last() =~= old(self).tempos@);
        }
    }
}

impl MemorySource for FakeMemory {
    closed spec fn word_at(&self, addr: usize) -> Option<usize> {
        table_lookup(self.words@, addr)
    }

    closed spec fn int_at(&self, addr: usize) -> Option<i32> {
        table_lookup(self.ints@, addr)
    }

    closed spec fn byte_at(&self, addr: usize) -> Option<u8> {
        table_lookup(self.bytes@, addr)
    }

    closed spec fn tempo_at(&self, addr: usize) -> Option<u32> {
        table_lookup(self.tempos@, addr)
    }

    fn read_word(&self, addr: usize) -> (r: Option<usize>) {
        table_get(&self.words, addr)
    }

    fn read_int(&self, addr: usize) -> (r: Option<i32>) {
        table_get(&self.ints, addr)
    }

    fn read_byte(&self, addr: usize) -> (r: Option<u8>) {
        table_get(&self.bytes, addr)
    }

    fn read_tempo(&self, addr: usize) -> (r: Option<u32>) {
        table_get(&self.tempos, addr)
    }
}

} // verus!
