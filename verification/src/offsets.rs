//! The versioned table of memory offsets: pointer chains, their textual
//! form, and the line-oriented file format they are loaded from.

use vstd::prelude::*;

verus! {

/// A chain of relative byte offsets plus one final offset.
///
/// Resolving a chain performs one pointer dereference per entry of
/// `offsets` (in order) and then adds `final_offset` to the last value
/// read, yielding the absolute address of a tracked field.
pub struct Pointer {
    pub offsets: Vec<usize>,
    pub final_offset: usize,
}

impl Pointer {
    pub fn new(offsets: Vec<usize>, final_offset: usize) -> (r: Pointer)
        ensures
            r.offsets@ == offsets@,
            r.final_offset == final_offset,
    {
        Pointer { offsets, final_offset }
    }
}

/// True when `c` is an ASCII hexadecimal digit.
pub open spec fn is_hex_digit(c: char) -> bool {
    ('0' as int) <= (c as int) <= ('9' as int)
    || ('a' as int) <= (c as int) <= ('f' as int)
    || ('A' as int) <= (c as int) <= ('F' as int)
}

/// Numeric value of a hexadecimal digit (meaningful under `is_hex_digit`).
pub open spec fn hex_digit_value(c: char) -> int {
    if ('0' as int) <= (c as int) <= ('9' as int) {
        c as int - '0' as int
    } else if ('a' as int) <= (c as int) <= ('f' as int) {
        c as int - 'a' as int + 10
    } else {
        c as int - 'A' as int + 10
    }
}

pub open spec fn all_hex_digits(s: Seq<char>) -> bool {
    forall|i: int| 0 <= i < s.len() ==> is_hex_digit(s[i])
}

/// Value of a big-endian string of hexadecimal digits.
pub open spec fn hex_value(s: Seq<char>) -> int
    decreases s.len(),
{
    if s.len() == 0 {
        0
    } else {
        hex_value(s.drop_last()) * 16 + hex_digit_value(s.last())
    }
}

/// The digit portion of a hexadecimal numeral: one optional leading `+`
/// sign is accepted, as in `usize::from_str_radix` with radix 16.
pub open spec fn hex_digits_of(s: Seq<char>) -> Seq<char> {
    if s.len() > 0 && s[0] == '+' {
        s.skip(1)
    } else {
        s
    }
}

/// True when `s` is a well-formed hexadecimal numeral whose value fits
/// in a `usize`.
pub open spec fn is_hex_number(s: Seq<char>) -> bool {
    &&& hex_digits_of(s).len() > 0
    &&& all_hex_digits(hex_digits_of(s))
    &&& hex_value(hex_digits_of(s)) <= usize::MAX
}

proof fn lemma_hex_value_nonneg(s: Seq<char>)
    requires
        all_hex_digits(s),
    ensures
        hex_value(s) >= 0,
    decreases s.len(),
{
    if s.len() > 0 {
        assert(all_hex_digits(s.drop_last()));
        lemma_hex_value_nonneg(s.drop_last());
    }
}

proof fn lemma_hex_value_step(s: Seq<char>, k: int)
    requires
        0 <= k < s.len(),
    ensures
        hex_value(s.take(k + 1)) == hex_value(s.take(k)) * 16 + hex_digit_value(s[k]),
{
    assert(s.take(k + 1).drop_last() =~= s.take(k));
    assert(s.take(k + 1).last() == s[k]);
}

/// Appending digits to a digit string never decreases its value.
proof fn lemma_hex_value_monotone(s: Seq<char>, j: int)
    requires
        all_hex_digits(s),
        0 <= j <= s.len(),
    ensures
        hex_value(s) >= hex_value(s.take(j)),
    decreases s.len() - j,
{
    if j < s.len() {
        lemma_hex_value_step(s, j);
        assert(all_hex_digits(s.take(j))) by {
            assert(forall|i: int| 0 <= i < j ==> s.take(j)[i] == s[i]);
        }
        lemma_hex_value_nonneg(s.take(j));
        assert(hex_value(s.take(j + 1)) >= hex_value(s.take(j)));
        lemma_hex_value_monotone(s, j + 1);
    } else {
        assert(s.take(j) =~= s);
    }
}

/// Classifies one character as a hexadecimal digit and yields its value.
fn hex_digit_val(c: char) -> (r: Option<u8>)
    ensures
        match r {
            Some(v) => is_hex_digit(c) && v == hex_digit_value(c),
            None => !is_hex_digit(c),
        },
{
    let x = c as u32;
    if x >= 48 && x <= 57 {
        Some((x - 48) as u8)
    } else if x >= 97 && x <= 102 {
        Some((x - 97 + 10) as u8)
    } else if x >= 65 && x <= 70 {
        Some((x - 65 + 10) as u8)
    } else {
        None
    }
}

/// Parses a hexadecimal numeral, as `usize::from_str_radix(input, 16)`
/// would: an optional leading `+`, then at least one hexadecimal digit,
/// with a value that fits in `usize`.
pub fn hexparse(input: &str) -> (r: Option<usize>)
    ensures
        r is Some <==> is_hex_number(input@),
        r matches Some(v) ==> v == hex_value(hex_digits_of(input@)),
{
    let n = input.unicode_len();
    let ghost ds = hex_digits_of(input@);
    let start: usize = if n > 0 && input.get_char(0) == '+' {
        1
    } else {
        0
    };
    assert(ds =~= input@.skip(start as int));
    if n == start {
        return None;
    }
    let mut acc: usize = 0;
    let mut i: usize = start;
    while i < n
        invariant
            start <= i <= n,
            n == input@.len(),
            ds == hex_digits_of(input@),
            ds =~= input@.skip(start as int),
            all_hex_digits(ds.take(i - start)),
            acc == hex_value(ds.take(i - start)),
        decreases n - i,
    {
        let c = input.get_char(i);
        assert(ds[i - start] == c);
        let v = match hex_digit_val(c) {
            Some(v) => v,
            None => {
                assert(!is_hex_digit(ds[i - start]));
                return None;
            },
        };
        let ghost k = i - start;
        proof {
            assert forall|j: int| 0 <= j < k + 1 implies is_hex_digit(#[trigger] ds.take(k + 1)[j]) by {
                assert(ds.take(k + 1)[j] == ds[j]);
            }
            lemma_hex_value_step(ds, k);
        }
        let shifted = match acc.checked_mul(16) {
            Some(a) => a,
            None => {
                proof {
                    if all_hex_digits(ds) {
                        lemma_hex_value_monotone(ds, k + 1);
                    }
                }
                return None;
            },
        };
        acc = match shifted.checked_add(v as usize) {
            Some(a) => a,
            None => {
                proof {
                    if all_hex_digits(ds) {
                        lemma_hex_value_monotone(ds, k + 1);
                    }
                }
                return None;
            },
        };
        i = i + 1;
    }
    assert(ds.take(n - start) =~= ds);
    Some(acc)
}

/// Splits a character sequence at every space, as `str::split(' ')`
/// does: the result always holds at least one (possibly empty) part.
pub open spec fn split_spaces(s: Seq<char>) -> Seq<Seq<char>>
    decreases s.len(),
{
    if s.len() == 0 {
        seq![s]
    } else if s[0] == ' ' {
        seq![Seq::<char>::empty()] + split_spaces(s.skip(1))
    } else {
        let rest = split_spaces(s.skip(1));
        rest.update(0, seq![s[0]] + rest[0])
    }
}

/// Glues a pending prefix onto the first part of a split.
spec fn prepend_first(pre: Seq<char>, parts: Seq<Seq<char>>) -> Seq<Seq<char>> {
    parts.update(0, pre + parts[0])
}

proof fn lemma_split_spaces_len(s: Seq<char>)
    ensures
        split_spaces(s).len() >= 1,
    decreases s.len(),
{
    if s.len() > 0 {
        lemma_split_spaces_len(s.skip(1));
    }
}

/// Unfolds `split_spaces` of a suffix one character at a time.
proof fn lemma_split_step(s: Seq<char>, i: int)
    requires
        0 <= i < s.len(),
    ensures
        s[i] == ' ' ==> split_spaces(s.skip(i)) == seq![Seq::<char>::empty()] + split_spaces(
            s.skip(i + 1),
        ),
        s[i] != ' ' ==> split_spaces(s.skip(i)) == ({
            let t = split_spaces(s.skip(i + 1));
            t.update(0, seq![s[i]] + t[0])
        }),
{
    assert(s.skip(i).len() > 0);
    assert(s.skip(i)[0] == s[i]);
    assert(s.skip(i).skip(1) =~= s.skip(i + 1));
}

/// Absorbing one more character into the pending prefix.
proof fn lemma_prepend_merge(pre: Seq<char>, c: char, t: Seq<Seq<char>>)
    requires
        t.len() >= 1,
    ensures
        prepend_first(pre, t.update(0, seq![c] + t[0])) == prepend_first(pre.push(c), t),
{
    let lhs = prepend_first(pre, t.update(0, seq![c] + t[0]));
    let rhs = prepend_first(pre.push(c), t);
    assert(lhs[0] =~= rhs[0]);
    assert(lhs =~~= rhs);
}

/// Flushing the pending prefix at a space, and starting afresh.
proof fn lemma_prepend_flush(pre: Seq<char>, t: Seq<Seq<char>>)
    requires
        t.len() >= 1,
    ensures
        prepend_first(pre, seq![Seq::<char>::empty()] + t) == seq![pre] + prepend_first(
            Seq::<char>::empty(),
            t,
        ),
{
    let lhs = prepend_first(pre, seq![Seq::<char>::empty()] + t);
    let rhs = seq![pre] + prepend_first(Seq::<char>::empty(), t);
    assert(lhs[0] =~= pre);
    assert(rhs[0] == pre);
    assert forall|k: int| 1 <= k < lhs.len() implies lhs[k] =~= rhs[k] by {
        assert(lhs[k] == t[k - 1]);
        if k == 1 {
            assert(rhs[k] == Seq::<char>::empty() + t[0]);
        } else {
            assert(rhs[k] == t[k - 1]);
        }
    }
    assert(lhs =~~= rhs);
}

/// Values of the space-separated hexadecimal numerals on a line.
pub open spec fn token_values(line: Seq<char>) -> Seq<int> {
    split_spaces(line).map_values(|t: Seq<char>| hex_value(hex_digits_of(t)))
}

/// True when every space-separated part of the line is a hexadecimal
/// numeral that fits in `usize`.
pub open spec fn pointer_line_ok(line: Seq<char>) -> bool {
    forall|k: int| 0 <= k < split_spaces(line).len() ==> is_hex_number(#[trigger] split_spaces(line)[k])
}

/// The parsed pointer matches the line: all parts but the last are the
/// dereference offsets, the last part is the final offset.
pub open spec fn pointer_matches(p: Pointer, line: Seq<char>) -> bool {
    let vs = token_values(line);
    &&& p.offsets@.map_values(|x: usize| x as int) == vs.take(vs.len() - 1)
    &&& p.final_offset == vs.last()
}

impl Pointer {
    /// Parses one line of the offset file: space-separated hexadecimal
    /// numerals, all but the last a dereference offset, the last the
    /// final offset.
    pub fn from_string(input: &str) -> (r: Option<Pointer>)
        ensures
            r is Some <==> pointer_line_ok(input@),
            r matches Some(p) ==> pointer_matches(p, input@),
    {
        let ghost parts = split_spaces(input@);
        proof {
            lemma_split_spaces_len(input@);
        }
        let n = input.unicode_len();
        let mut vals: Vec<usize> = Vec::new();
        let mut start: usize = 0;
        let mut i: usize = 0;
        proof {
            assert(parts.skip(0) =~= prepend_first(
                input@.subrange(0, 0),
                split_spaces(input@.skip(0)),
            )) by {
                assert(input@.skip(0) =~= input@);
                assert(input@.subrange(0, 0) =~= Seq::<char>::empty());
                assert(Seq::<char>::empty() + parts[0] =~= parts[0]);
                assert(parts.update(0, parts[0]) =~= parts);
            }
        }
        while i < n
            invariant
                0 <= start as int <= i <= n,
                n == input@.len(),
                parts == split_spaces(input@),
                parts.len() >= 1,
                vals@.len() < parts.len(),
                forall|k: int| 0 <= k < vals@.len() ==> is_hex_number(#[trigger] parts[k]),
                forall|k: int|
                    0 <= k < vals@.len() ==> vals@[k] == hex_value(hex_digits_of(#[trigger] parts[k])),
                parts.skip(vals@.len() as int) =~= prepend_first(
                    input@.subrange(start as int, i as int),
                    split_spaces(input@.skip(i as int)),
                ),
            decreases n - i,
        {
            let c = input.get_char(i);
            let ghost rem = input@.skip(i as int);
            let ghost cur = input@.subrange(start as int, i as int);
            let ghost tail = split_spaces(input@.skip(i + 1));
            proof {
                assert(rem[0] == c);
                lemma_split_spaces_len(input@.skip(i + 1));
                lemma_split_step(input@, i as int);
            }
            if c == ' ' {
                proof {
                    lemma_prepend_flush(cur, tail);
                    assert(parts.skip(vals@.len() as int) == seq![cur] + prepend_first(
                        Seq::<char>::empty(),
                        tail,
                    ));
                    assert((seq![cur] + prepend_first(Seq::<char>::empty(), tail))[0] == cur);
                    assert(parts.skip(vals@.len() as int)[0] == parts[vals@.len() as int]);
                    assert(parts[vals@.len() as int] == cur);
                }
                let tok = input.substring_char(start, i);
                assert(tok@ == cur);
                match hexparse(tok) {
                    None => {
                        assert(!is_hex_number(parts[vals@.len() as int]));
                        return None;
                    },
                    Some(v) => {
                        vals.push(v);
                    },
                }
                start = i + 1;
                proof {
                    let l = vals@.len() as int;
                    assert(parts.skip(l) =~= (seq![cur] + prepend_first(
                        Seq::<char>::empty(),
                        tail,
                    )).skip(1));
                    assert((seq![cur] + prepend_first(Seq::<char>::empty(), tail)).skip(1)
                        =~= prepend_first(Seq::<char>::empty(), tail));
                    assert(input@.subrange(start as int, (i + 1) as int)
                        =~= Seq::<char>::empty());
                    assert(parts.skip(l) =~= prepend_first(
                        input@.subrange(start as int, (i + 1) as int),
                        split_spaces(input@.skip(i + 1)),
                    ));
                }
            } else {
                proof {
                    let l = vals@.len() as int;
                    lemma_prepend_merge(cur, c, tail);
                    assert(parts.skip(l) == prepend_first(cur.push(c), tail));
                    assert(input@.subrange(start as int, (i + 1) as int) =~= cur.push(c));
                    assert(parts.skip(l) =~= prepend_first(
                        input@.subrange(start as int, (i + 1) as int),
                        split_spaces(input@.skip(i + 1)),
                    ));
                }
            }
            i = i + 1;
        }
        // Final token: everything from `start` to the end of the line.
        let ghost cur = input@.subrange(start as int, n as int);
        proof {
            assert(input@.skip(n as int).len() == 0);
            assert(split_spaces(input@.skip(n as int)) == seq![input@.skip(n as int)]);
            assert(parts.skip(vals@.len() as int)[0] == cur + input@.skip(n as int));
            assert(cur + input@.skip(n as int) =~= cur);
            assert(parts[vals@.len() as int] == cur);
            assert(parts.skip(vals@.len() as int).len() == 1);
            assert(parts.len() == vals@.len() + 1);
        }
        let tok = input.substring_char(start, n);
        assert(tok@ == cur);
        let fin = match hexparse(tok) {
            None => {
                assert(!is_hex_number(parts[vals@.len() as int]));
                return None;
            },
            Some(v) => v,
        };
        let r = Pointer { offsets: vals, final_offset: fin };
        proof {
            assert forall|k: int| 0 <= k < parts.len() implies is_hex_number(#[trigger] parts[k]) by {
                if k == vals@.len() as int {
                    assert(parts[k] == cur);
                }
            }
            let vs = token_values(input@);
            assert(vs.len() == parts.len());
            assert(r.offsets@.map_values(|x: usize| x as int) =~= vs.take(vs.len() - 1));
            assert(vs.last() == hex_value(hex_digits_of(parts.last())));
        }
        Some(r)
    }
}

/// One version's table of pointer chains, one per tracked field.
pub struct RekordboxOffsets {
    pub rbversion: String,
    pub deck1bar: Pointer,
    pub deck1beat: Pointer,
    pub deck2bar: Pointer,
    pub deck2beat: Pointer,
    pub master_bpm: Pointer,
    pub masterdeck_index: Pointer,
    pub deck1_track_id: Pointer,
    pub deck2_track_id: Pointer,
    pub api_bearer: Pointer,
    pub deck1_time: Pointer,
    pub deck2_time: Pointer,
}

/// A block of the offset file describes one version: a version tag
/// followed by eleven pointer lines.
pub open spec fn offsets_lines_ok(lines: Seq<Seq<char>>) -> bool {
    &&& lines.len() >= 12
    &&& forall|k: int| 1 <= k < 12 ==> pointer_line_ok(#[trigger] lines[k])
}

/// The parsed table matches the block's twelve leading lines.
pub open spec fn offsets_match(o: RekordboxOffsets, lines: Seq<Seq<char>>) -> bool {
    &&& o.rbversion@ == lines[0]
    &&& pointer_matches(o.deck1bar, lines[1])
    &&& pointer_matches(o.deck1beat, lines[2])
    &&& pointer_matches(o.deck2bar, lines[3])
    &&& pointer_matches(o.deck2beat, lines[4])
    &&& pointer_matches(o.master_bpm, lines[5])
    &&& pointer_matches(o.masterdeck_index, lines[6])
    &&& pointer_matches(o.deck1_track_id, lines[7])
    &&& pointer_matches(o.deck2_track_id, lines[8])
    &&& pointer_matches(o.api_bearer, lines[9])
    &&& pointer_matches(o.deck1_time, lines[10])
    &&& pointer_matches(o.deck2_time, lines[11])
}

impl RekordboxOffsets {
    /// Parses one block of the offset file: the version tag, then the
    /// eleven pointer lines, in a fixed order. Lines beyond the twelfth
    /// are ignored.
    pub fn from_lines(lines: &[String]) -> (r: Option<RekordboxOffsets>)
        ensures
            r is Some <==> offsets_lines_ok(lines.deep_view()),
            r matches Some(o) ==> offsets_match(o, lines.deep_view()),
    {
        proof {
            assert forall|k: int| 0 <= k < lines@.len() implies #[trigger] lines.deep_view()[k]
                == lines@[k]@ by {
            }
        }
        if lines.len() < 12 {
            return None;
        }
        let rbversion = lines[0].clone();
        let deck1bar = match Pointer::from_string(lines[1].as_str()) {
            Some(p) => p,
            None => {
                assert(lines.deep_view()[1] == lines@[1]@);
                return None;
            },
        };
        let deck1beat = match Pointer::from_string(lines[2].as_str()) {
            Some(p) => p,
            None => {
                assert(lines.deep_view()[2] == lines@[2]@);
                return None;
            },
        };
        let deck2bar = match Pointer::from_string(lines[3].as_str()) {
            Some(p) => p,
            None => {
                assert(lines.deep_view()[3] == lines@[3]@);
                return None;
            },
        };
        let deck2beat = match Pointer::from_string(lines[4].as_str()) {
            Some(p) => p,
            None => {
                assert(lines.deep_view()[4] == lines@[4]@);
                return None;
            },
        };
        let master_bpm = match Pointer::from_string(lines[5].as_str()) {
            Some(p) => p,
            None => {
                assert(lines.deep_view()[5] == lines@[5]@);
                return None;
            },
        };
        let masterdeck_index = match Pointer::from_string(lines[6].as_str()) {
            Some(p) => p,
            None => {
                assert(lines.deep_view()[6] == lines@[6]@);
                return None;
            },
        };
        let deck1_track_id = match Pointer::from_string(lines[7].as_str()) {
            Some(p) => p,
            None => {
                assert(lines.deep_view()[7] == lines@[7]@);
                return None;
            },
        };
        let deck2_track_id = match Pointer::from_string(lines[8].as_str()) {
            Some(p) => p,
            None => {
                assert(lines.deep_view()[8] == lines@[8]@);
                return None;
            },
        };
        let api_bearer = match Pointer::from_string(lines[9].as_str()) {
            Some(p) => p,
            None => {
                assert(lines.deep_view()[9] == lines@[9]@);
                return None;
            },
        };
        let deck1_time = match Pointer::from_string(lines[10].as_str()) {
            Some(p) => p,
            None => {
                assert(lines.deep_view()[10] == lines@[10]@);
                return None;
            },
        };
        let deck2_time = match Pointer::from_string(lines[11].as_str()) {
            Some(p) => p,
            None => {
                assert(lines.deep_view()[11] == lines@[11]@);
                return None;
            },
        };
        Some(RekordboxOffsets {
            rbversion,
            deck1bar,
            deck1beat,
            deck2bar,
            deck2beat,
            master_bpm,
            masterdeck_index,
            deck1_track_id,
            deck2_track_id,
            api_bearer,
            deck1_time,
            deck2_time,
        })
    }
}

/// A comment line of the offset file starts with `#`.
pub open spec fn is_comment_line(l: Seq<char>) -> bool {
    l.len() > 0 && l[0] == '#'
}

/// Groups the lines of the offset file into version blocks: blank lines
/// end a block, comment lines are skipped, and lines after the last
/// blank line do not form a block.
pub open spec fn offset_groups(lines: Seq<Seq<char>>, cur: Seq<Seq<char>>) -> Seq<Seq<Seq<char>>>
    decreases lines.len(),
{
    if lines.len() == 0 {
        Seq::empty()
    } else if lines[0].len() == 0 {
        if cur.len() > 0 {
            seq![cur] + offset_groups(lines.skip(1), Seq::empty())
        } else {
            offset_groups(lines.skip(1), Seq::empty())
        }
    } else if is_comment_line(lines[0]) {
        offset_groups(lines.skip(1), cur)
    } else {
        offset_groups(lines.skip(1), cur.push(lines[0]))
    }
}

impl RekordboxOffsets {
    /// Parses the whole offset file, already split into lines: one
    /// table per version block, in file order.
    pub fn from_file_lines(lines: &[String]) -> (r: Option<Vec<RekordboxOffsets>>)
        ensures
            ({
                let gs = offset_groups(lines.deep_view(), Seq::empty());
                &&& r is Some <==> (forall|k: int|
                    0 <= k < gs.len() ==> offsets_lines_ok(#[trigger] gs[k]))
                &&& r matches Some(ts) ==> ts@.len() == gs.len() && (forall|k: int|
                    0 <= k < gs.len() ==> offsets_match(ts@[k], #[trigger] gs[k]))
            }),
    {
        let ghost all = lines.deep_view();
        let ghost gs = offset_groups(all, Seq::empty());
        let mut tables: Vec<RekordboxOffsets> = Vec::new();
        let mut group: Vec<String> = Vec::new();
        let mut i: usize = 0;
        proof {
            assert(all.skip(0) =~= all);
            assert(group.deep_view() =~= Seq::<Seq<char>>::empty());
            assert(gs.take(0) =~= Seq::<Seq<Seq<char>>>::empty());
            assert(gs =~= gs.take(0) + offset_groups(all.skip(0), group.deep_view()));
        }
        while i < lines.len()
            invariant
                0 <= i <= lines.len(),
                all == lines.deep_view(),
                all.len() == lines@.len(),
                gs == offset_groups(all, Seq::empty()),
                gs =~= offset_groups(all, Seq::empty()).take(tables@.len() as int)
                    + offset_groups(all.skip(i as int), group.deep_view()),
                tables@.len() <= gs.len(),
                forall|k: int| 0 <= k < tables@.len() ==> offsets_lines_ok(#[trigger] gs[k]),
                forall|k: int|
                    0 <= k < tables@.len() ==> offsets_match(tables@[k], #[trigger] gs[k]),
            decreases lines.len() - i,
        {
            proof {
                assert(all[i as int] == lines@[i as int]@);
            }
            let line = &lines[i];
            let ghost rest = all.skip(i as int);
            proof {
                assert(rest[0] == all[i as int]);
                assert(rest.skip(1) =~= all.skip(i + 1));
            }
            if line.as_str().is_empty() {
                if group.len() > 0 {
                    proof {
                        assert(offset_groups(rest, group.deep_view()) == seq![group.deep_view()]
                            + offset_groups(all.skip(i + 1), Seq::empty()));
                        assert(gs[tables@.len() as int] == group.deep_view());
                    }
                    let table = match RekordboxOffsets::from_lines(group.as_slice()) {
                        Some(t) => t,
                        None => {
                            assert(!offsets_lines_ok(gs[tables@.len() as int]));
                            return None;
                        },
                    };
                    tables.push(table);
                    group = Vec::new();
                    proof {
                        assert(group.deep_view() =~= Seq::<Seq<char>>::empty());
                        assert(gs =~= gs.take(tables@.len() as int) + offset_groups(
                            all.skip(i + 1),
                            Seq::empty(),
                        ));
                    }
                } else {
                    proof {
                        assert(group.deep_view() =~= Seq::<Seq<char>>::empty());
                        assert(offset_groups(rest, group.deep_view()) == offset_groups(
                            all.skip(i + 1),
                            Seq::empty(),
                        ));
                    }
                }
            } else if line.as_str().get_char(0) == '#' {
                proof {
                    assert(is_comment_line(rest[0]));
                    assert(offset_groups(rest, group.deep_view()) == offset_groups(
                        all.skip(i + 1),
                        group.deep_view(),
                    ));
                }
            } else {
                let ghost g0 = group.deep_view();
                group.push(line.clone());
                proof {
                    assert(group.deep_view() =~= g0.push(rest[0]));
                    assert(offset_groups(rest, g0) == offset_groups(
                        all.skip(i + 1),
                        g0.push(rest[0]),
                    ));
                }
            }
            i = i + 1;
        }
        proof {
            assert(all.skip(i as int).len() == 0);
            assert(offset_groups(all.skip(i as int), group.deep_view()) == Seq::<Seq<Seq<char>>>::empty());
            assert(gs =~= gs.take(tables@.len() as int));
            assert(gs.len() == tables@.len());
        }
        Some(tables)
    }
}

/// Finds the table for a version tag. When several blocks carry the
/// same tag, the one latest in the file wins, as repeated insertion
/// into a keyed map would have it.
pub fn get_version<'a>(tables: &'a Vec<RekordboxOffsets>, version: &str) -> (r: Option<
    &'a RekordboxOffsets,
>)
    ensures
        match r {
            Some(t) => exists|k: int|
                0 <= k < tables@.len() && *t == tables@[k] && tables@[k].rbversion@ == version@
                    && (forall|j: int|
                    k < j < tables@.len() ==> (#[trigger] tables@[j]).rbversion@ != version@),
            None => forall|k: int|
                0 <= k < tables@.len() ==> (#[trigger] tables@[k]).rbversion@ != version@,
        },
{
    let wanted: String = version.to_owned();
    let mut i: usize = tables.len();
    while i > 0
        invariant
            0 <= i <= tables@.len(),
            wanted@ == version@,
            forall|j: int|
                i <= j < tables@.len() ==> (#[trigger] tables@[j]).rbversion@ != version@,
        decreases i,
    {
        i = i - 1;
        if tables[i].rbversion == wanted {
            return Some(&tables[i]);
        }
    }
    None
}

} // verus!
