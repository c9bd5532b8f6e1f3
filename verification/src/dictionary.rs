use vstd::prelude::*;
use vstd::string::*;

use crate::arena::{bytes_seq, capture_bytes, span_score, span_score_spec, span_to_string, RawSpan};
use crate::catalog::{phrase, phrase_spec};
use crate::cursor::{le_u16, Cursor};
use crate::error::{eof_error, DecodeError, Result};
use crate::ops::{run_ops, skip_op, skip_unknown, step_result, OpStep};
use crate::text::{lossy_text, strings_seq, utf8_lossy};

verus! {

/// The most entries a dictionary holds.
pub const MAX_ENTRIES: usize = 4096;

/// An alias: a name for an entry, with a copy of the entry taken when the alias was made.
#[derive(Clone, Debug)]
pub struct AliasRecord {
    pub id: u16,
    pub target: usize,
    pub span: RawSpan,
    pub generation: u32,
    pub weight: u8,
}

/// What an alias holds.
pub struct AliasModel {
    pub id: u16,
    pub target: usize,
    pub span: Seq<u8>,
    pub generation: u32,
    pub weight: u8,
}

impl View for AliasRecord {
    type V = AliasModel;

    open spec fn view(&self) -> AliasModel {
        AliasModel {
            id: self.id,
            target: self.target,
            span: self.span@,
            generation: self.generation,
            weight: self.weight,
        }
    }
}

/// The models of a sequence of aliases.
pub open spec fn aliases_seq(v: Seq<AliasRecord>) -> Seq<AliasModel> {
    v.map_values(|a: AliasRecord| a@)
}

/// A dictionary of byte entries with aliases, compacted by generations.
#[derive(Clone, Debug)]
pub struct Dictionary {
    entries: Vec<Vec<u8>>,
    aliases: Vec<AliasRecord>,
    generation: u32,
    resolved_log: Vec<String>,
}

/// What a dictionary holds.
pub struct DictModel {
    pub entries: Seq<Seq<u8>>,
    pub aliases: Seq<AliasModel>,
    pub generation: u32,
    pub resolved_log: Seq<Seq<char>>,
}

impl View for Dictionary {
    type V = DictModel;

    closed spec fn view(&self) -> DictModel {
        DictModel {
            entries: bytes_seq(self.entries@),
            aliases: aliases_seq(self.aliases@),
            generation: self.generation,
            resolved_log: strings_seq(self.resolved_log@),
        }
    }
}

/// The empty dictionary.
pub open spec fn empty_dict() -> DictModel {
    DictModel {
        entries: Seq::empty(),
        aliases: Seq::empty(),
        generation: 0,
        resolved_log: Seq::empty(),
    }
}

/// Adding an entry: it is appended while fewer than `MAX_ENTRIES` are held.
pub open spec fn dict_add_entry(m: DictModel, v: Seq<u8>) -> DictModel {
    if m.entries.len() < MAX_ENTRIES {
        DictModel { entries: m.entries.push(v), ..m }
    } else {
        m
    }
}

/// Adding an alias: with no entry nothing happens; otherwise the alias names the entry at
/// `target` modulo the number of entries, and keeps a copy of it and the current generation.
pub open spec fn dict_add_alias(m: DictModel, id: u16, target: int, weight: u8) -> DictModel {
    if m.entries.len() == 0 {
        m
    } else {
        let idx = target % (m.entries.len() as int);
        DictModel {
            aliases: m.aliases.push(
                AliasModel {
                    id,
                    target: idx as usize,
                    span: m.entries[idx],
                    generation: m.generation,
                    weight,
                },
            ),
            ..m
        }
    }
}

/// ASCII letters made upper case, other bytes kept.
pub open spec fn ascii_upper(s: Seq<u8>) -> Seq<u8> {
    s.map_values(|b: u8| if 0x61 <= b <= 0x7a { (b - 0x20) as u8 } else { b })
}

/// Whether compaction with `selector` keeps the entry `e` at `i`: the entries of the parity
/// that the selector's low bit names (even for 0), and every entry shorter than four bytes.
pub open spec fn kept_by(selector: u8, i: int, e: Seq<u8>) -> bool {
    ((i % 2 == 0) == (selector & 1 == 0)) || e.len() < 4
}

/// The entries among the first `n` that compaction keeps, upper-cased when the selector
/// has bit `0x20`.
pub open spec fn kept_entries(entries: Seq<Seq<u8>>, selector: u8, n: int) -> Seq<Seq<u8>>
    decreases n,
{
    if n <= 0 {
        Seq::empty()
    } else {
        let prev = kept_entries(entries, selector, n - 1);
        let e = entries[n - 1];
        if kept_by(selector, n - 1, e) {
            prev.push(
                if selector & 0x20 != 0 {
                    ascii_upper(e)
                } else {
                    e
                },
            )
        } else {
            prev
        }
    }
}

/// The ASCII decimal digits of `v`.
pub open spec fn decimal_u8(v: u8) -> Seq<u8> {
    if v >= 100 {
        seq![(0x30 + v / 100) as u8, (0x30 + (v / 10) % 10) as u8, (0x30 + v % 10) as u8]
    } else if v >= 10 {
        seq![(0x30 + v / 10) as u8, (0x30 + v % 10) as u8]
    } else {
        seq![(0x30 + v) as u8]
    }
}

/// The entry that compaction leaves when it keeps none: `fallback-` and the selector in
/// decimal.
pub open spec fn fallback_entry(selector: u8) -> Seq<u8> {
    seq![0x66u8, 0x61, 0x6c, 0x6c, 0x62, 0x61, 0x63, 0x6b, 0x2d] + decimal_u8(selector)
}

/// Compaction: a new generation, and the kept entries (or the fallback entry).
pub open spec fn dict_compact(m: DictModel, selector: u8) -> DictModel {
    let fresh = kept_entries(m.entries, selector, m.entries.len() as int);
    DictModel {
        entries: if fresh.len() == 0 {
            seq![fallback_entry(selector)]
        } else {
            fresh
        },
        generation: m.generation.wrapping_add(1),
        ..m
    }
}

/// The latest of the first `n` aliases with the id `id`.
pub open spec fn last_alias(aliases: Seq<AliasModel>, id: u16, n: int) -> Option<AliasModel>
    decreases n,
{
    if n <= 0 {
        None
    } else if aliases[n - 1].id == id {
        Some(aliases[n - 1])
    } else {
        last_alias(aliases, id, n - 1)
    }
}

/// The entry at `idx` modulo the number of entries, if there is one.
pub open spec fn entry_at(m: DictModel, idx: int) -> Option<Seq<u8>> {
    if m.entries.len() == 0 {
        None
    } else {
        Some(m.entries[idx % (m.entries.len() as int)])
    }
}

/// The bytes that alias `id` stands for: those of the entry it names, except for an alias of
/// an older generation with an odd weight, which stands for the copy it kept.
pub open spec fn resolve_bytes(m: DictModel, id: u16) -> Option<Seq<u8>> {
    match last_alias(m.aliases, id, m.aliases.len() as int) {
        None => None,
        Some(a) => if a.generation != m.generation && a.weight & 1 == 1 {
            Some(a.span)
        } else {
            entry_at(m, a.target as int)
        },
    }
}

/// The text that alias `id` stands for.
pub open spec fn resolve_text(m: DictModel, id: u16) -> Option<Seq<char>> {
    match resolve_bytes(m, id) {
        Some(b) => Some(utf8_lossy(b)),
        None => None,
    }
}

/// The audit score of the first `n` aliases: a stale alias (older generation) with weight bit
/// `0x4` mixes in the score of its copy by exclusive or; any other adds its id and weight,
/// wrapping.
pub open spec fn audit_prefix(m: DictModel, n: int) -> u64
    decreases n,
{
    if n <= 0 {
        0
    } else {
        let s = audit_prefix(m, n - 1);
        let a = m.aliases[n - 1];
        if a.generation != m.generation && a.weight & 4 != 0 {
            s ^ span_score_spec(a.span)
        } else {
            s.wrapping_add((a.id + a.weight) as u64)
        }
    }
}

/// The error that a read of `width` bytes at `q` gives when the input ends before.
pub open spec fn short(d: Seq<u8>, q: int, width: int) -> bool {
    q + width > d.len()
}

/// One dictionary operation at `p`:
/// `0x01` adds an entry (a length byte and the bytes), `0x02` adds an alias (id, target byte,
/// weight), `0x03` compacts with a selector byte, `0x04` logs the text of an alias,
/// `0x05` empties the entries and opens a new generation, `0x06` adds the catalog phrase of
/// a 16-bit seed, `0x07` adds the catalog phrase of a seed and an alias of it; any other
/// opcode skips up to 15 bytes.
pub open spec fn dict_op(m: DictModel, d: Seq<u8>, p: int) -> (DictModel, Result<int>) {
    let op = d[p];
    let q = p + 1;
    if op == 0x01 {
        if short(d, q, 1) {
            (m, Err(eof_error(q)))
        } else if short(d, q + 1, d[q] as int) {
            (m, Err(eof_error(q + 1)))
        } else {
            (dict_add_entry(m, d.subrange(q + 1, q + 1 + d[q])), Ok(q + 1 + d[q]))
        }
    } else if op == 0x02 {
        if short(d, q, 2) {
            (m, Err(eof_error(q)))
        } else if short(d, q + 2, 1) {
            (m, Err(eof_error(q + 2)))
        } else if short(d, q + 3, 1) {
            (m, Err(eof_error(q + 3)))
        } else {
            (dict_add_alias(m, le_u16(d, q), d[q + 2] as int, d[q + 3]), Ok(q + 4))
        }
    } else if op == 0x03 {
        if short(d, q, 1) {
            (m, Err(eof_error(q)))
        } else {
            (dict_compact(m, d[q]), Ok(q + 1))
        }
    } else if op == 0x04 {
        if short(d, q, 2) {
            (m, Err(eof_error(q)))
        } else {
            match resolve_text(m, le_u16(d, q)) {
                Some(t) => (DictModel { resolved_log: m.resolved_log.push(t), ..m }, Ok(q + 2)),
                None => (m, Ok(q + 2)),
            }
        }
    } else if op == 0x05 {
        (DictModel { entries: Seq::empty(), generation: m.generation.wrapping_add(1), ..m }, Ok(q))
    } else if op == 0x06 {
        if short(d, q, 2) {
            (m, Err(eof_error(q)))
        } else {
            (dict_add_entry(m, phrase_spec(le_u16(d, q) as u32).spec_bytes()), Ok(q + 2))
        }
    } else if op == 0x07 {
        if short(d, q, 2) {
            (m, Err(eof_error(q)))
        } else if short(d, q + 2, 2) {
            (m, Err(eof_error(q + 2)))
        } else {
            let seed = le_u16(d, q + 2);
            let m1 = dict_add_entry(m, phrase_spec(seed as u32).spec_bytes());
            let last = if m1.entries.len() == 0 {
                0
            } else {
                m1.entries.len() - 1
            };
            (dict_add_alias(m1, le_u16(d, q), last, (seed % 256) as u8), Ok(q + 4))
        }
    } else {
        (m, Ok(skip_unknown(d, p, 16)))
    }
}

/// The dictionary operation step.
pub open spec fn dict_step() -> OpStep<DictModel> {
    |m: DictModel, d: Seq<u8>, p: int| dict_op(m, d, p)
}

/// Running dictionary operations on `m`.
pub open spec fn dict_run(m: DictModel, d: Seq<u8>) -> (DictModel, Result<()>) {
    run_ops(dict_step(), m, d, 0)
}

impl Dictionary {
    pub fn new() -> (d: Self)
        ensures
            d@ == empty_dict(),
    {
        let d = Dictionary {
            entries: Vec::new(),
            aliases: Vec::new(),
            generation: 0,
            resolved_log: Vec::new(),
        };
        assert(d@.entries == Seq::<Seq<u8>>::empty());
        assert(d@.aliases == Seq::<AliasModel>::empty());
        assert(d@.resolved_log == Seq::<Seq<char>>::empty());
        d
    }

    pub fn len(&self) -> (n: usize)
        ensures
            n == self@.entries.len(),
    {
        self.entries.len()
    }

    pub fn add_entry(&mut self, value: &[u8])
        ensures
            final(self)@ == dict_add_entry(old(self)@, value@),
    {
        if self.entries.len() < MAX_ENTRIES {
            let v = capture_bytes(value).bytes;
            self.entries.push(v);
            assert(self@.entries == old(self)@.entries.push(value@));
        }
    }

    pub fn add_catalog_entry(&mut self, seed: usize)
        ensures
            final(self)@ == dict_add_entry(old(self)@, phrase_spec(seed as u32).spec_bytes()),
    {
        let text = phrase(seed as u32);
        self.add_entry(text.as_bytes());
    }

    pub fn add_alias(&mut self, id: u16, target: usize, weight: u8)
        ensures
            final(self)@ == dict_add_alias(old(self)@, id, target as int, weight),
    {
        if self.entries.len() == 0 {
            return;
        }
        let idx = target % self.entries.len();
        let span = capture_bytes(self.entries[idx].as_slice());
        let rec = AliasRecord { id, target: idx, span, generation: self.generation, weight };
        self.aliases.push(rec);
        assert(self@.aliases == old(self)@.aliases.push(rec@));
    }

    pub fn compact_for_locale(&mut self, selector: u8)
        ensures
            final(self)@ == dict_compact(old(self)@, selector),
    {
        self.generation = self.generation.wrapping_add(1);
        let keep_even = selector & 1 == 0;
        let mut fresh: Vec<Vec<u8>> = Vec::new();
        let mut idx: usize = 0;
        let ghost entries = old(self)@.entries;
        while idx < self.entries.len()
            invariant
                entries == bytes_seq(self.entries@),
                0 <= idx <= self.entries@.len(),
                keep_even == (selector & 1 == 0),
                bytes_seq(fresh@) == kept_entries(entries, selector, idx as int),
            decreases self.entries@.len() - idx,
        {
            let entry = &self.entries[idx];
            let ghost before = fresh@;
            if (idx % 2 == 0) == keep_even || entry.len() < 4 {
                let next = if selector & 0x20 != 0 {
                    ascii_uppercase(entry)
                } else {
                    capture_bytes(entry.as_slice()).bytes
                };
                fresh.push(next);
                assert(bytes_seq(fresh@) == bytes_seq(before).push(next@));
            }
            idx = idx + 1;
        }
        if fresh.len() == 0 {
            let fb = fallback_bytes(selector);
            fresh.push(fb);
            assert(bytes_seq(fresh@) == seq![fallback_entry(selector)]);
        }
        self.entries = fresh;
    }

    pub fn resolve_alias_text(&self, id: u16) -> (r: Option<String>)
        ensures
            match r {
                Some(s) => resolve_text(self@, id) == Some(s@),
                None => resolve_text(self@, id) is None,
            },
    {
        let mut i = self.aliases.len();
        while i > 0
            invariant
                0 <= i <= self.aliases@.len(),
                last_alias(self@.aliases, id, self@.aliases.len() as int) == last_alias(
                    self@.aliases,
                    id,
                    i as int,
                ),
            decreases i,
        {
            let alias = &self.aliases[i - 1];
            if alias.id == id {
                assert(self@.aliases[i - 1] == alias@);
                if alias.generation != self.generation && alias.weight & 1 == 1 {
                    return Some(span_to_string(&alias.span));
                }
                return match self.entry_at(alias.target) {
                    Some(v) => Some(lossy_text(v)),
                    None => None,
                };
            }
            i = i - 1;
        }
        None
    }

    fn entry_at(&self, idx: usize) -> (r: Option<&[u8]>)
        ensures
            match r {
                Some(v) => entry_at(self@, idx as int) == Some(v@),
                None => entry_at(self@, idx as int) is None,
            },
    {
        let len = self.entries.len();
        if len == 0 {
            return None;
        }
        Some(self.entries[idx % len].as_slice())
    }

    /// The audit score of the aliases (see `audit_prefix`); the dictionary is left as it is.
    pub fn audit_aliases(&mut self) -> (score: u64)
        ensures
            final(self)@ == old(self)@,
            score == audit_prefix(old(self)@, old(self)@.aliases.len() as int),
    {
        self.audit_score()
    }

    pub(crate) fn audit_score(&self) -> (score: u64)
        ensures
            score == audit_prefix(self@, self@.aliases.len() as int),
    {
        let mut score: u64 = 0;
        let mut i: usize = 0;
        while i < self.aliases.len()
            invariant
                0 <= i <= self.aliases@.len(),
                score == audit_prefix(self@, i as int),
            decreases self.aliases@.len() - i,
        {
            let alias = &self.aliases[i];
            assert(self@.aliases[i as int] == alias@);
            if alias.generation != self.generation && alias.weight & 0x4 != 0 {
                score = score ^ span_score(&alias.span);
            } else {
                score = score.wrapping_add(alias.id as u64 + alias.weight as u64);
            }
            i = i + 1;
        }
        score
    }

    pub fn sample(&self, idx: usize) -> (r: Option<&[u8]>)
        ensures
            match r {
                Some(v) => entry_at(self@, idx as int) == Some(v@),
                None => entry_at(self@, idx as int) is None,
            },
    {
        self.entry_at(idx)
    }

    /// Runs one operation whose opcode is the next byte of `c`.
    fn apply_op(&mut self, c: &mut Cursor) -> (r: Result<()>)
        requires
            old(c).wf(),
            old(c).pos() < old(c).bytes().len(),
        ensures
            final(c).bytes() == old(c).bytes(),
            final(c).wf(),
            step_result(final(self)@, r, final(c).pos(), dict_op(old(self)@, old(c).bytes(), old(c).pos())),
    {
        let ghost d = c.bytes();
        let op = c.u8()?;
        if op == 0x01 {
            let text = c.take_len8()?;
            self.add_entry(text);
        } else if op == 0x02 {
            let id = c.u16()?;
            let target = c.u8()? as usize;
            let weight = c.u8()?;
            self.add_alias(id, target, weight);
        } else if op == 0x03 {
            let selector = c.u8()?;
            self.compact_for_locale(selector);
        } else if op == 0x04 {
            let id = c.u16()?;
            match self.resolve_alias_text(id) {
                Some(text) => {
                    let ghost before = self.resolved_log@;
                    self.resolved_log.push(text);
                    assert(strings_seq(self.resolved_log@) == strings_seq(before).push(text@));
                },
                None => {},
            }
        } else if op == 0x05 {
            self.entries = Vec::new();
            self.generation = self.generation.wrapping_add(1);
            assert(self@.entries == Seq::<Seq<u8>>::empty());
        } else if op == 0x06 {
            let seed = c.u16()? as usize;
            self.add_catalog_entry(seed);
        } else if op == 0x07 {
            let id = c.u16()?;
            let seed16 = c.u16()?;
            let seed = seed16 as usize;
            assert(seed16 & 0xff == seed16 % 256) by (bit_vector);
            self.add_catalog_entry(seed);
            let last = self.entries.len().saturating_sub(1);
            self.add_alias(id, last, (seed16 & 0xff) as u8);
        } else {
            skip_op(c, op, 16);
        }
        Ok(())
    }

    pub fn parse_ops(&mut self, payload: &[u8]) -> (r: Result<()>)
        ensures
            (final(self)@, r) == run_ops(dict_step(), old(self)@, payload@, 0),
    {
        let mut c = Cursor::new(payload);
        while !c.is_empty()
            invariant
                c.bytes() == payload@,
                c.wf(),
                run_ops(dict_step(), self@, payload@, c.pos()) == run_ops(
                    dict_step(),
                    old(self)@,
                    payload@,
                    0,
                ),
            decreases payload@.len() - c.pos(),
        {
            let ghost p = c.pos();
            let ghost m = self@;
            let r = self.apply_op(&mut c);
            assert(dict_step()(m, payload@, p) == dict_op(m, payload@, p));
            if r.is_err() {
                return r;
            }
        }
        Ok(())
    }
}

/// A copy of `entry` with ASCII letters upper-cased.
fn ascii_uppercase(entry: &Vec<u8>) -> (out: Vec<u8>)
    ensures
        out@ == ascii_upper(entry@),
{
    let mut out: Vec<u8> = Vec::new();
    let mut i: usize = 0;
    while i < entry.len()
        invariant
            0 <= i <= entry@.len(),
            out@ == ascii_upper(entry@.take(i as int)),
        decreases entry@.len() - i,
    {
        let b = entry[i];
        let u = if 0x61 <= b && b <= 0x7a {
            b - 0x20
        } else {
            b
        };
        out.push(u);
        i = i + 1;
        assert(ascii_upper(entry@.take(i as int)) == ascii_upper(entry@.take((i - 1) as int)).push(u));
    }
    assert(entry@.take(entry@.len() as int) == entry@);
    out
}

/// The bytes of `fallback-` and `selector` in decimal.
fn fallback_bytes(selector: u8) -> (out: Vec<u8>)
    ensures
        out@ == fallback_entry(selector),
{
    let mut out: Vec<u8> = Vec::new();
    out.push(0x66);
    out.push(0x61);
    out.push(0x6c);
    out.push(0x6c);
    out.push(0x62);
    out.push(0x61);
    out.push(0x63);
    out.push(0x6b);
    out.push(0x2d);
    if selector >= 100 {
        out.push(0x30 + selector / 100);
        out.push(0x30 + (selector / 10) % 10);
        out.push(0x30 + selector % 10);
    } else if selector >= 10 {
        out.push(0x30 + selector / 10);
        out.push(0x30 + selector % 10);
    } else {
        out.push(0x30 + selector);
    }
    assert(out@ == fallback_entry(selector));
    out
}

/// The dictionary that a payload of operations builds from an empty one.
pub fn decode_dictionary(payload: &[u8]) -> (r: Result<Dictionary>)
    ensures
        match r {
            Ok(d) => dict_run(empty_dict(), payload@) == (d@, Ok::<(), DecodeError>(())),
            Err(e) => dict_run(empty_dict(), payload@).1 == Err::<(), DecodeError>(e),
        },
{
    let mut dict = Dictionary::new();
    dict.parse_ops(payload)?;
    Ok(dict)
}

/// Compaction never leaves a dictionary without entries.
pub proof fn lemma_compact_keeps_an_entry(m: DictModel, selector: u8)
    ensures
        dict_compact(m, selector).entries.len() >= 1,
{
}

impl Default for Dictionary {
    /// An empty dictionary, as `new` makes it.
    fn default() -> (d: Self)
        ensures
            d@ == empty_dict(),
    {
        Self::new()
    }
}

} // verus!
