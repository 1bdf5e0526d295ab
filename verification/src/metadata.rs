//! Entity metadata: a mapping from small indices to typed values, with
//! three wire dialects selected by protocol version. Float-valued entries
//! carry their IEEE-754 bit patterns, so that the codec is bit-exact;
//! text components carry their JSON text.

use vstd::prelude::*;
use vstd::pervasive::VecAdditionalExecFns;
use vstd::string::StringSliceAdditionalSpecFns;
use crate::Error;
use crate::position::{Position, spec_position_of_word, spec_position_word};
use crate::uuid::UUID;
use crate::wire::{Reader, VarInt, varuint_bytes, varuint_decode, string_bytes, string_decode,
    lemma_varuint_decode_bounds, lemma_string_decode_bounds, spec_u16_be, spec_u32_be, spec_u64_be,
    spec_u16_at, spec_u32_at, spec_u64_at, write_u8, write_u16_be, write_u32_be, write_u64_be,
    write_string, write_bytes, write_bool, lemma_i32_u32_id, lemma_i32_u16};

verus! {

/// One typed metadata value. The closed set of wire types; floats are
/// held as their 32-bit patterns, components as their JSON text.
#[derive(Debug, Clone)]
pub enum MetadataValue {
    Byte(i8),
    Short(i16),
    Int(i32),
    Float(u32),
    Str(String),
    FormatComponent(String),
    OptionalFormatComponent(Option<String>),
    Bool(bool),
    Vector(u32, u32, u32),
    Rotation(i32, i32, i32),
    Position(Position),
    OptionalPosition(Option<Position>),
    Direction(VarInt),
    OptionalUUID(Option<UUID>),
    Block(u16),
}

/// The mathematical shape of a [`MetadataValue`]: identical, with text as its
/// character sequence.
pub enum ValueModel {
    Byte(i8),
    Short(i16),
    Int(i32),
    Float(u32),
    Str(Seq<char>),
    FormatComponent(Seq<char>),
    OptionalFormatComponent(Option<Seq<char>>),
    Bool(bool),
    Vector(u32, u32, u32),
    Rotation(i32, i32, i32),
    Position(Position),
    OptionalPosition(Option<Position>),
    Direction(VarInt),
    OptionalUUID(Option<UUID>),
    Block(u16),
}

impl View for MetadataValue {
    type V = ValueModel;

    open spec fn view(&self) -> ValueModel {
        match self {
            MetadataValue::Byte(v) => ValueModel::Byte(*v),
            MetadataValue::Short(v) => ValueModel::Short(*v),
            MetadataValue::Int(v) => ValueModel::Int(*v),
            MetadataValue::Float(v) => ValueModel::Float(*v),
            MetadataValue::Str(s) => ValueModel::Str(s@),
            MetadataValue::FormatComponent(s) => ValueModel::FormatComponent(s@),
            MetadataValue::OptionalFormatComponent(o) => ValueModel::OptionalFormatComponent(
                match o {
                    Some(s) => Some(s@),
                    None => None,
                },
            ),
            MetadataValue::Bool(v) => ValueModel::Bool(*v),
            MetadataValue::Vector(a, b, c) => ValueModel::Vector(*a, *b, *c),
            MetadataValue::Rotation(a, b, c) => ValueModel::Rotation(*a, *b, *c),
            MetadataValue::Position(p) => ValueModel::Position(*p),
            MetadataValue::OptionalPosition(o) => ValueModel::OptionalPosition(*o),
            MetadataValue::Direction(d) => ValueModel::Direction(*d),
            MetadataValue::OptionalUUID(o) => ValueModel::OptionalUUID(*o),
            MetadataValue::Block(v) => ValueModel::Block(*v),
        }
    }
}

/// Names one metadata slot.
#[derive(Debug, Clone, Copy)]
pub struct MetadataKey {
    pub index: i32,
}

impl MetadataKey {
    pub fn new(index: i32) -> (r: MetadataKey)
        ensures
            r.index == index,
    {
        MetadataKey { index }
    }
}

/// The value an entry sequence associates with a key: the last entry
/// for that key wins.
pub open spec fn spec_lookup(s: Seq<(i32, ValueModel)>, k: i32) -> Option<ValueModel>
    decreases s.len(),
{
    if s.len() == 0 {
        None
    } else if s.last().0 == k {
        Some(s.last().1)
    } else {
        spec_lookup(s.drop_last(), k)
    }
}

/// Whether any entry carries the key.
pub open spec fn spec_has(s: Seq<(i32, ValueModel)>, k: i32) -> bool {
    exists|j: int| 0 <= j < s.len() && s[j].0 == k
}

/// Replacing the last entry that carries the key, in place.
pub open spec fn spec_replace_last(s: Seq<(i32, ValueModel)>, k: i32, v: ValueModel) -> Seq<
    (i32, ValueModel),
>
    decreases s.len(),
{
    if s.len() == 0 {
        s
    } else if s.last().0 == k {
        s.drop_last().push((k, v))
    } else {
        spec_replace_last(s.drop_last(), k, v).push(s.last())
    }
}

/// Updating an entry sequence: the last entry for the key is replaced in
/// place, a new key is appended.
pub open spec fn spec_put(s: Seq<(i32, ValueModel)>, k: i32, v: ValueModel) -> Seq<
    (i32, ValueModel),
> {
    if spec_has(s, k) {
        spec_replace_last(s, k, v)
    } else {
        s.push((k, v))
    }
}

/// Where the last entry with the key sits, replacing is updating there.
proof fn lemma_replace_last_at(s: Seq<(i32, ValueModel)>, k: i32, v: ValueModel, i: int)
    requires
        0 <= i < s.len(),
        s[i].0 == k,
        forall|j: int| i < j < s.len() ==> s[j].0 != k,
    ensures
        spec_replace_last(s, k, v) == s.update(i, (k, v)),
    decreases s.len(),
{
    if i == s.len() - 1 {
        assert(s.drop_last().push((k, v)) =~= s.update(i, (k, v)));
    } else {
        assert(s.last().0 != k);
        lemma_replace_last_at(s.drop_last(), k, v, i);
        assert(s.drop_last().update(i, (k, v)).push(s.last()) =~= s.update(i, (k, v)));
    }
}

/// Law: after a put, the key reads back the stored value and every other
/// key reads what it read before.
pub proof fn lemma_lookup_put(s: Seq<(i32, ValueModel)>, k: i32, v: ValueModel, k2: i32)
    ensures
        spec_lookup(spec_put(s, k, v), k2) == (if k2 == k {
            Some(v)
        } else {
            spec_lookup(s, k2)
        }),
    decreases s.len(),
{
    if !spec_has(s, k) {
        let p = s.push((k, v));
        assert(p.last() == (k, v));
        assert(p.drop_last() =~= s);
    } else {
        assert(s.len() > 0);
        let r = spec_replace_last(s, k, v);
        if s.last().0 == k {
            assert(r == s.drop_last().push((k, v)));
            assert(r.last() == (k, v));
            assert(r.drop_last() =~= s.drop_last());
        } else {
            let rr = spec_replace_last(s.drop_last(), k, v);
            assert(r == rr.push(s.last()));
            assert(r.last() == s.last());
            assert(r.drop_last() =~= rr);
            assert(spec_has(s.drop_last(), k)) by {
                let j = choose|j: int| 0 <= j < s.len() && s[j].0 == k;
                assert(j < s.len() - 1);
                assert(s.drop_last()[j].0 == k);
            }
            lemma_lookup_put(s.drop_last(), k, v, k2);
        }
    }
}

/// The model of an entry list: keys with the models of their values.
pub open spec fn md_view(s: Seq<(i32, MetadataValue)>) -> Seq<(i32, ValueModel)> {
    s.map_values(|e: (i32, MetadataValue)| (e.0, e.1@))
}

/// A metadata map. Entries keep their insertion order; a repeated put
/// replaces in place, and reads give the last value stored.
pub struct Metadata {
    pub entries: Vec<(i32, MetadataValue)>,
}

impl View for Metadata {
    type V = Seq<(i32, ValueModel)>;

    open spec fn view(&self) -> Seq<(i32, ValueModel)> {
        md_view(self.entries@)
    }
}

impl Metadata {
    pub fn new() -> (r: Metadata)
        ensures
            r@ == Seq::<(i32, ValueModel)>::empty(),
    {
        let r = Metadata { entries: Vec::new() };
        proof {
            assert(r@ =~= Seq::<(i32, ValueModel)>::empty());
        }
        r
    }

    pub fn get(&self, key: &MetadataKey) -> (r: Option<&MetadataValue>)
        ensures
            match r {
                Some(v) => spec_lookup(self@, key.index) == Some(v@),
                None => spec_lookup(self@, key.index) is None,
            },
    {
        let ghost sm = self@;
        let mut i: usize = self.entries.len();
        proof {
            assert(sm.take(i as int) =~= sm);
        }
        while i > 0
            invariant
                i <= self.entries@.len(),
                sm == self@,
                sm.len() == self.entries@.len(),
                spec_lookup(sm, key.index) == spec_lookup(sm.take(i as int), key.index),
            decreases i,
        {
            i = i - 1;
            proof {
                assert(sm[i as int] == (self.entries@[i as int].0, self.entries@[i as int].1@));
                assert(sm.take(i as int + 1).last() == sm[i as int]);
                assert(sm.take(i as int + 1).drop_last() =~= sm.take(i as int));
            }
            if self.entries[i].0 == key.index {
                return Some(&self.entries[i].1);
            }
        }
        proof {
            assert(sm.take(0) =~= Seq::<(i32, ValueModel)>::empty());
        }
        None
    }

    pub fn put(&mut self, key: &MetadataKey, val: MetadataValue)
        ensures
            final(self)@ == spec_put(old(self)@, key.index, val@),
    {
        self.put_raw(key.index, val);
    }

    fn put_raw(&mut self, index: i32, val: MetadataValue)
        ensures
            final(self)@ == spec_put(old(self)@, index, val@),
    {
        let ghost s0 = self.entries@;
        let ghost sm = self@;
        let mut i: usize = self.entries.len();
        while i > 0
            invariant
                i <= s0.len(),
                s0 == old(self).entries@,
                sm == md_view(s0),
                sm == old(self)@,
                self.entries@ == s0,
                forall|j: int| i <= j < s0.len() ==> s0[j].0 != index,
            decreases i,
        {
            i = i - 1;
            proof {
                assert(sm[i as int] == (s0[i as int].0, s0[i as int].1@));
            }
            if self.entries[i].0 == index {
                proof {
                    assert(sm[i as int].0 == index);
                    assert(spec_has(sm, index));
                    assert(forall|j: int|
                        i < j < sm.len() ==> sm[j] == (s0[j].0, s0[j].1@) && sm[j].0 != index);
                    lemma_replace_last_at(sm, index, val@, i as int);
                }
                self.entries.set(i, (index, val));
                proof {
                    assert(md_view(s0.update(i as int, (index, val))) =~= sm.update(
                        i as int,
                        (index, val@),
                    ));
                }
                return;
            }
        }
        proof {
            assert(forall|j: int|
                0 <= j < s0.len() ==> md_view(s0)[j] == (s0[j].0, s0[j].1@));
            assert(!spec_has(sm, index));
        }
        self.entries.push((index, val));
        proof {
            assert(md_view(s0.push((index, val))) =~= sm.push((index, val@)));
        }
    }
}

impl Default for Metadata {
    fn default() -> (r: Metadata)
        ensures
            r@ == Seq::<(i32, ValueModel)>::empty(),
    {
        Metadata::new()
    }
}


/// One parsed entry of the 1.9–1.12 dialect: an index byte, a varint
/// type tag and the tag's payload. The outer option is empty where the
/// bytes cannot be decoded (an unknown tag, a tag this codec does not
/// carry, or a truncated payload); the inner option is empty where the
/// entry stores no value (an absent NBT tag).
pub open spec fn parse_entry19(bytes: Seq<u8>, pos: int) -> Option<
    (Option<(i32, ValueModel)>, int),
> {
    let idx = bytes[pos] as i32;
    match varuint_decode(bytes, pos + 1, 5) {
        None => None,
        Some((tn, p)) => {
            let ty = ((tn % 0x1_0000_0000) as u32) as i32;
            if ty == 0 {
                if p + 1 <= bytes.len() {
                    Some((Some((idx, ValueModel::Byte(bytes[p] as i8))), p + 1))
                } else {
                    None
                }
            } else if ty == 1 {
                match varuint_decode(bytes, p, 5) {
                    Some((n, q)) => Some((
                        Some((idx, ValueModel::Int(((n % 0x1_0000_0000) as u32) as i32))),
                        q,
                    )),
                    None => None,
                }
            } else if ty == 2 {
                if p + 4 <= bytes.len() {
                    Some((Some((idx, ValueModel::Float(spec_u32_at(bytes, p)))), p + 4))
                } else {
                    None
                }
            } else if ty == 3 {
                match string_decode(bytes, p) {
                    Some((sc, q)) => Some((Some((idx, ValueModel::Str(sc))), q)),
                    None => None,
                }
            } else if ty == 4 {
                match string_decode(bytes, p) {
                    Some((sc, q)) => Some((Some((idx, ValueModel::FormatComponent(sc))), q)),
                    None => None,
                }
            } else if ty == 6 {
                if p + 1 <= bytes.len() {
                    Some((Some((idx, ValueModel::Bool(bytes[p] != 0))), p + 1))
                } else {
                    None
                }
            } else if ty == 7 {
                if p + 12 <= bytes.len() {
                    Some((
                        Some((
                            idx,
                            ValueModel::Vector(
                                spec_u32_at(bytes, p),
                                spec_u32_at(bytes, p + 4),
                                spec_u32_at(bytes, p + 8),
                            ),
                        )),
                        p + 12,
                    ))
                } else {
                    None
                }
            } else if ty == 8 {
                if p + 8 <= bytes.len() {
                    Some((
                        Some((
                            idx,
                            ValueModel::Position(spec_position_of_word(spec_u64_at(bytes, p))),
                        )),
                        p + 8,
                    ))
                } else {
                    None
                }
            } else if ty == 9 {
                if p + 1 <= bytes.len() {
                    if bytes[p] != 0 {
                        if p + 9 <= bytes.len() {
                            Some((
                                Some((
                                    idx,
                                    ValueModel::OptionalPosition(
                                        Some(spec_position_of_word(spec_u64_at(bytes, p + 1))),
                                    ),
                                )),
                                p + 9,
                            ))
                        } else {
                            None
                        }
                    } else {
                        Some((Some((idx, ValueModel::OptionalPosition(None))), p + 1))
                    }
                } else {
                    None
                }
            } else if ty == 10 {
                match varuint_decode(bytes, p, 5) {
                    Some((n, q)) => Some((
                        Some((
                            idx,
                            ValueModel::Direction(VarInt(((n % 0x1_0000_0000) as u32) as i32)),
                        )),
                        q,
                    )),
                    None => None,
                }
            } else if ty == 11 {
                if p + 1 <= bytes.len() {
                    if bytes[p] != 0 {
                        if p + 17 <= bytes.len() {
                            Some((
                                Some((
                                    idx,
                                    ValueModel::OptionalUUID(
                                        Some(
                                            UUID(
                                                spec_u64_at(bytes, p + 1),
                                                spec_u64_at(bytes, p + 9),
                                            ),
                                        ),
                                    ),
                                )),
                                p + 17,
                            ))
                        } else {
                            None
                        }
                    } else {
                        Some((Some((idx, ValueModel::OptionalUUID(None))), p + 1))
                    }
                } else {
                    None
                }
            } else if ty == 12 {
                match varuint_decode(bytes, p, 5) {
                    Some((n, q)) => Some((
                        Some((idx, ValueModel::Block(((n % 0x1_0000_0000) as u32) as u16))),
                        q,
                    )),
                    None => None,
                }
            } else if ty == 13 {
                if p + 1 <= bytes.len() && bytes[p] == 0 {
                    Some((None, p + 1))
                } else {
                    None
                }
            } else {
                None
            }
        },
    }
}

proof fn lemma_parse_entry19_bounds(bytes: Seq<u8>, pos: int)
    ensures
        parse_entry19(bytes, pos) matches Some(t) ==> pos < t.1 <= bytes.len(),
{
    lemma_varuint_decode_bounds(bytes, pos + 1, 5);
    match varuint_decode(bytes, pos + 1, 5) {
        Some(t0) => {
            lemma_varuint_decode_bounds(bytes, t0.1, 5);
            lemma_string_decode_bounds(bytes, t0.1);
        },
        None => {},
    }
}

#[via_fn]
proof fn md_decode19_dec(bytes: Seq<u8>, pos: int) {
    lemma_parse_entry19_bounds(bytes, pos);
}

/// The raw entry list of a 1.9–1.12 metadata blob starting at `pos`,
/// and the position just past its terminator.
pub open spec fn md_decode19(bytes: Seq<u8>, pos: int) -> Option<(Seq<(i32, ValueModel)>, int)>
    decreases bytes.len() - pos,
    via md_decode19_dec
{
    if pos < 0 || pos >= bytes.len() {
        None
    } else if bytes[pos] == 0xFF {
        Some((Seq::empty(), pos + 1))
    } else {
        match parse_entry19(bytes, pos) {
            None => None,
            Some((oe, p2)) => match md_decode19(bytes, p2) {
                None => None,
                Some((rest, end)) => Some((
                    match oe {
                        Some(e) => seq![e] + rest,
                        None => rest,
                    },
                    end,
                )),
            },
        }
    }
}

/// Folding a raw entry list into a metadata map, later entries winning.
pub open spec fn spec_apply(acc: Seq<(i32, ValueModel)>, raw: Seq<(i32, ValueModel)>) -> Seq<
    (i32, ValueModel),
>
    decreases raw.len(),
{
    if raw.len() == 0 {
        acc
    } else {
        spec_apply(spec_put(acc, raw[0].0, raw[0].1), raw.subrange(1, raw.len() as int))
    }
}


/// Read one entry of the 1.9–1.12 dialect; the caller has checked that
/// the next byte is no terminator.
fn read_entry19(buf: &mut Reader) -> (r: Result<Option<(i32, MetadataValue)>, Error>)
    ensures
        final(buf).data@ == old(buf).data@,
        match parse_entry19(old(buf).data@, old(buf).pos as int) {
            Some((oe, p2)) => r matches Ok(o) && final(buf).pos == p2 && final(buf).pos
                <= final(buf).data@.len() && (match (o, oe) {
                (Some(e), Some(em)) => e.0 == em.0 && e.1@ == em.1,
                (None, None) => true,
                _ => false,
            }),
            None => r is Err,
        },
{
    proof {
        lemma_parse_entry19_bounds(old(buf).data@, old(buf).pos as int);
    }
    let idx_b = buf.read_u8()?;
    let idx = idx_b as i32;
    let tyv = VarInt::read_from(buf)?;
    let ty = tyv.0;
    proof {
        lemma_i32_u32_id(ty);
    }
    if ty == 0 {
        let b = buf.read_u8()?;
        Ok(Some((idx, MetadataValue::Byte(#[verifier::truncate] (b as i8)))))
    } else if ty == 1 {
        let v = VarInt::read_from(buf)?;
        proof {
            lemma_i32_u32_id(v.0);
        }
        Ok(Some((idx, MetadataValue::Int(v.0))))
    } else if ty == 2 {
        let v = buf.read_u32_be()?;
        Ok(Some((idx, MetadataValue::Float(v))))
    } else if ty == 3 {
        let s = buf.read_string()?;
        Ok(Some((idx, MetadataValue::Str(s))))
    } else if ty == 4 {
        let s = buf.read_string()?;
        Ok(Some((idx, MetadataValue::FormatComponent(s))))
    } else if ty == 6 {
        let b = buf.read_bool()?;
        Ok(Some((idx, MetadataValue::Bool(b))))
    } else if ty == 7 {
        let a = buf.read_u32_be()?;
        let b = buf.read_u32_be()?;
        let c = buf.read_u32_be()?;
        Ok(Some((idx, MetadataValue::Vector(a, b, c))))
    } else if ty == 8 {
        let w = buf.read_u64_be()?;
        Ok(Some((idx, MetadataValue::Position(Position::from_word(w)))))
    } else if ty == 9 {
        let f = buf.read_bool()?;
        if f {
            let w = buf.read_u64_be()?;
            Ok(Some((idx, MetadataValue::OptionalPosition(Some(Position::from_word(w))))))
        } else {
            Ok(Some((idx, MetadataValue::OptionalPosition(None))))
        }
    } else if ty == 10 {
        let v = VarInt::read_from(buf)?;
        proof {
            lemma_i32_u32_id(v.0);
        }
        Ok(Some((idx, MetadataValue::Direction(v))))
    } else if ty == 11 {
        let f = buf.read_bool()?;
        if f {
            let hi = buf.read_u64_be()?;
            let lo = buf.read_u64_be()?;
            Ok(Some((idx, MetadataValue::OptionalUUID(Some(UUID(hi, lo))))))
        } else {
            Ok(Some((idx, MetadataValue::OptionalUUID(None))))
        }
    } else if ty == 12 {
        let v = VarInt::read_from(buf)?;
        proof {
            lemma_i32_u32_id(v.0);
            lemma_i32_u16(v.0);
        }
        Ok(Some((idx, MetadataValue::Block(#[verifier::truncate] (v.0 as u16)))))
    } else if ty == 13 {
        let b = buf.read_u8()?;
        if b == 0 {
            Ok(None)
        } else {
            Err(Error::BadPacket)
        }
    } else {
        Err(Error::BadPacket)
    }
}

impl Metadata {
    /// Decode a 1.9–1.12 metadata blob: entries until the `0xFF`
    /// terminator, later entries for a key winning.
    pub fn read_from19(buf: &mut Reader) -> (r: Result<Metadata, Error>)
        ensures
            final(buf).data@ == old(buf).data@,
            match md_decode19(old(buf).data@, old(buf).pos as int) {
                Some((raw, end)) => r matches Ok(m) && m@ == spec_apply(Seq::empty(), raw)
                    && final(buf).pos == end,
                None => r is Err,
            },
    {
        let ghost bs = old(buf).data@;
        let ghost pos0 = old(buf).pos as int;
        let mut m = Metadata::new();
        loop
            invariant
                buf.data@ == bs,
                bs == old(buf).data@,
                pos0 == old(buf).pos as int,
                match (md_decode19(bs, pos0), md_decode19(bs, buf.pos as int)) {
                    (Some((raw0, end0)), Some((raw, end))) => end0 == end && spec_apply(
                        Seq::empty(),
                        raw0,
                    ) == spec_apply(m@, raw),
                    (None, None) => true,
                    _ => false,
                },
            decreases bs.len() - buf.pos,
        {
            let ghost cur = buf.pos as int;
            let start = buf.pos;
            let b = buf.read_u8()?;
            if b == 0xFF {
                proof {
                    assert(md_decode19(bs, cur) == Some((
                        Seq::<(i32, ValueModel)>::empty(),
                        cur + 1,
                    )));
                    assert(spec_apply(m@, Seq::<(i32, ValueModel)>::empty()) == m@);
                }
                return Ok(m);
            }
            buf.pos = start;
            let oe = read_entry19(buf)?;
            proof {
                lemma_parse_entry19_bounds(bs, cur);
                let t = parse_entry19(bs, cur)->Some_0;
                assert(md_decode19(bs, cur) == (match md_decode19(bs, t.1) {
                    None => None::<(Seq<(i32, ValueModel)>, int)>,
                    Some((rest, end)) => Some((
                        match t.0 {
                            Some(e) => seq![e] + rest,
                            None => rest,
                        },
                        end,
                    )),
                }));
            }
            match oe {
                Some(e) => {
                    let (idx, v) = e;
                    let ghost m_old = m@;
                    m.put_raw(idx, v);
                    proof {
                        let t = parse_entry19(bs, cur)->Some_0;
                        let em = t.0->Some_0;
                        match md_decode19(bs, buf.pos as int) {
                            Some((rest, end)) => {
                                let raw_cur = seq![em] + rest;
                                assert(raw_cur[0] == em);
                                assert(raw_cur.subrange(1, raw_cur.len() as int) =~= rest);
                                assert(spec_apply(m_old, raw_cur) == spec_apply(
                                    spec_put(m_old, em.0, em.1),
                                    rest,
                                ));
                            },
                            None => {},
                        }
                    }
                },
                None => {
                },
            }
        }
    }
}


/// The wire bytes of one 1.9–1.12 entry, if its value exists in that
/// dialect and its text fits a wire string.
pub open spec fn entry_bytes19(k: i32, v: ValueModel) -> Option<Seq<u8>> {
    if k < 0 || k > 0xFE {
        None
    } else {
        entry_bytes19_at(k as u8, v)
    }
}

/// The wire bytes of a 1.9–1.12 entry at an index that fits its byte
/// (the terminator byte itself is never a valid index).
pub open spec fn entry_bytes19_at(kb: u8, v: ValueModel) -> Option<Seq<u8>> {
    match v {
        ValueModel::Byte(b) => Some(seq![kb, 0u8, b as u8]),
        ValueModel::Int(i) => Some(seq![kb, 1u8] + varuint_bytes((i as u32) as u64)),
        ValueModel::Float(f) => Some(seq![kb, 2u8] + spec_u32_be(f)),
        ValueModel::Str(s) => if vstd::utf8::encode_utf8(s).len() <= 65536 {
            Some(seq![kb, 3u8] + string_bytes(s))
        } else {
            None
        },
        ValueModel::FormatComponent(s) => if vstd::utf8::encode_utf8(s).len() <= 65536 {
            Some(seq![kb, 4u8] + string_bytes(s))
        } else {
            None
        },
        ValueModel::Bool(b) => Some(
            seq![kb, 6u8, if b {
                1u8
            } else {
                0u8
            }],
        ),
        ValueModel::Vector(a, b, c) => Some(
            seq![kb, 7u8] + spec_u32_be(a) + spec_u32_be(b) + spec_u32_be(c),
        ),
        ValueModel::Position(p) => Some(seq![kb, 8u8] + spec_u64_be(spec_position_word(p))),
        ValueModel::OptionalPosition(op) => Some(
            seq![kb, 9u8] + (match op {
                Some(p) => seq![1u8] + spec_u64_be(spec_position_word(p)),
                None => seq![0u8],
            }),
        ),
        ValueModel::Direction(d) => Some(seq![kb, 10u8] + varuint_bytes((d.0 as u32) as u64)),
        ValueModel::OptionalUUID(ou) => Some(
            seq![kb, 11u8] + (match ou {
                Some(u) => seq![1u8] + spec_u64_be(u.0) + spec_u64_be(u.1),
                None => seq![0u8],
            }),
        ),
        ValueModel::Block(w) => Some(seq![kb, 12u8] + varuint_bytes(w as u64)),
        ValueModel::Short(_) => None,
        ValueModel::Rotation(_, _, _) => None,
        ValueModel::OptionalFormatComponent(_) => None,
    }
}

/// The wire bytes of a 1.9–1.12 entry list, without its terminator.
pub open spec fn md_bytes19(s: Seq<(i32, ValueModel)>) -> Option<Seq<u8>>
    decreases s.len(),
{
    if s.len() == 0 {
        Some(Seq::empty())
    } else {
        match entry_bytes19(s[0].0, s[0].1) {
            None => None,
            Some(b) => match md_bytes19(s.subrange(1, s.len() as int)) {
                None => None,
                Some(bs) => Some(b + bs),
            },
        }
    }
}

/// Write one 1.9–1.12 entry, or refuse a value that dialect cannot
/// carry.
fn write_entry19(k: i32, v: &MetadataValue, out: &mut Vec<u8>) -> (r: Result<(), Error>)
    ensures
        match entry_bytes19(k, v@) {
            Some(b) => r is Ok && final(out)@ == old(out)@ + b,
            None => r matches Err(e) && e == Error::BadPacket && final(out)@ == old(out)@,
        },
{
    if k < 0 || k > 0xFE {
        return Err(Error::BadPacket);
    }
    let kb: u8 = k as u8;
    match v {
        MetadataValue::Byte(b) => {
            write_u8(out, kb);
            write_u8(out, 0);
            write_u8(out, #[verifier::truncate] (*b as u8));
            proof {
                assert(final(out)@ =~= old(out)@ + entry_bytes19(k, v@)->Some_0);
            }
            Ok(())
        },
        MetadataValue::Int(i) => {
            write_u8(out, kb);
            write_u8(out, 1);
            VarInt(*i).write_to(out);
            proof {
                assert(final(out)@ =~= old(out)@ + entry_bytes19(k, v@)->Some_0);
            }
            Ok(())
        },
        MetadataValue::Float(f) => {
            write_u8(out, kb);
            write_u8(out, 2);
            write_u32_be(out, *f);
            proof {
                assert(final(out)@ =~= old(out)@ + entry_bytes19(k, v@)->Some_0);
            }
            Ok(())
        },
        MetadataValue::Str(s) => {
            if s.as_str().as_bytes().len() > 65536 {
                return Err(Error::BadPacket);
            }
            write_u8(out, kb);
            write_u8(out, 3);
            let wr = write_string(out, s);
            proof {
                assert(wr is Ok);
                assert(final(out)@ =~= old(out)@ + entry_bytes19(k, v@)->Some_0);
            }
            Ok(())
        },
        MetadataValue::FormatComponent(s) => {
            if s.as_str().as_bytes().len() > 65536 {
                return Err(Error::BadPacket);
            }
            write_u8(out, kb);
            write_u8(out, 4);
            let wr = write_string(out, s);
            proof {
                assert(wr is Ok);
                assert(final(out)@ =~= old(out)@ + entry_bytes19(k, v@)->Some_0);
            }
            Ok(())
        },
        MetadataValue::Bool(b) => {
            write_u8(out, kb);
            write_u8(out, 6);
            write_bool(out, *b);
            proof {
                assert(final(out)@ =~= old(out)@ + entry_bytes19(k, v@)->Some_0);
            }
            Ok(())
        },
        MetadataValue::Vector(a, b, c) => {
            write_u8(out, kb);
            write_u8(out, 7);
            write_u32_be(out, *a);
            write_u32_be(out, *b);
            write_u32_be(out, *c);
            proof {
                assert(final(out)@ =~= old(out)@ + entry_bytes19(k, v@)->Some_0);
            }
            Ok(())
        },
        MetadataValue::Position(p) => {
            write_u8(out, kb);
            write_u8(out, 8);
            p.write_to(out);
            proof {
                assert(final(out)@ =~= old(out)@ + entry_bytes19(k, v@)->Some_0);
            }
            Ok(())
        },
        MetadataValue::OptionalPosition(op) => {
            write_u8(out, kb);
            write_u8(out, 9);
            match op {
                Some(p) => {
                    write_bool(out, true);
                    p.write_to(out);
                },
                None => {
                    write_bool(out, false);
                },
            }
            proof {
                assert(final(out)@ =~= old(out)@ + entry_bytes19(k, v@)->Some_0);
            }
            Ok(())
        },
        MetadataValue::Direction(d) => {
            write_u8(out, kb);
            write_u8(out, 10);
            d.write_to(out);
            proof {
                assert(final(out)@ =~= old(out)@ + entry_bytes19(k, v@)->Some_0);
            }
            Ok(())
        },
        MetadataValue::OptionalUUID(ou) => {
            write_u8(out, kb);
            write_u8(out, 11);
            match ou {
                Some(u) => {
                    write_bool(out, true);
                    u.write_to(out);
                },
                None => {
                    write_bool(out, false);
                },
            }
            proof {
                assert(final(out)@ =~= old(out)@ + entry_bytes19(k, v@)->Some_0);
            }
            Ok(())
        },
        MetadataValue::Block(w) => {
            write_u8(out, kb);
            write_u8(out, 12);
            VarInt(*w as i32).write_to(out);
            proof {
                assert((((*w as i32) as u32) as u64) == (*w as u64)) by (bit_vector);
                assert(final(out)@ =~= old(out)@ + entry_bytes19(k, v@)->Some_0);
            }
            Ok(())
        },
        MetadataValue::Short(_) => Err(Error::BadPacket),
        MetadataValue::Rotation(_, _, _) => Err(Error::BadPacket),
        MetadataValue::OptionalFormatComponent(_) => Err(Error::BadPacket),
    }
}

impl Metadata {
    /// Encode for the 1.9–1.12 dialect; a value that dialect cannot
    /// carry is refused rather than dropped, and nothing is written
    /// then.
    pub fn write_to19(&self, out: &mut Vec<u8>) -> (r: Result<(), Error>)
        ensures
            match md_bytes19(self@) {
                Some(b) => r is Ok && final(out)@ == old(out)@ + b + seq![0xFFu8],
                None => r matches Err(e) && e == Error::BadPacket && final(out)@ == old(out)@,
            },
    {
        let ghost sm = self@;
        let mut tmp: Vec<u8> = Vec::new();
        let n = self.entries.len();
        let mut i: usize = 0;
        proof {
            assert(sm.skip(0) =~= sm);
        }
        while i < n
            invariant
                i <= n,
                n == self.entries@.len(),
                sm == self@,
                sm.len() == n,
                match (md_bytes19(sm), md_bytes19(sm.skip(i as int))) {
                    (Some(b0), Some(b)) => b0 == tmp@ + b,
                    (None, None) => true,
                    _ => false,
                },
            decreases n - i,
        {
            proof {
                assert(sm[i as int] == (self.entries@[i as int].0, self.entries@[i as int].1@));
                let sk = sm.skip(i as int);
                assert(sk[0] == sm[i as int]);
                assert(sk.subrange(1, sk.len() as int) =~= sm.skip(i as int + 1));
            }
            let e = &self.entries[i];
            match write_entry19(e.0, &e.1, &mut tmp) {
                Ok(_) => {},
                Err(_) => {
                    return Err(Error::BadPacket);
                },
            }
            i = i + 1;
        }
        proof {
            assert(sm.skip(n as int) =~= Seq::<(i32, ValueModel)>::empty());
        }
        write_bytes(out, &tmp);
        write_u8(out, 0xFF);
        proof {
            assert(final(out)@ =~= old(out)@ + md_bytes19(sm)->Some_0 + seq![0xFFu8]);
        }
        Ok(())
    }
}


/// One parsed entry of the 1.13 dialect: an index byte, a varint
/// type tag and the tag's payload. The outer option is empty where the
/// bytes cannot be decoded (an unknown tag, a tag this codec does not
/// carry, or a truncated payload); the inner option is empty where the
/// entry stores no value (an absent NBT tag).
pub open spec fn parse_entry113(bytes: Seq<u8>, pos: int) -> Option<
    (Option<(i32, ValueModel)>, int),
> {
    let idx = bytes[pos] as i32;
    match varuint_decode(bytes, pos + 1, 5) {
        None => None,
        Some((tn, p)) => {
            let ty = ((tn % 0x1_0000_0000) as u32) as i32;
            if ty == 0 {
                if p + 1 <= bytes.len() {
                    Some((Some((idx, ValueModel::Byte(bytes[p] as i8))), p + 1))
                } else {
                    None
                }
            } else if ty == 1 {
                match varuint_decode(bytes, p, 5) {
                    Some((n, q)) => Some((
                        Some((idx, ValueModel::Int(((n % 0x1_0000_0000) as u32) as i32))),
                        q,
                    )),
                    None => None,
                }
            } else if ty == 2 {
                if p + 4 <= bytes.len() {
                    Some((Some((idx, ValueModel::Float(spec_u32_at(bytes, p)))), p + 4))
                } else {
                    None
                }
            } else if ty == 3 {
                match string_decode(bytes, p) {
                    Some((sc, q)) => Some((Some((idx, ValueModel::Str(sc))), q)),
                    None => None,
                }
            } else if ty == 4 {
                match string_decode(bytes, p) {
                    Some((sc, q)) => Some((Some((idx, ValueModel::FormatComponent(sc))), q)),
                    None => None,
                }
            } else if ty == 5 {
                if p + 1 <= bytes.len() {
                    if bytes[p] != 0 {
                        match string_decode(bytes, p + 1) {
                            Some((sc, q)) => Some((
                                Some((idx, ValueModel::OptionalFormatComponent(Some(sc)))),
                                q,
                            )),
                            None => None,
                        }
                    } else {
                        Some((Some((idx, ValueModel::OptionalFormatComponent(None))), p + 1))
                    }
                } else {
                    None
                }
            } else if ty == 7 {
                if p + 1 <= bytes.len() {
                    Some((Some((idx, ValueModel::Bool(bytes[p] != 0))), p + 1))
                } else {
                    None
                }
            } else if ty == 8 {
                if p + 12 <= bytes.len() {
                    Some((
                        Some((
                            idx,
                            ValueModel::Vector(
                                spec_u32_at(bytes, p),
                                spec_u32_at(bytes, p + 4),
                                spec_u32_at(bytes, p + 8),
                            ),
                        )),
                        p + 12,
                    ))
                } else {
                    None
                }
            } else if ty == 9 {
                if p + 8 <= bytes.len() {
                    Some((
                        Some((
                            idx,
                            ValueModel::Position(spec_position_of_word(spec_u64_at(bytes, p))),
                        )),
                        p + 8,
                    ))
                } else {
                    None
                }
            } else if ty == 10 {
                if p + 1 <= bytes.len() {
                    if bytes[p] != 0 {
                        if p + 9 <= bytes.len() {
                            Some((
                                Some((
                                    idx,
                                    ValueModel::OptionalPosition(
                                        Some(spec_position_of_word(spec_u64_at(bytes, p + 1))),
                                    ),
                                )),
                                p + 9,
                            ))
                        } else {
                            None
                        }
                    } else {
                        Some((Some((idx, ValueModel::OptionalPosition(None))), p + 1))
                    }
                } else {
                    None
                }
            } else if ty == 11 {
                match varuint_decode(bytes, p, 5) {
                    Some((n, q)) => Some((
                        Some((
                            idx,
                            ValueModel::Direction(VarInt(((n % 0x1_0000_0000) as u32) as i32)),
                        )),
                        q,
                    )),
                    None => None,
                }
            } else if ty == 12 {
                if p + 1 <= bytes.len() {
                    if bytes[p] != 0 {
                        if p + 17 <= bytes.len() {
                            Some((
                                Some((
                                    idx,
                                    ValueModel::OptionalUUID(
                                        Some(
                                            UUID(
                                                spec_u64_at(bytes, p + 1),
                                                spec_u64_at(bytes, p + 9),
                                            ),
                                        ),
                                    ),
                                )),
                                p + 17,
                            ))
                        } else {
                            None
                        }
                    } else {
                        Some((Some((idx, ValueModel::OptionalUUID(None))), p + 1))
                    }
                } else {
                    None
                }
            } else if ty == 13 {
                match varuint_decode(bytes, p, 5) {
                    Some((n, q)) => Some((
                        Some((idx, ValueModel::Block(((n % 0x1_0000_0000) as u32) as u16))),
                        q,
                    )),
                    None => None,
                }
            } else if ty == 14 {
                if p + 1 <= bytes.len() && bytes[p] == 0 {
                    Some((None, p + 1))
                } else {
                    None
                }
            } else {
                None
            }
        },
    }
}



proof fn lemma_parse_entry113_bounds(bytes: Seq<u8>, pos: int)
    ensures
        parse_entry113(bytes, pos) matches Some(t) ==> pos < t.1 <= bytes.len(),
{
    lemma_varuint_decode_bounds(bytes, pos + 1, 5);
    match varuint_decode(bytes, pos + 1, 5) {
        Some(t0) => {
            lemma_varuint_decode_bounds(bytes, t0.1, 5);
            lemma_string_decode_bounds(bytes, t0.1);
            lemma_string_decode_bounds(bytes, t0.1 + 1);
        },
        None => {},
    }
}


#[via_fn]
proof fn md_decode113_dec(bytes: Seq<u8>, pos: int) {
    lemma_parse_entry113_bounds(bytes, pos);
}


/// The raw entry list of a 1.13 metadata blob starting at `pos`,
/// and the position just past its terminator.
pub open spec fn md_decode113(bytes: Seq<u8>, pos: int) -> Option<(Seq<(i32, ValueModel)>, int)>
    decreases bytes.len() - pos,
    via md_decode113_dec
{
    if pos < 0 || pos >= bytes.len() {
        None
    } else if bytes[pos] == 0xFF {
        Some((Seq::empty(), pos + 1))
    } else {
        match parse_entry113(bytes, pos) {
            None => None,
            Some((oe, p2)) => match md_decode113(bytes, p2) {
                None => None,
                Some((rest, end)) => Some((
                    match oe {
                        Some(e) => seq![e] + rest,
                        None => rest,
                    },
                    end,
                )),
            },
        }
    }
}


/// Read one entry of the 1.13 dialect; the caller has checked that
/// the next byte is no terminator.
fn read_entry113(buf: &mut Reader) -> (r: Result<Option<(i32, MetadataValue)>, Error>)
    ensures
        final(buf).data@ == old(buf).data@,
        match parse_entry113(old(buf).data@, old(buf).pos as int) {
            Some((oe, p2)) => r matches Ok(o) && final(buf).pos == p2 && final(buf).pos
                <= final(buf).data@.len() && (match (o, oe) {
                (Some(e), Some(em)) => e.0 == em.0 && e.1@ == em.1,
                (None, None) => true,
                _ => false,
            }),
            None => r is Err,
        },
{
    proof {
        lemma_parse_entry113_bounds(old(buf).data@, old(buf).pos as int);
    }
    let idx_b = buf.read_u8()?;
    let idx = idx_b as i32;
    let tyv = VarInt::read_from(buf)?;
    let ty = tyv.0;
    proof {
        lemma_i32_u32_id(ty);
    }
    if ty == 0 {
        let b = buf.read_u8()?;
        Ok(Some((idx, MetadataValue::Byte(#[verifier::truncate] (b as i8)))))
    } else if ty == 1 {
        let v = VarInt::read_from(buf)?;
        proof {
            lemma_i32_u32_id(v.0);
        }
        Ok(Some((idx, MetadataValue::Int(v.0))))
    } else if ty == 2 {
        let v = buf.read_u32_be()?;
        Ok(Some((idx, MetadataValue::Float(v))))
    } else if ty == 3 {
        let s = buf.read_string()?;
        Ok(Some((idx, MetadataValue::Str(s))))
    } else if ty == 4 {
        let s = buf.read_string()?;
        Ok(Some((idx, MetadataValue::FormatComponent(s))))
    } else if ty == 5 {
        let f = buf.read_bool()?;
        if f {
            let sc = buf.read_string()?;
            Ok(Some((idx, MetadataValue::OptionalFormatComponent(Some(sc)))))
        } else {
            Ok(Some((idx, MetadataValue::OptionalFormatComponent(None))))
        }
    } else if ty == 7 {
        let b = buf.read_bool()?;
        Ok(Some((idx, MetadataValue::Bool(b))))
    } else if ty == 8 {
        let a = buf.read_u32_be()?;
        let b = buf.read_u32_be()?;
        let c = buf.read_u32_be()?;
        Ok(Some((idx, MetadataValue::Vector(a, b, c))))
    } else if ty == 9 {
        let w = buf.read_u64_be()?;
        Ok(Some((idx, MetadataValue::Position(Position::from_word(w)))))
    } else if ty == 10 {
        let f = buf.read_bool()?;
        if f {
            let w = buf.read_u64_be()?;
            Ok(Some((idx, MetadataValue::OptionalPosition(Some(Position::from_word(w))))))
        } else {
            Ok(Some((idx, MetadataValue::OptionalPosition(None))))
        }
    } else if ty == 11 {
        let v = VarInt::read_from(buf)?;
        proof {
            lemma_i32_u32_id(v.0);
        }
        Ok(Some((idx, MetadataValue::Direction(v))))
    } else if ty == 12 {
        let f = buf.read_bool()?;
        if f {
            let hi = buf.read_u64_be()?;
            let lo = buf.read_u64_be()?;
            Ok(Some((idx, MetadataValue::OptionalUUID(Some(UUID(hi, lo))))))
        } else {
            Ok(Some((idx, MetadataValue::OptionalUUID(None))))
        }
    } else if ty == 13 {
        let v = VarInt::read_from(buf)?;
        proof {
            lemma_i32_u32_id(v.0);
            lemma_i32_u16(v.0);
        }
        Ok(Some((idx, MetadataValue::Block(#[verifier::truncate] (v.0 as u16)))))
    } else if ty == 14 {
        let b = buf.read_u8()?;
        if b == 0 {
            Ok(None)
        } else {
            Err(Error::BadPacket)
        }
    } else {
        Err(Error::BadPacket)
    }
}


impl Metadata {
    /// Decode a 1.13 metadata blob: entries until the `0xFF`
    /// terminator, later entries for a key winning.
    pub fn read_from113(buf: &mut Reader) -> (r: Result<Metadata, Error>)
        ensures
            final(buf).data@ == old(buf).data@,
            match md_decode113(old(buf).data@, old(buf).pos as int) {
                Some((raw, end)) => r matches Ok(m) && m@ == spec_apply(Seq::empty(), raw)
                    && final(buf).pos == end,
                None => r is Err,
            },
    {
        let ghost bs = old(buf).data@;
        let ghost pos0 = old(buf).pos as int;
        let mut m = Metadata::new();
        loop
            invariant
                buf.data@ == bs,
                bs == old(buf).data@,
                pos0 == old(buf).pos as int,
                match (md_decode113(bs, pos0), md_decode113(bs, buf.pos as int)) {
                    (Some((raw0, end0)), Some((raw, end))) => end0 == end && spec_apply(
                        Seq::empty(),
                        raw0,
                    ) == spec_apply(m@, raw),
                    (None, None) => true,
                    _ => false,
                },
            decreases bs.len() - buf.pos,
        {
            let ghost cur = buf.pos as int;
            let start = buf.pos;
            let b = buf.read_u8()?;
            if b == 0xFF {
                proof {
                    assert(md_decode113(bs, cur) == Some((
                        Seq::<(i32, ValueModel)>::empty(),
                        cur + 1,
                    )));
                    assert(spec_apply(m@, Seq::<(i32, ValueModel)>::empty()) == m@);
                }
                return Ok(m);
            }
            buf.pos = start;
            let oe = read_entry113(buf)?;
            proof {
                lemma_parse_entry113_bounds(bs, cur);
                let t = parse_entry113(bs, cur)->Some_0;
                assert(md_decode113(bs, cur) == (match md_decode113(bs, t.1) {
                    None => None::<(Seq<(i32, ValueModel)>, int)>,
                    Some((rest, end)) => Some((
                        match t.0 {
                            Some(e) => seq![e] + rest,
                            None => rest,
                        },
                        end,
                    )),
                }));
            }
            match oe {
                Some(e) => {
                    let (idx, v) = e;
                    let ghost m_old = m@;
                    m.put_raw(idx, v);
                    proof {
                        let t = parse_entry113(bs, cur)->Some_0;
                        let em = t.0->Some_0;
                        match md_decode113(bs, buf.pos as int) {
                            Some((rest, end)) => {
                                let raw_cur = seq![em] + rest;
                                assert(raw_cur[0] == em);
                                assert(raw_cur.subrange(1, raw_cur.len() as int) =~= rest);
                                assert(spec_apply(m_old, raw_cur) == spec_apply(
                                    spec_put(m_old, em.0, em.1),
                                    rest,
                                ));
                            },
                            None => {},
                        }
                    }
                },
                None => {
                },
            }
        }
    }
}


/// The wire bytes of one 1.13 entry, if its value exists in that
/// dialect and its text fits a wire string.
pub open spec fn entry_bytes113(k: i32, v: ValueModel) -> Option<Seq<u8>> {
    if k < 0 || k > 0xFE {
        None
    } else {
        entry_bytes113_at(k as u8, v)
    }
}

/// The wire bytes of a 1.13 entry at an index that fits its byte (the
/// terminator byte itself is never a valid index).
pub open spec fn entry_bytes113_at(kb: u8, v: ValueModel) -> Option<Seq<u8>> {
    match v {
        ValueModel::Byte(b) => Some(seq![kb, 0u8, b as u8]),
        ValueModel::Int(i) => Some(seq![kb, 1u8] + varuint_bytes((i as u32) as u64)),
        ValueModel::Float(f) => Some(seq![kb, 2u8] + spec_u32_be(f)),
        ValueModel::Str(s) => if vstd::utf8::encode_utf8(s).len() <= 65536 {
            Some(seq![kb, 3u8] + string_bytes(s))
        } else {
            None
        },
        ValueModel::FormatComponent(s) => if vstd::utf8::encode_utf8(s).len() <= 65536 {
            Some(seq![kb, 4u8] + string_bytes(s))
        } else {
            None
        },
        ValueModel::Bool(b) => Some(
            seq![kb, 7u8, if b {
                1u8
            } else {
                0u8
            }],
        ),
        ValueModel::Vector(a, b, c) => Some(
            seq![kb, 8u8] + spec_u32_be(a) + spec_u32_be(b) + spec_u32_be(c),
        ),
        ValueModel::Position(p) => Some(seq![kb, 9u8] + spec_u64_be(spec_position_word(p))),
        ValueModel::OptionalPosition(op) => Some(
            seq![kb, 10u8] + (match op {
                Some(p) => seq![1u8] + spec_u64_be(spec_position_word(p)),
                None => seq![0u8],
            }),
        ),
        ValueModel::Direction(d) => Some(seq![kb, 11u8] + varuint_bytes((d.0 as u32) as u64)),
        ValueModel::OptionalUUID(ou) => Some(
            seq![kb, 12u8] + (match ou {
                Some(u) => seq![1u8] + spec_u64_be(u.0) + spec_u64_be(u.1),
                None => seq![0u8],
            }),
        ),
        ValueModel::Block(w) => Some(seq![kb, 13u8] + varuint_bytes(w as u64)),
        ValueModel::Short(_) => None,
        ValueModel::Rotation(_, _, _) => None,
        ValueModel::OptionalFormatComponent(o) => match o {
            Some(sc) => if vstd::utf8::encode_utf8(sc).len() <= 65536 {
                Some(seq![kb, 5u8, 1u8] + string_bytes(sc))
            } else {
                None
            },
            None => Some(seq![kb, 5u8, 0u8]),
        },
    }
}


/// The wire bytes of a 1.13 entry list, without its terminator.
pub open spec fn md_bytes113(s: Seq<(i32, ValueModel)>) -> Option<Seq<u8>>
    decreases s.len(),
{
    if s.len() == 0 {
        Some(Seq::empty())
    } else {
        match entry_bytes113(s[0].0, s[0].1) {
            None => None,
            Some(b) => match md_bytes113(s.subrange(1, s.len() as int)) {
                None => None,
                Some(bs) => Some(b + bs),
            },
        }
    }
}


/// Write one 1.13 entry, or refuse a value that dialect cannot
/// carry.
fn write_entry113(k: i32, v: &MetadataValue, out: &mut Vec<u8>) -> (r: Result<(), Error>)
    ensures
        match entry_bytes113(k, v@) {
            Some(b) => r is Ok && final(out)@ == old(out)@ + b,
            None => r matches Err(e) && e == Error::BadPacket && final(out)@ == old(out)@,
        },
{
    if k < 0 || k > 0xFE {
        return Err(Error::BadPacket);
    }
    let kb: u8 = k as u8;
    match v {
        MetadataValue::Byte(b) => {
            write_u8(out, kb);
            write_u8(out, 0);
            write_u8(out, #[verifier::truncate] (*b as u8));
            proof {
                assert(final(out)@ =~= old(out)@ + entry_bytes113(k, v@)->Some_0);
            }
            Ok(())
        },
        MetadataValue::Int(i) => {
            write_u8(out, kb);
            write_u8(out, 1);
            VarInt(*i).write_to(out);
            proof {
                assert(final(out)@ =~= old(out)@ + entry_bytes113(k, v@)->Some_0);
            }
            Ok(())
        },
        MetadataValue::Float(f) => {
            write_u8(out, kb);
            write_u8(out, 2);
            write_u32_be(out, *f);
            proof {
                assert(final(out)@ =~= old(out)@ + entry_bytes113(k, v@)->Some_0);
            }
            Ok(())
        },
        MetadataValue::Str(s) => {
            if s.as_str().as_bytes().len() > 65536 {
                return Err(Error::BadPacket);
            }
            write_u8(out, kb);
            write_u8(out, 3);
            let wr = write_string(out, s);
            proof {
                assert(wr is Ok);
                assert(final(out)@ =~= old(out)@ + entry_bytes113(k, v@)->Some_0);
            }
            Ok(())
        },
        MetadataValue::FormatComponent(s) => {
            if s.as_str().as_bytes().len() > 65536 {
                return Err(Error::BadPacket);
            }
            write_u8(out, kb);
            write_u8(out, 4);
            let wr = write_string(out, s);
            proof {
                assert(wr is Ok);
                assert(final(out)@ =~= old(out)@ + entry_bytes113(k, v@)->Some_0);
            }
            Ok(())
        },
        MetadataValue::Bool(b) => {
            write_u8(out, kb);
            write_u8(out, 7);
            write_bool(out, *b);
            proof {
                assert(final(out)@ =~= old(out)@ + entry_bytes113(k, v@)->Some_0);
            }
            Ok(())
        },
        MetadataValue::Vector(a, b, c) => {
            write_u8(out, kb);
            write_u8(out, 8);
            write_u32_be(out, *a);
            write_u32_be(out, *b);
            write_u32_be(out, *c);
            proof {
                assert(final(out)@ =~= old(out)@ + entry_bytes113(k, v@)->Some_0);
            }
            Ok(())
        },
        MetadataValue::Position(p) => {
            write_u8(out, kb);
            write_u8(out, 9);
            p.write_to(out);
            proof {
                assert(final(out)@ =~= old(out)@ + entry_bytes113(k, v@)->Some_0);
            }
            Ok(())
        },
        MetadataValue::OptionalPosition(op) => {
            write_u8(out, kb);
            write_u8(out, 10);
            match op {
                Some(p) => {
                    write_bool(out, true);
                    p.write_to(out);
                },
                None => {
                    write_bool(out, false);
                },
            }
            proof {
                assert(final(out)@ =~= old(out)@ + entry_bytes113(k, v@)->Some_0);
            }
            Ok(())
        },
        MetadataValue::Direction(d) => {
            write_u8(out, kb);
            write_u8(out, 11);
            d.write_to(out);
            proof {
                assert(final(out)@ =~= old(out)@ + entry_bytes113(k, v@)->Some_0);
            }
            Ok(())
        },
        MetadataValue::OptionalUUID(ou) => {
            write_u8(out, kb);
            write_u8(out, 12);
            match ou {
                Some(u) => {
                    write_bool(out, true);
                    u.write_to(out);
                },
                None => {
                    write_bool(out, false);
                },
            }
            proof {
                assert(final(out)@ =~= old(out)@ + entry_bytes113(k, v@)->Some_0);
            }
            Ok(())
        },
        MetadataValue::Block(w) => {
            write_u8(out, kb);
            write_u8(out, 13);
            VarInt(*w as i32).write_to(out);
            proof {
                assert((((*w as i32) as u32) as u64) == (*w as u64)) by (bit_vector);
                assert(final(out)@ =~= old(out)@ + entry_bytes113(k, v@)->Some_0);
            }
            Ok(())
        },
        MetadataValue::Short(_) => Err(Error::BadPacket),
        MetadataValue::Rotation(_, _, _) => Err(Error::BadPacket),
        MetadataValue::OptionalFormatComponent(o) => {
            match o {
                Some(sc) => {
                    if sc.as_str().as_bytes().len() > 65536 {
                        return Err(Error::BadPacket);
                    }
                    write_u8(out, kb);
                    write_u8(out, 5);
                    write_bool(out, true);
                    let wr = write_string(out, sc);
                    proof {
                        assert(wr is Ok);
                        assert(final(out)@ =~= old(out)@ + entry_bytes113(k, v@)->Some_0);
                    }
                },
                None => {
                    write_u8(out, kb);
                    write_u8(out, 5);
                    write_bool(out, false);
                    proof {
                        assert(final(out)@ =~= old(out)@ + entry_bytes113(k, v@)->Some_0);
                    }
                },
            }
            Ok(())
        },
    }
}


impl Metadata {
    /// Encode for the 1.13 dialect; a value that dialect cannot
    /// carry is refused rather than dropped, and nothing is written
    /// then.
    pub fn write_to113(&self, out: &mut Vec<u8>) -> (r: Result<(), Error>)
        ensures
            match md_bytes113(self@) {
                Some(b) => r is Ok && final(out)@ == old(out)@ + b + seq![0xFFu8],
                None => r matches Err(e) && e == Error::BadPacket && final(out)@ == old(out)@,
            },
    {
        let ghost sm = self@;
        let mut tmp: Vec<u8> = Vec::new();
        let n = self.entries.len();
        let mut i: usize = 0;
        proof {
            assert(sm.skip(0) =~= sm);
        }
        while i < n
            invariant
                i <= n,
                n == self.entries@.len(),
                sm == self@,
                sm.len() == n,
                match (md_bytes113(sm), md_bytes113(sm.skip(i as int))) {
                    (Some(b0), Some(b)) => b0 == tmp@ + b,
                    (None, None) => true,
                    _ => false,
                },
            decreases n - i,
        {
            proof {
                assert(sm[i as int] == (self.entries@[i as int].0, self.entries@[i as int].1@));
                let sk = sm.skip(i as int);
                assert(sk[0] == sm[i as int]);
                assert(sk.subrange(1, sk.len() as int) =~= sm.skip(i as int + 1));
            }
            let e = &self.entries[i];
            match write_entry113(e.0, &e.1, &mut tmp) {
                Ok(_) => {},
                Err(_) => {
                    return Err(Error::BadPacket);
                },
            }
            i = i + 1;
        }
        proof {
            assert(sm.skip(n as int) =~= Seq::<(i32, ValueModel)>::empty());
        }
        write_bytes(out, &tmp);
        write_u8(out, 0xFF);
        proof {
            assert(final(out)@ =~= old(out)@ + md_bytes113(sm)->Some_0 + seq![0xFFu8]);
        }
        Ok(())
    }
}



/// One parsed entry of the pre-1.9 dialect: a header byte packing the
/// index (low five bits) and the type tag (high three), then the tag's
/// payload. `None`: the bytes cannot be decoded.
pub open spec fn parse_entry18(bytes: Seq<u8>, pos: int) -> Option<((i32, ValueModel), int)> {
    let h = bytes[pos];
    let idx = (h & 0x1f) as i32;
    let ty = h >> 5;
    if ty == 0 {
        if pos + 2 <= bytes.len() {
            Some(((idx, ValueModel::Byte(bytes[pos + 1] as i8)), pos + 2))
        } else {
            None
        }
    } else if ty == 1 {
        if pos + 3 <= bytes.len() {
            Some(((idx, ValueModel::Short(spec_u16_at(bytes, pos + 1) as i16)), pos + 3))
        } else {
            None
        }
    } else if ty == 2 {
        if pos + 5 <= bytes.len() {
            Some(((idx, ValueModel::Int(spec_u32_at(bytes, pos + 1) as i32)), pos + 5))
        } else {
            None
        }
    } else if ty == 3 {
        if pos + 5 <= bytes.len() {
            Some(((idx, ValueModel::Float(spec_u32_at(bytes, pos + 1))), pos + 5))
        } else {
            None
        }
    } else if ty == 4 {
        match string_decode(bytes, pos + 1) {
            Some((sc, q)) => Some(((idx, ValueModel::Str(sc)), q)),
            None => None,
        }
    } else if ty == 6 {
        if pos + 13 <= bytes.len() {
            Some((
                (
                    idx,
                    ValueModel::Rotation(
                        spec_u32_at(bytes, pos + 1) as i32,
                        spec_u32_at(bytes, pos + 5) as i32,
                        spec_u32_at(bytes, pos + 9) as i32,
                    ),
                ),
                pos + 13,
            ))
        } else {
            None
        }
    } else if ty == 7 {
        if pos + 13 <= bytes.len() {
            Some((
                (
                    idx,
                    ValueModel::Vector(
                        spec_u32_at(bytes, pos + 1),
                        spec_u32_at(bytes, pos + 5),
                        spec_u32_at(bytes, pos + 9),
                    ),
                ),
                pos + 13,
            ))
        } else {
            None
        }
    } else {
        None
    }
}

proof fn lemma_parse_entry18_bounds(bytes: Seq<u8>, pos: int)
    ensures
        parse_entry18(bytes, pos) matches Some(t) ==> pos < t.1 <= bytes.len(),
{
    lemma_string_decode_bounds(bytes, pos + 1);
}

#[via_fn]
proof fn md_decode18_dec(bytes: Seq<u8>, pos: int) {
    lemma_parse_entry18_bounds(bytes, pos);
}

/// The raw entry list of a pre-1.9 metadata blob starting at `pos`, and
/// the position just past its `0x7F` terminator.
pub open spec fn md_decode18(bytes: Seq<u8>, pos: int) -> Option<(Seq<(i32, ValueModel)>, int)>
    decreases bytes.len() - pos,
    via md_decode18_dec
{
    if pos < 0 || pos >= bytes.len() {
        None
    } else if bytes[pos] == 0x7F {
        Some((Seq::empty(), pos + 1))
    } else {
        match parse_entry18(bytes, pos) {
            None => None,
            Some((e, p2)) => match md_decode18(bytes, p2) {
                None => None,
                Some((rest, end)) => Some((seq![e] + rest, end)),
            },
        }
    }
}

/// Read one entry of the pre-1.9 dialect; the caller has checked that
/// the next byte is no terminator.
fn read_entry18(buf: &mut Reader) -> (r: Result<(i32, MetadataValue), Error>)
    ensures
        final(buf).data@ == old(buf).data@,
        match parse_entry18(old(buf).data@, old(buf).pos as int) {
            Some((em, p2)) => r matches Ok(e) && final(buf).pos == p2 && final(buf).pos
                <= final(buf).data@.len() && e.0 == em.0 && e.1@ == em.1,
            None => r is Err,
        },
{
    proof {
        lemma_parse_entry18_bounds(old(buf).data@, old(buf).pos as int);
    }
    let h = buf.read_u8()?;
    let idx = (h & 0x1f) as i32;
    let ty = h >> 5;
    if ty == 0 {
        let b = buf.read_u8()?;
        Ok((idx, MetadataValue::Byte(#[verifier::truncate] (b as i8))))
    } else if ty == 1 {
        let v = buf.read_u16_be()?;
        Ok((idx, MetadataValue::Short(#[verifier::truncate] (v as i16))))
    } else if ty == 2 {
        let v = buf.read_u32_be()?;
        Ok((idx, MetadataValue::Int(#[verifier::truncate] (v as i32))))
    } else if ty == 3 {
        let v = buf.read_u32_be()?;
        Ok((idx, MetadataValue::Float(v)))
    } else if ty == 4 {
        let sc = buf.read_string()?;
        Ok((idx, MetadataValue::Str(sc)))
    } else if ty == 6 {
        let a = buf.read_u32_be()?;
        let b = buf.read_u32_be()?;
        let c = buf.read_u32_be()?;
        Ok((
            idx,
            MetadataValue::Rotation(
                #[verifier::truncate] (a as i32),
                #[verifier::truncate] (b as i32),
                #[verifier::truncate] (c as i32),
            ),
        ))
    } else if ty == 7 {
        let a = buf.read_u32_be()?;
        let b = buf.read_u32_be()?;
        let c = buf.read_u32_be()?;
        Ok((idx, MetadataValue::Vector(a, b, c)))
    } else {
        Err(Error::BadPacket)
    }
}

impl Metadata {
    /// Decode a pre-1.9 metadata blob: entries until the `0x7F`
    /// terminator, later entries for a key winning.
    pub fn read_from18(buf: &mut Reader) -> (r: Result<Metadata, Error>)
        ensures
            final(buf).data@ == old(buf).data@,
            match md_decode18(old(buf).data@, old(buf).pos as int) {
                Some((raw, end)) => r matches Ok(m) && m@ == spec_apply(Seq::empty(), raw)
                    && final(buf).pos == end,
                None => r is Err,
            },
    {
        let ghost bs = old(buf).data@;
        let ghost pos0 = old(buf).pos as int;
        let mut m = Metadata::new();
        loop
            invariant
                buf.data@ == bs,
                bs == old(buf).data@,
                pos0 == old(buf).pos as int,
                match (md_decode18(bs, pos0), md_decode18(bs, buf.pos as int)) {
                    (Some((raw0, end0)), Some((raw, end))) => end0 == end && spec_apply(
                        Seq::empty(),
                        raw0,
                    ) == spec_apply(m@, raw),
                    (None, None) => true,
                    _ => false,
                },
            decreases bs.len() - buf.pos,
        {
            let ghost cur = buf.pos as int;
            let start = buf.pos;
            let b = buf.read_u8()?;
            if b == 0x7F {
                proof {
                    assert(md_decode18(bs, cur) == Some((
                        Seq::<(i32, ValueModel)>::empty(),
                        cur + 1,
                    )));
                    assert(spec_apply(m@, Seq::<(i32, ValueModel)>::empty()) == m@);
                }
                return Ok(m);
            }
            buf.pos = start;
            let e = read_entry18(buf)?;
            proof {
                lemma_parse_entry18_bounds(bs, cur);
            }
            let (idx, v) = e;
            let ghost m_old = m@;
            m.put_raw(idx, v);
            proof {
                let t = parse_entry18(bs, cur)->Some_0;
                let em = t.0;
                match md_decode18(bs, buf.pos as int) {
                    Some((rest, end)) => {
                        let raw_cur = seq![em] + rest;
                        assert(raw_cur[0] == em);
                        assert(raw_cur.subrange(1, raw_cur.len() as int) =~= rest);
                        assert(spec_apply(m_old, raw_cur) == spec_apply(
                            spec_put(m_old, em.0, em.1),
                            rest,
                        ));
                    },
                    None => {},
                }
            }
        }
    }
}

/// The wire bytes of one pre-1.9 entry, if its value exists in that
/// dialect, its index fits five bits, and its text fits a wire string.
pub open spec fn entry_bytes18(k: i32, v: ValueModel) -> Option<Seq<u8>> {
    if k < 0 || k > 0x1f {
        None
    } else {
        let kb = k as u8;
        match v {
            ValueModel::Byte(b) => Some(seq![kb, b as u8]),
            ValueModel::Short(sv) => Some(seq![(kb | 0x20) as u8] + spec_u16_be(sv as u16)),
            ValueModel::Int(i) => Some(seq![(kb | 0x40) as u8] + spec_u32_be(i as u32)),
            ValueModel::Float(f) => Some(seq![(kb | 0x60) as u8] + spec_u32_be(f)),
            ValueModel::Str(sc) => if vstd::utf8::encode_utf8(sc).len() <= 65536 {
                Some(seq![(kb | 0x80) as u8] + string_bytes(sc))
            } else {
                None
            },
            ValueModel::Rotation(a, b, c) => Some(
                seq![(kb | 0xC0) as u8] + spec_u32_be(a as u32) + spec_u32_be(b as u32)
                    + spec_u32_be(c as u32),
            ),
            ValueModel::Vector(a, b, c) => Some(
                seq![(kb | 0xE0) as u8] + spec_u32_be(a) + spec_u32_be(b) + spec_u32_be(c),
            ),
            _ => None,
        }
    }
}

/// The wire bytes of a pre-1.9 entry list, without its terminator.
pub open spec fn md_bytes18(s: Seq<(i32, ValueModel)>) -> Option<Seq<u8>>
    decreases s.len(),
{
    if s.len() == 0 {
        Some(Seq::empty())
    } else {
        match entry_bytes18(s[0].0, s[0].1) {
            None => None,
            Some(b) => match md_bytes18(s.subrange(1, s.len() as int)) {
                None => None,
                Some(bs) => Some(b + bs),
            },
        }
    }
}

/// Write one pre-1.9 entry, or refuse a value that dialect cannot carry
/// or an index past five bits.
fn write_entry18(k: i32, v: &MetadataValue, out: &mut Vec<u8>) -> (r: Result<(), Error>)
    ensures
        match entry_bytes18(k, v@) {
            Some(b) => r is Ok && final(out)@ == old(out)@ + b,
            None => r matches Err(e) && e == Error::BadPacket && final(out)@ == old(out)@,
        },
{
    if k < 0 || k > 0x1f {
        return Err(Error::BadPacket);
    }
    let kb: u8 = k as u8;
    match v {
        MetadataValue::Byte(b) => {
            write_u8(out, kb);
            write_u8(out, #[verifier::truncate] (*b as u8));
            proof {
                assert(final(out)@ =~= old(out)@ + entry_bytes18(k, v@)->Some_0);
            }
            Ok(())
        },
        MetadataValue::Short(sv) => {
            write_u8(out, kb | 0x20);
            write_u16_be(out, #[verifier::truncate] (*sv as u16));
            proof {
                assert(final(out)@ =~= old(out)@ + entry_bytes18(k, v@)->Some_0);
            }
            Ok(())
        },
        MetadataValue::Int(i) => {
            write_u8(out, kb | 0x40);
            write_u32_be(out, #[verifier::truncate] (*i as u32));
            proof {
                assert(final(out)@ =~= old(out)@ + entry_bytes18(k, v@)->Some_0);
            }
            Ok(())
        },
        MetadataValue::Float(f) => {
            write_u8(out, kb | 0x60);
            write_u32_be(out, *f);
            proof {
                assert(final(out)@ =~= old(out)@ + entry_bytes18(k, v@)->Some_0);
            }
            Ok(())
        },
        MetadataValue::Str(sc) => {
            if sc.as_str().as_bytes().len() > 65536 {
                return Err(Error::BadPacket);
            }
            write_u8(out, kb | 0x80);
            let wr = write_string(out, sc);
            proof {
                assert(wr is Ok);
                assert(final(out)@ =~= old(out)@ + entry_bytes18(k, v@)->Some_0);
            }
            Ok(())
        },
        MetadataValue::Rotation(a, b, c) => {
            write_u8(out, kb | 0xC0);
            write_u32_be(out, #[verifier::truncate] (*a as u32));
            write_u32_be(out, #[verifier::truncate] (*b as u32));
            write_u32_be(out, #[verifier::truncate] (*c as u32));
            proof {
                assert(final(out)@ =~= old(out)@ + entry_bytes18(k, v@)->Some_0);
            }
            Ok(())
        },
        MetadataValue::Vector(a, b, c) => {
            write_u8(out, kb | 0xE0);
            write_u32_be(out, *a);
            write_u32_be(out, *b);
            write_u32_be(out, *c);
            proof {
                assert(final(out)@ =~= old(out)@ + entry_bytes18(k, v@)->Some_0);
            }
            Ok(())
        },
        _ => Err(Error::BadPacket),
    }
}

impl Metadata {
    /// Encode for the pre-1.9 dialect; a value that dialect cannot carry
    /// is refused rather than dropped, and nothing is written then.
    pub fn write_to18(&self, out: &mut Vec<u8>) -> (r: Result<(), Error>)
        ensures
            match md_bytes18(self@) {
                Some(b) => r is Ok && final(out)@ == old(out)@ + b + seq![0x7Fu8],
                None => r matches Err(e) && e == Error::BadPacket && final(out)@ == old(out)@,
            },
    {
        let ghost sm = self@;
        let mut tmp: Vec<u8> = Vec::new();
        let n = self.entries.len();
        let mut i: usize = 0;
        proof {
            assert(sm.skip(0) =~= sm);
        }
        while i < n
            invariant
                i <= n,
                n == self.entries@.len(),
                sm == self@,
                sm.len() == n,
                match (md_bytes18(sm), md_bytes18(sm.skip(i as int))) {
                    (Some(b0), Some(b)) => b0 == tmp@ + b,
                    (None, None) => true,
                    _ => false,
                },
            decreases n - i,
        {
            proof {
                assert(sm[i as int] == (self.entries@[i as int].0, self.entries@[i as int].1@));
                let sk = sm.skip(i as int);
                assert(sk[0] == sm[i as int]);
                assert(sk.subrange(1, sk.len() as int) =~= sm.skip(i as int + 1));
            }
            let e = &self.entries[i];
            match write_entry18(e.0, &e.1, &mut tmp) {
                Ok(_) => {},
                Err(_) => {
                    return Err(Error::BadPacket);
                },
            }
            i = i + 1;
        }
        proof {
            assert(sm.skip(n as int) =~= Seq::<(i32, ValueModel)>::empty());
        }
        write_bytes(out, &tmp);
        write_u8(out, 0x7F);
        proof {
            assert(final(out)@ =~= old(out)@ + md_bytes18(sm)->Some_0 + seq![0x7Fu8]);
        }
        Ok(())
    }
}

/// The raw entry list a metadata blob decodes to under the dialect the
/// protocol version selects.
pub open spec fn md_decode(version: i32, bytes: Seq<u8>, pos: int) -> Option<
    (Seq<(i32, ValueModel)>, int),
> {
    if version >= 404 {
        md_decode113(bytes, pos)
    } else if version >= 74 {
        md_decode19(bytes, pos)
    } else {
        md_decode18(bytes, pos)
    }
}

/// The wire bytes of an entry list under the dialect the protocol
/// version selects, without the dialect's terminator.
pub open spec fn md_bytes(version: i32, s: Seq<(i32, ValueModel)>) -> Option<Seq<u8>> {
    if version >= 404 {
        md_bytes113(s)
    } else if version >= 74 {
        md_bytes19(s)
    } else {
        md_bytes18(s)
    }
}

/// The dialect's terminator byte.
pub open spec fn md_terminator(version: i32) -> u8 {
    if version >= 74 {
        0xFF
    } else {
        0x7F
    }
}

impl Metadata {
    /// Decode metadata under the dialect the negotiated protocol version
    /// selects.
    pub fn read_from(buf: &mut Reader, protocol_version: i32) -> (r: Result<Metadata, Error>)
        ensures
            final(buf).data@ == old(buf).data@,
            match md_decode(protocol_version, old(buf).data@, old(buf).pos as int) {
                Some((raw, end)) => r matches Ok(m) && m@ == spec_apply(Seq::empty(), raw)
                    && final(buf).pos == end,
                None => r is Err,
            },
    {
        if protocol_version >= 404 {
            Metadata::read_from113(buf)
        } else if protocol_version >= 74 {
            Metadata::read_from19(buf)
        } else {
            Metadata::read_from18(buf)
        }
    }

    /// Encode metadata under the dialect the negotiated protocol version
    /// selects; a value the dialect cannot carry is refused.
    pub fn write_to(&self, out: &mut Vec<u8>, protocol_version: i32) -> (r: Result<(), Error>)
        ensures
            match md_bytes(protocol_version, self@) {
                Some(b) => r is Ok && final(out)@ == old(out)@ + b + seq![
                    md_terminator(protocol_version),
                ],
                None => r matches Err(e) && e == Error::BadPacket && final(out)@ == old(out)@,
            },
    {
        if protocol_version >= 404 {
            self.write_to113(out)
        } else if protocol_version >= 74 {
            self.write_to19(out)
        } else {
            self.write_to18(out)
        }
    }
}

} // verus!
