//! TLV8 (type, length, value) encoding as HomeKit uses it.
//!
//! Every item is written as one type byte, one length byte and that many value
//! bytes. A value longer than 255 bytes is split into fragments of 255 bytes
//! (the last one shorter or equal), each carrying the same type byte. When
//! reading, a fragment of exactly 255 bytes is joined with the record that
//! follows it if that record has the same type.

use vstd::prelude::*;

verus! {

/// The bytes one item takes on the wire, fragments included.
pub open spec fn encode_item(t: u8, v: Seq<u8>) -> Seq<u8>
    decreases v.len(),
{
    if v.len() <= 255 {
        seq![t, v.len() as u8] + v
    } else {
        seq![t, 255u8] + v.take(255) + encode_item(t, v.skip(255))
    }
}

/// The bytes a list of items takes on the wire: the items one after the other.
pub open spec fn encode_items(items: Seq<(u8, Seq<u8>)>) -> Seq<u8>
    decreases items.len(),
{
    if items.len() == 0 {
        Seq::empty()
    } else {
        encode_items(items.drop_last()) + encode_item(items.last().0, items.last().1)
    }
}

/// A fragment of 255 bytes of type `t` followed by the records `rest`: it is
/// joined with the first of them when that one has the same type.
pub open spec fn join_fragment(t: u8, v: Seq<u8>, rest: Seq<(u8, Seq<u8>)>) -> Seq<(u8, Seq<u8>)> {
    if rest.len() > 0 && rest[0].0 == t {
        seq![(t, v + rest[0].1)] + rest.drop_first()
    } else {
        seq![(t, v)] + rest
    }
}

/// Whether `b` starts with a complete fragment (header and all its value bytes).
pub open spec fn starts_with_fragment(b: Seq<u8>) -> bool {
    b.len() >= 2 && b.len() >= 2 + b[1]
}

/// The records that `b` holds, fragments joined, in the order they come.
/// Reading stops at the first fragment that is not complete.
pub open spec fn records(b: Seq<u8>) -> Seq<(u8, Seq<u8>)>
    decreases b.len(),
{
    if !starts_with_fragment(b) {
        Seq::empty()
    } else {
        let l = b[1] as int;
        let v = b.subrange(2, 2 + l);
        let rest = records(b.skip(2 + l));
        if l == 255 {
            join_fragment(b[0], v, rest)
        } else {
            seq![(b[0], v)] + rest
        }
    }
}

/// The map from type to value that a list of records gives, a later record of a
/// type replacing an earlier one.
pub open spec fn items_map(items: Seq<(u8, Seq<u8>)>) -> Map<u8, Seq<u8>>
    decreases items.len(),
{
    if items.len() == 0 {
        Map::empty()
    } else {
        items_map(items.drop_last()).insert(items.last().0, items.last().1)
    }
}

/// What decoding `b` gives: the map of its records.
pub open spec fn spec_decode(b: Seq<u8>) -> Map<u8, Seq<u8>> {
    items_map(records(b))
}

/// The items with their values taken by view.
pub open spec fn items_view(items: Seq<(u8, Vec<u8>)>) -> Seq<(u8, Seq<u8>)> {
    items.map_values(|p: (u8, Vec<u8>)| (p.0, p.1@))
}

/// Appends `bytes[start..end]` to `out`.
fn push_range(out: &mut Vec<u8>, bytes: &[u8], start: usize, end: usize)
    requires
        start <= end <= bytes@.len(),
    ensures
        final(out)@ == old(out)@ + bytes@.subrange(start as int, end as int),
{
    let mut i = start;
    while i < end
        invariant
            start <= i <= end <= bytes@.len(),
            out@ == old(out)@ + bytes@.subrange(start as int, i as int),
        decreases end - i,
    {
        out.push(bytes[i]);
        i = i + 1;
        assert(out@ =~= old(out)@ + bytes@.subrange(start as int, i as int));
    }
}

/// Appends the encoding of one item to `out`.
pub(crate) fn push_item(out: &mut Vec<u8>, t: u8, v: &[u8])
    ensures
        final(out)@ == old(out)@ + encode_item(t, v@),
{
    let n = v.len();
    let mut pos: usize = 0;
    assert(v@.skip(0) =~= v@);
    while n - pos > 255
        invariant
            n == v@.len(),
            pos <= n,
            old(out)@ + encode_item(t, v@) == out@ + encode_item(t, v@.skip(pos as int)),
        decreases n - pos,
    {
        let ghost before = out@;
        out.push(t);
        out.push(255u8);
        push_range(out, v, pos, pos + 255);
        proof {
            let rest = v@.skip(pos as int);
            assert(rest.take(255) =~= v@.subrange(pos as int, pos + 255));
            assert(rest.skip(255) =~= v@.skip(pos + 255));
            assert(encode_item(t, rest) == seq![t, 255u8] + rest.take(255) + encode_item(
                t,
                rest.skip(255),
            ));
            assert(out@ =~= before + seq![t, 255u8] + rest.take(255));
        }
        pos = pos + 255;
    }
    let ghost before = out@;
    out.push(t);
    out.push((n - pos) as u8);
    push_range(out, v, pos, n);
    proof {
        let rest = v@.skip(pos as int);
        assert(rest =~= v@.subrange(pos as int, n as int));
        assert(encode_item(t, rest) == seq![t, rest.len() as u8] + rest);
        assert(out@ =~= before + encode_item(t, rest));
    }
}

/// Encodes the items one after the other, splitting values longer than 255 bytes
/// into fragments.
pub fn encode(items: Vec<(u8, Vec<u8>)>) -> (out: Vec<u8>)
    ensures
        out@ == encode_items(items_view(items@)),
{
    let mut out: Vec<u8> = Vec::new();
    let mut i: usize = 0;
    while i < items.len()
        invariant
            i <= items@.len(),
            out@ == encode_items(items_view(items@).take(i as int)),
        decreases items@.len() - i,
    {
        let t = items[i].0;
        push_item(&mut out, t, items[i].1.as_slice());
        proof {
            let iv = items_view(items@);
            assert(iv.take(i + 1).drop_last() =~= iv.take(i as int));
        }
        i = i + 1;
    }
    proof {
        assert(items_view(items@).take(i as int) =~= items_view(items@));
    }
    out
}


/// A decoded TLV8 message: for each type byte, the value that the message gave it last.
pub struct TlvMap {
    slots: Vec<Option<Vec<u8>>>,
}

impl View for TlvMap {
    type V = Map<u8, Seq<u8>>;

    closed spec fn view(&self) -> Map<u8, Seq<u8>> {
        Map::new(
            |k: u8| self.slots@[k as int] is Some,
            |k: u8| self.slots@[k as int]->Some_0@,
        )
    }
}

impl TlvMap {
    /// Every type byte has its slot.
    pub closed spec fn wf(&self) -> bool {
        self.slots@.len() == 256
    }

    /// An empty map.
    pub fn new() -> (m: TlvMap)
        ensures
            m.wf(),
            m@ == Map::<u8, Seq<u8>>::empty(),
    {
        let mut slots: Vec<Option<Vec<u8>>> = Vec::new();
        let mut i: usize = 0;
        while i < 256
            invariant
                i <= 256,
                slots@.len() == i,
                forall|j: int| 0 <= j < i ==> slots@[j] is None,
            decreases 256 - i,
        {
            slots.push(None);
            i = i + 1;
        }
        let m = TlvMap { slots };
        assert(m@ =~= Map::<u8, Seq<u8>>::empty());
        m
    }

    /// Gives type `t` the value `v`, replacing what it had.
    pub fn insert(&mut self, t: u8, v: Vec<u8>)
        requires
            old(self).wf(),
        ensures
            final(self).wf(),
            final(self)@ == old(self)@.insert(t, v@),
    {
        let ghost vv = v@;
        self.slots.set(t as usize, Some(v));
        assert(self@ =~= old(self)@.insert(t, vv));
    }

    /// The value of type `t`, if the message had one.
    pub fn get(&self, t: u8) -> (r: Option<&Vec<u8>>)
        requires
            self.wf(),
        ensures
            r is Some <==> self@.contains_key(t),
            r matches Some(v) ==> v@ == self@[t],
    {
        match &self.slots[t as usize] {
            Some(v) => Some(v),
            None => None,
        }
    }
}

/// Adding a record at the end adds its entry to the map.
proof fn lemma_items_map_push(items: Seq<(u8, Seq<u8>)>, x: (u8, Seq<u8>))
    ensures
        items_map(items.push(x)) == items_map(items).insert(x.0, x.1),
{
    assert(items.push(x).drop_last() =~= items);
}

/// The records of bytes that start with a complete fragment.
proof fn lemma_records_unfold(b: Seq<u8>)
    requires
        starts_with_fragment(b),
    ensures
        b[1] == 255 ==> records(b) == join_fragment(
            b[0],
            b.subrange(2, 2 + b[1] as int),
            records(b.skip(2 + b[1] as int)),
        ),
        b[1] != 255 ==> records(b) == seq![(b[0], b.subrange(2, 2 + b[1] as int))] + records(
            b.skip(2 + b[1] as int),
        ),
        records(b).len() > 0,
        records(b)[0].0 == b[0],
{
}

/// A fragment joined to a fragment of the same type joined to `rest` is the two
/// fragments' bytes joined to `rest`.
proof fn lemma_join_twice(t: u8, a: Seq<u8>, b: Seq<u8>, rest: Seq<(u8, Seq<u8>)>)
    ensures
        join_fragment(t, a, join_fragment(t, b, rest)) == join_fragment(t, a + b, rest),
{
    if rest.len() > 0 && rest[0].0 == t {
        assert(a + (b + rest[0].1) =~= (a + b) + rest[0].1);
        assert((seq![(t, b + rest[0].1)] + rest.drop_first()).drop_first() =~= rest.drop_first());
    } else {
        assert((seq![(t, b)] + rest).drop_first() =~= rest);
    }
}

/// Decodes a TLV8 message. Fragments of 255 bytes are joined with the record of the
/// same type that follows them; a later record of a type replaces an earlier one;
/// reading stops at the first fragment whose header or value bytes are cut short.
pub fn decode(bytes: &[u8]) -> (m: TlvMap)
    ensures
        m.wf(),
        m@ == spec_decode(bytes@),
{
    let n = bytes.len();
    let mut map = TlvMap::new();
    let mut p: usize = 0;
    let mut pending: Option<(u8, Vec<u8>)> = None;
    let ghost mut done: Seq<(u8, Seq<u8>)> = Seq::empty();
    assert(bytes@.skip(0) =~= bytes@);
    loop
        invariant
            n == bytes@.len(),
            p <= n,
            map.wf(),
            map@ == items_map(done),
            pending is None ==> records(bytes@) == done + records(bytes@.skip(p as int)),
            pending matches Some(pd) ==> records(bytes@) == done + join_fragment(
                pd.0,
                pd.1@,
                records(bytes@.skip(p as int)),
            ),
        ensures
            !starts_with_fragment(bytes@.skip(p as int)),
        decreases n - p,
    {
        let ghost s = bytes@.skip(p as int);
        if n - p < 2 {
            break;
        }
        let t = bytes[p];
        let l = bytes[p + 1] as usize;
        if n - p - 2 < l {
            break;
        }
        proof {
            assert(s[0] == t && s[1] == l);
            lemma_records_unfold(s);
            assert(s.subrange(2, 2 + l) =~= bytes@.subrange(p + 2, p + 2 + l));
            assert(s.skip(2 + l) =~= bytes@.skip(p + 2 + l));
        }
        let ghost rest = records(bytes@.skip(p + 2 + l));
        let ghost v = bytes@.subrange(p + 2, p + 2 + l);
        // a pending fragment of another type stands alone
        let flush = match &pending {
            Some(pd) => pd.0 != t,
            None => false,
        };
        if flush {
            let pd = pending.take().unwrap();
            proof {
                assert(records(s)[0].0 == t);
                assert(join_fragment(pd.0, pd.1@, records(s)) == seq![(pd.0, pd.1@)] + records(
                    s,
                ));
                assert(done + join_fragment(pd.0, pd.1@, records(s)) =~= done.push(
                    (pd.0, pd.1@),
                ) + records(s));
                lemma_items_map_push(done, (pd.0, pd.1@));
                done = done.push((pd.0, pd.1@));
            }
            map.insert(pd.0, pd.1);
        }
        let mut value: Vec<u8> = match pending.take() {
            Some(pd) => pd.1,
            None => Vec::new(),
        };
        let ghost before = value@;
        push_range(&mut value, bytes, p + 2, p + 2 + l);
        if l == 255 {
            proof {
                lemma_join_twice(t, before, v, rest);
            }
            pending = Some((t, value));
        } else {
            proof {
                assert((seq![(t, v)] + rest)[0].0 == t);
                assert((seq![(t, v)] + rest).drop_first() =~= rest);
                lemma_items_map_push(done, (t, before + v));
                done = done.push((t, before + v));
            }
            map.insert(t, value);
        }
        p = p + 2 + l;
    }
    proof {
        assert(records(bytes@.skip(p as int)) == Seq::<(u8, Seq<u8>)>::empty());
    }
    match pending {
        Some(pd) => {
            proof {
                lemma_items_map_push(done, (pd.0, pd.1@));
                assert(done + join_fragment(pd.0, pd.1@, Seq::empty()) =~= done.push(
                    (pd.0, pd.1@),
                ));
            }
            map.insert(pd.0, pd.1);
        },
        None => {
            assert(done + Seq::<(u8, Seq<u8>)>::empty() =~= done);
        },
    }
    map
}

/// The encoding of a list of items, read from the front: the first item, then the others.
proof fn lemma_encode_items_front(items: Seq<(u8, Seq<u8>)>)
    requires
        items.len() > 0,
    ensures
        encode_items(items) == encode_item(items[0].0, items[0].1) + encode_items(
            items.drop_first(),
        ),
    decreases items.len(),
{
    if items.len() == 1 {
        assert(items.drop_last() =~= Seq::<(u8, Seq<u8>)>::empty());
        assert(items.drop_first() =~= Seq::<(u8, Seq<u8>)>::empty());
        assert(encode_items(items.drop_last()) == Seq::<u8>::empty());
        assert(encode_items(items.drop_first()) == Seq::<u8>::empty());
        assert(items.last() == items[0]);
        assert(encode_items(items) =~= encode_item(items[0].0, items[0].1) + encode_items(
            items.drop_first(),
        ));
    } else {
        lemma_encode_items_front(items.drop_last());
        assert(items.drop_last().drop_first() =~= items.drop_first().drop_last());
        assert(items.drop_first().last() == items.last());
        assert(encode_items(items) =~= encode_item(items[0].0, items[0].1) + encode_items(
            items.drop_first(),
        ));
    }
}

/// One item encoded in front of bytes whose first record has another type reads
/// back as that item followed by those records.
proof fn lemma_records_item(t: u8, v: Seq<u8>, s: Seq<u8>)
    requires
        records(s).len() == 0 || records(s)[0].0 != t,
    ensures
        records(encode_item(t, v) + s) == seq![(t, v)] + records(s),
    decreases v.len(),
{
    let b = encode_item(t, v) + s;
    if v.len() <= 255 {
        let l = v.len() as int;
        assert(b[0] == t && b[1] == l as u8);
        assert(b.subrange(2, 2 + l) =~= v);
        assert(b.skip(2 + l) =~= s);
        lemma_records_unfold(b);
    } else {
        let e = encode_item(t, v.skip(255));
        lemma_records_item(t, v.skip(255), s);
        assert(b[0] == t && b[1] == 255u8);
        assert(b.subrange(2, 257) =~= v.take(255));
        assert(b.skip(257) =~= e + s);
        lemma_records_unfold(b);
        assert(v.take(255) + v.skip(255) =~= v);
        assert((seq![(t, v.skip(255))] + records(s)).drop_first() =~= records(s));
        assert(records(b) =~= seq![(t, v)] + records(s));
    }
}

/// Whether no two neighbouring items have the same type.
pub open spec fn neighbours_differ(items: Seq<(u8, Seq<u8>)>) -> bool {
    forall|i: int| 0 <= i < items.len() - 1 ==> #[trigger] items[i].0 != items[i + 1].0
}

/// Encoded items in front of bytes whose first record differs in type from the
/// last item read back as those items followed by those records.
proof fn lemma_records_encode(items: Seq<(u8, Seq<u8>)>, tail: Seq<u8>)
    requires
        neighbours_differ(items),
        items.len() > 0 && records(tail).len() > 0 ==> records(tail)[0].0 != items.last().0,
    ensures
        records(encode_items(items) + tail) == items + records(tail),
    decreases items.len(),
{
    if items.len() == 0 {
        assert(encode_items(items) + tail =~= tail);
        assert(items + records(tail) =~= records(tail));
    } else {
        let rest = items.drop_first();
        assert(neighbours_differ(rest)) by {
            assert forall|i: int| 0 <= i < rest.len() - 1 implies #[trigger] rest[i].0 != rest[i
                + 1].0 by {
                assert(rest[i] == items[i + 1] && rest[i + 1] == items[i + 2]);
            }
        }
        lemma_records_encode(rest, tail);
        lemma_encode_items_front(items);
        let s = encode_items(rest) + tail;
        if rest.len() > 0 {
            assert(records(s)[0] == rest[0]);
            assert(items[0].0 != items[1].0);
        }
        lemma_records_item(items[0].0, items[0].1, s);
        assert(encode_items(items) + tail =~= encode_item(items[0].0, items[0].1) + s);
        assert(seq![(items[0].0, items[0].1)] + (rest + records(tail)) =~= items + records(tail));
    }
}

/// Decoding what `encode` wrote gives back each type's last value, provided no two
/// neighbouring items share a type.
pub proof fn lemma_decode_encode(items: Seq<(u8, Seq<u8>)>)
    requires
        neighbours_differ(items),
    ensures
        spec_decode(encode_items(items)) == items_map(items),
{
    lemma_records_encode(items, Seq::empty());
    assert(encode_items(items) + Seq::<u8>::empty() =~= encode_items(items));
    assert(items + Seq::<(u8, Seq<u8>)>::empty() =~= items);
}

/// In the map of items whose types are all different, each item's type maps to its value.
pub proof fn lemma_items_map_distinct(items: Seq<(u8, Seq<u8>)>, i: int)
    requires
        0 <= i < items.len(),
        forall|j: int, k: int| 0 <= j < k < items.len() ==> items[j].0 != items[k].0,
    ensures
        items_map(items).contains_key(items[i].0),
        items_map(items)[items[i].0] == items[i].1,
    decreases items.len(),
{
    if i < items.len() - 1 {
        lemma_items_map_distinct(items.drop_last(), i);
    }
}

} // verus!
