//! Reflexives: arrays of tag data stored after the struct that refers to them.

use vstd::prelude::*;
use core::marker::PhantomData;
use crate::endian::{spec_splice, spec_u32_to_bytes, lemma_u32_roundtrip};
use crate::error::{Error, OverflowCheck, RinghopperResult};
use crate::map::{CacheMap, DomainType, MapReadError, MapView, spec_map_view};
use crate::parse::{SimpleTagData, TagData, into_u32, spec_read_simple_map, spec_frame_parts, spec_roundtrips, spec_tag_frame};
use crate::primitive::data::{ReflexiveC, Address, Padding, spec_zeros};

verus! {

/// Reading `count` items placed one after the other from `start`, with the extra data cursor at `cursor`: their
/// models, and the cursor after the last one.
pub open spec fn spec_read_items<T: TagData>(data: Seq<u8>, start: int, count: nat, cursor: int) -> RinghopperResult<
    (Seq<T::Model>, int),
>
    decreases count,
{
    if count == 0 {
        Ok((Seq::empty(), cursor))
    } else {
        match spec_read_items::<T>(data, start, (count - 1) as nat, cursor) {
            Err(e) => Err(e),
            Ok((items, c)) => {
                let offset = start + (count - 1) * T::spec_size();
                match T::spec_read_tag(data, offset, offset + T::spec_size(), c) {
                    Err(e) => Err(e),
                    Ok((m, c2)) => Ok((items.push(m), c2)),
                }
            },
        }
    }
}

/// Reading `count` items placed one after the other from `start` in a domain of a map: their models.
pub open spec fn spec_read_items_map<T: TagData>(map: MapView, start: int, count: nat, domain: DomainType) -> Result<
    Seq<T::Model>,
    MapReadError,
>
    decreases count,
{
    if count == 0 {
        Ok(Seq::empty())
    } else {
        match spec_read_items_map::<T>(map, start, (count - 1) as nat, domain) {
            Err(e) => Err(e),
            Ok(items) => match T::spec_read_map(map, start + (count - 1) * T::spec_size(), domain) {
                Err(e) => Err(e),
                Ok(m) => Ok(items.push(m)),
            },
        }
    }
}

/// Once reading an item from a map fails, reading more items fails the same way.
proof fn lemma_read_items_map_err<T: TagData>(map: MapView, start: int, i: nat, n: nat, domain: DomainType)
    requires
        i <= n,
        spec_read_items_map::<T>(map, start, i, domain) is Err,
    ensures
        spec_read_items_map::<T>(map, start, n, domain) == spec_read_items_map::<T>(map, start, i, domain),
    decreases n,
{
    if i < n {
        lemma_read_items_map_err::<T>(map, start, i, (n - 1) as nat, domain);
    }
}

/// Writing the first `count` of `items` one after the other from `start`: the resulting bytes.
pub open spec fn spec_write_items<T: TagData>(items: Seq<T::Model>, data: Seq<u8>, start: int, count: nat) -> RinghopperResult<
    Seq<u8>,
>
    decreases count,
{
    if count == 0 {
        Ok(data)
    } else {
        match spec_write_items::<T>(items, data, start, (count - 1) as nat) {
            Err(e) => Err(e),
            Ok(d) => {
                let offset = start + (count - 1) * T::spec_size();
                T::spec_write_tag(items[count - 1], d, offset, offset + T::spec_size())
            },
        }
    }
}

/// The header of a reflexive with `count` items, as written to tag files: the address is zero.
pub open spec fn spec_reflexive_header<T>(count: u32) -> ReflexiveC<T> {
    ReflexiveC { count, address: Address { address: 0 }, padding: Padding {}, phantom: PhantomData }
}

/// Once reading an item fails, reading more items fails the same way.
proof fn lemma_read_items_err<T: TagData>(data: Seq<u8>, start: int, i: nat, n: nat, cursor: int)
    requires
        i <= n,
        spec_read_items::<T>(data, start, i, cursor) is Err,
    ensures
        spec_read_items::<T>(data, start, n, cursor) == spec_read_items::<T>(data, start, i, cursor),
    decreases n,
{
    if i < n {
        lemma_read_items_err::<T>(data, start, i, (n - 1) as nat, cursor);
    }
}

/// Once writing an item fails, writing more items fails the same way.
proof fn lemma_write_items_err<T: TagData>(items: Seq<T::Model>, data: Seq<u8>, start: int, i: nat, n: nat)
    requires
        i <= n,
        spec_write_items::<T>(items, data, start, i) is Err,
    ensures
        spec_write_items::<T>(items, data, start, n) == spec_write_items::<T>(items, data, start, i),
    decreases n,
{
    if i < n {
        lemma_write_items_err::<T>(items, data, start, i, (n - 1) as nat);
    }
}

/// Writing the first items only looks at those items.
proof fn lemma_write_items_prefix<T: TagData>(a: Seq<T::Model>, b: Seq<T::Model>, data: Seq<u8>, start: int, n: nat)
    requires
        n <= a.len(),
        n <= b.len(),
        forall|k: int| 0 <= k < n ==> a[k] == b[k],
    ensures
        spec_write_items::<T>(a, data, start, n) == spec_write_items::<T>(b, data, start, n),
    decreases n,
{
    if n > 0 {
        lemma_write_items_prefix::<T>(a, b, data, start, (n - 1) as nat);
    }
}

/// `i * size` grows with `i`.
proof fn lemma_mul_step(i: int, n: int, size: int)
    requires
        0 <= i < n,
        0 <= size,
    ensures
        (i + 1) * size == i * size + size,
        i * size + size <= n * size,
        0 <= i * size,
{
    assert((i + 1) * size == i * size + size) by (nonlinear_arith);
    assert((i + 1) * size <= n * size) by (nonlinear_arith)
        requires
            i + 1 <= n,
            0 <= size,
    ;
    assert(0 <= i * size) by (nonlinear_arith)
        requires
            0 <= i,
            0 <= size,
    ;
}

/// The struct bytes of the first `k` of the items whose models are `ms`, one after the other.
pub open spec fn spec_structs_upto<T: TagData>(ms: Seq<T::Model>, k: nat) -> Seq<u8>
    decreases k,
{
    if k == 0 {
        Seq::empty()
    } else {
        spec_structs_upto::<T>(ms, (k - 1) as nat) + spec_frame_parts::<T>(ms[k - 1]).0
    }
}

/// The extra data of the first `k` of the items whose models are `ms`, one after the other.
pub open spec fn spec_extras_upto<T: TagData>(ms: Seq<T::Model>, k: nat) -> Seq<u8>
    decreases k,
{
    if k == 0 {
        Seq::empty()
    } else {
        spec_extras_upto::<T>(ms, (k - 1) as nat) + spec_frame_parts::<T>(ms[k - 1]).1
    }
}

/// The struct bytes of a reflexive with `count` items, as written to tag files.
pub open spec fn spec_reflexive_header_bytes(count: u32) -> Seq<u8> {
    spec_u32_to_bytes(true, count) + spec_u32_to_bytes(true, 0) + spec_zeros(4)
}

/// The items' struct bytes and extra data are what each item is written as.
proof fn lemma_parts<T: TagData>(ms: Seq<T::Model>, i: int)
    requires
        0 <= i < ms.len(),
        spec_roundtrips::<T>(ms[i]),
    ensures
        spec_tag_frame::<T>(ms[i], spec_frame_parts::<T>(ms[i]).0, spec_frame_parts::<T>(ms[i]).1),
{
}

/// The struct bytes of `k` items take `k` times the size of one.
proof fn lemma_structs_len<T: TagData>(ms: Seq<T::Model>, k: nat)
    requires
        k <= ms.len(),
        forall|i: int| 0 <= i < ms.len() ==> spec_roundtrips::<T>(#[trigger] ms[i]),
    ensures
        spec_structs_upto::<T>(ms, k).len() == k * T::spec_size(),
    decreases k,
{
    if k > 0 {
        let j = (k - 1) as nat;
        let size = T::spec_size();
        lemma_structs_len::<T>(ms, j);
        lemma_parts::<T>(ms, j as int);
        assert(spec_frame_parts::<T>(ms[j as int]).0.len() == size);
        assert(spec_structs_upto::<T>(ms, k) == spec_structs_upto::<T>(ms, j) + spec_frame_parts::<T>(ms[j as int]).0);
        assert(k * size == j * size + size) by (nonlinear_arith)
            requires
                k == j + 1,
        ;
        assert(spec_structs_upto::<T>(ms, k).len() == k * size);
    } else {
        assert(k * T::spec_size() == 0) by (nonlinear_arith)
            requires
                k == 0,
        ;
    }
}

/// The struct bytes of fewer items start those of more items.
proof fn lemma_structs_prefix<T: TagData>(ms: Seq<T::Model>, j: nat, k: nat)
    requires
        j <= k,
    ensures
        spec_structs_upto::<T>(ms, j).len() <= spec_structs_upto::<T>(ms, k).len(),
        spec_structs_upto::<T>(ms, k).subrange(0, spec_structs_upto::<T>(ms, j).len() as int) == spec_structs_upto::<T>(ms, j),
    decreases k,
{
    if j < k {
        lemma_structs_prefix::<T>(ms, j, (k - 1) as nat);
        assert(spec_structs_upto::<T>(ms, k).subrange(0, spec_structs_upto::<T>(ms, j).len() as int)
            =~= spec_structs_upto::<T>(ms, (k - 1) as nat).subrange(0, spec_structs_upto::<T>(ms, j).len() as int));
    } else {
        assert(spec_structs_upto::<T>(ms, k).subrange(0, spec_structs_upto::<T>(ms, j).len() as int)
            =~= spec_structs_upto::<T>(ms, j));
    }
}

/// The extra data of fewer items start that of more items.
proof fn lemma_extras_prefix<T: TagData>(ms: Seq<T::Model>, j: nat, k: nat)
    requires
        j <= k,
    ensures
        spec_extras_upto::<T>(ms, j).len() <= spec_extras_upto::<T>(ms, k).len(),
        spec_extras_upto::<T>(ms, k).subrange(0, spec_extras_upto::<T>(ms, j).len() as int) == spec_extras_upto::<T>(ms, j),
    decreases k,
{
    if j < k {
        lemma_extras_prefix::<T>(ms, j, (k - 1) as nat);
        assert(spec_extras_upto::<T>(ms, k).subrange(0, spec_extras_upto::<T>(ms, j).len() as int)
            =~= spec_extras_upto::<T>(ms, (k - 1) as nat).subrange(0, spec_extras_upto::<T>(ms, j).len() as int));
    } else {
        assert(spec_extras_upto::<T>(ms, k).subrange(0, spec_extras_upto::<T>(ms, j).len() as int)
            =~= spec_extras_upto::<T>(ms, j));
    }
}

/// Writing the first `k` items into a space of zeros after `b` fills their slots with their struct bytes and appends
/// their extra data.
proof fn lemma_write_items_frame<T: TagData>(ms: Seq<T::Model>, b: Seq<u8>, k: nat)
    requires
        k <= ms.len(),
        forall|i: int| 0 <= i < ms.len() ==> spec_roundtrips::<T>(#[trigger] ms[i]),
        b.len() + ms.len() * T::spec_size() + spec_extras_upto::<T>(ms, ms.len()).len() <= usize::MAX,
    ensures
        spec_write_items::<T>(ms, b + spec_zeros((ms.len() * T::spec_size()) as nat), b.len() as int, k) == Ok::<
            Seq<u8>,
            Error,
        >(b + spec_structs_upto::<T>(ms, k) + spec_zeros(((ms.len() - k) * T::spec_size()) as nat) + spec_extras_upto::<T>(
            ms,
            k,
        )),
    decreases k,
{
    let size: int = T::spec_size() as int;
    let n: int = ms.len() as int;
    if k == 0 {
        assert(b + spec_zeros((n * size) as nat) =~= b + spec_structs_upto::<T>(ms, 0) + spec_zeros(((n - 0) * size) as nat)
            + spec_extras_upto::<T>(ms, 0));
    } else {
        let j = (k - 1) as nat;
        lemma_write_items_frame::<T>(ms, b, j);
        lemma_parts::<T>(ms, j as int);
        lemma_structs_len::<T>(ms, j);
        lemma_structs_len::<T>(ms, k);
        lemma_extras_prefix::<T>(ms, k, n as nat);
        let (sk, ek) = spec_frame_parts::<T>(ms[j as int]);
        let zj = spec_zeros(((n - j) * size) as nat);
        let zk = spec_zeros(((n - k) * size) as nat);
        let dj = b + spec_structs_upto::<T>(ms, j) + zj + spec_extras_upto::<T>(ms, j);
        let o = b.len() + j * size;
        assert((n - j) * size == (n - k) * size + size) by (nonlinear_arith)
            requires
                k == j + 1,
                j < n,
        ;
        assert(j * size + (n - j) * size == n * size) by (nonlinear_arith);
        assert(n * size + b.len() + spec_extras_upto::<T>(ms, n as nat).len() <= usize::MAX);
        assert(spec_extras_upto::<T>(ms, k).len() <= spec_extras_upto::<T>(ms, n as nat).len());
        assert(dj.len() + ek.len() <= usize::MAX);
        assert(o + size <= dj.len());
        assert(T::spec_write_tag(ms[j as int], dj, o, o + size) == Ok::<Seq<u8>, Error>(spec_splice(dj, o, sk) + ek));
        assert(spec_splice(dj, o, sk) + ek =~= b + spec_structs_upto::<T>(ms, k) + zk + spec_extras_upto::<T>(ms, k));
    }
}

/// Reading the first `k` items from struct bytes at `c`, with their extra data after all the struct bytes, gives back
/// their models.
proof fn lemma_read_items_frame<T: TagData>(ms: Seq<T::Model>, x: Seq<u8>, c: int, k: nat)
    requires
        k <= ms.len(),
        forall|i: int| 0 <= i < ms.len() ==> spec_roundtrips::<T>(#[trigger] ms[i]),
        0 <= c,
        x.len() <= usize::MAX,
        c + ms.len() * T::spec_size() + spec_extras_upto::<T>(ms, ms.len()).len() <= x.len(),
        x.subrange(c, c + ms.len() * T::spec_size()) == spec_structs_upto::<T>(ms, ms.len()),
        x.subrange(c + ms.len() * T::spec_size(), c + ms.len() * T::spec_size() + spec_extras_upto::<T>(ms, ms.len()).len())
            == spec_extras_upto::<T>(ms, ms.len()),
    ensures
        spec_read_items::<T>(x, c, k, c + ms.len() * T::spec_size()) == Ok::<(Seq<T::Model>, int), Error>(
            (ms.take(k as int), c + ms.len() * T::spec_size() + spec_extras_upto::<T>(ms, k).len()),
        ),
    decreases k,
{
    let size: int = T::spec_size() as int;
    let n: int = ms.len() as int;
    if k == 0 {
        assert(ms.take(0) =~= Seq::<T::Model>::empty());
    } else {
        let j = (k - 1) as nat;
        lemma_read_items_frame::<T>(ms, x, c, j);
        lemma_parts::<T>(ms, j as int);
        lemma_structs_len::<T>(ms, j);
        lemma_structs_len::<T>(ms, k);
        lemma_structs_len::<T>(ms, n as nat);
        lemma_structs_prefix::<T>(ms, k, n as nat);
        lemma_extras_prefix::<T>(ms, k, n as nat);
        let (sk, ek) = spec_frame_parts::<T>(ms[j as int]);
        let o = c + j * size;
        let cur = c + n * size + spec_extras_upto::<T>(ms, j).len();
        assert(k * size <= n * size) by (nonlinear_arith)
            requires
                k <= n,
                0 <= size,
        ;
        assert(j * size + size == k * size) by (nonlinear_arith)
            requires
                k == j + 1,
        ;
        assert(x.subrange(o, o + size) =~= spec_structs_upto::<T>(ms, k).subrange(j * size, k * size));
        assert(spec_structs_upto::<T>(ms, k).subrange(j * size, k * size) =~= sk);
        assert(x.subrange(cur, cur + ek.len()) =~= spec_extras_upto::<T>(ms, k).subrange(
            spec_extras_upto::<T>(ms, j).len() as int,
            spec_extras_upto::<T>(ms, k).len() as int,
        ));
        assert(spec_extras_upto::<T>(ms, k).subrange(
            spec_extras_upto::<T>(ms, j).len() as int,
            spec_extras_upto::<T>(ms, k).len() as int,
        ) =~= ek);
        assert(T::spec_read_tag(x, o, o + size, cur) == Ok::<(T::Model, int), Error>((ms[j as int], cur + ek.len())));
        assert(ms.take(j as int).push(ms[j as int]) =~= ms.take(k as int));
    }
}

/// A reflexive reads back from a tag file as it was written, where each of its items does and it has no more than
/// `u32::MAX` of them: its struct holds the count, and its extra data is the items' struct bytes followed by their
/// extra data.
pub proof fn law_reflexive_frame<T: TagData>(ms: Seq<T::Model>)
    requires
        ms.len() <= u32::MAX,
        forall|i: int| 0 <= i < ms.len() ==> spec_roundtrips::<T>(#[trigger] ms[i]),
    ensures
        spec_tag_frame::<Reflexive<T>>(
            ms,
            spec_reflexive_header_bytes(ms.len() as u32),
            spec_structs_upto::<T>(ms, ms.len()) + spec_extras_upto::<T>(ms, ms.len()),
        ),
        spec_roundtrips::<Reflexive<T>>(ms),
{
    let n: int = ms.len() as int;
    let size: int = T::spec_size() as int;
    let h = spec_reflexive_header_bytes(n as u32);
    let st = spec_structs_upto::<T>(ms, n as nat);
    let ex = spec_extras_upto::<T>(ms, n as nat);
    let e = st + ex;
    lemma_structs_len::<T>(ms, n as nat);
    lemma_u32_roundtrip(true, n as u32);
    lemma_u32_roundtrip(true, 0);
    assert(spec_reflexive_header::<T>(n as u32).spec_encode(true) == Ok::<Seq<u8>, Error>(h));
    assert forall|d: Seq<u8>, o: int|
        0 <= o && o + h.len() <= d.len() && d.len() + e.len() <= usize::MAX implies #[trigger] <Reflexive<
        T,
    > as TagData>::spec_write_tag(ms, d, o, o + <Reflexive<T> as TagData>::spec_size()) == Ok::<Seq<u8>, Error>(
        spec_splice(d, o, h) + e,
    ) by {
        let d1 = spec_splice(d, o, h);
        lemma_write_items_frame::<T>(ms, d1, n as nat);
        assert(d1 + st + spec_zeros(((n - n) * size) as nat) + ex =~= d1 + e);
    }
    assert forall|x: Seq<u8>, o: int, c: int|
        0 <= o && o + h.len() <= x.len() && 0 <= c && c + e.len() <= x.len() && x.len() <= usize::MAX && x.subrange(
            o,
            o + h.len(),
        ) == h && x.subrange(c, c + e.len()) == e implies #[trigger] <Reflexive<T> as TagData>::spec_read_tag(
        x,
        o,
        o + <Reflexive<T> as TagData>::spec_size(),
        c,
    ) == Ok::<(Seq<T::Model>, int), Error>((ms, c + e.len())) by {
        assert(x.subrange(o, o + 4) =~= h.subrange(0, 4));
        assert(h.subrange(0, 4) =~= spec_u32_to_bytes(true, n as u32));
        assert(x.subrange(o + 4, o + 8) =~= h.subrange(4, 8));
        assert(x.subrange(c, c + n * size) =~= e.subrange(0, n * size));
        assert(e.subrange(0, n * size) =~= st);
        assert(x.subrange(c + n * size, c + n * size + ex.len()) =~= e.subrange(n * size, e.len() as int));
        assert(e.subrange(n * size, e.len() as int) =~= ex);
        lemma_read_items_frame::<T>(ms, x, c, n as nat);
        assert(ms.take(n as int) =~= ms);
    }
    assert(spec_tag_frame::<Reflexive<T>>(ms, (h, e).0, (h, e).1));
}

/// An array of tag data, stored in tag files after the struct that refers to it.
///
/// The number of elements cannot exceed [`u32::MAX`] for the array to be stored in a tag file.
#[derive(Clone, Default, PartialEq, Debug)]
pub struct Reflexive<T: TagData> {
    pub items: Vec<T>,
}

impl<T: TagData> Reflexive<T> {
    /// Wrap items.
    pub fn new(items: Vec<T>) -> (r: Reflexive<T>)
        ensures
            r.items@ == items@,
    {
        Reflexive { items }
    }

    /// The models of the items.
    pub open spec fn spec_item_models(&self) -> Seq<T::Model> {
        self.items@.map_values(|x: T| x.spec_model())
    }
}

impl<T: TagData> TagData for Reflexive<T> {
    type Model = Seq<T::Model>;

    open spec fn spec_model(&self) -> Seq<T::Model> {
        self.spec_item_models()
    }

    open spec fn spec_size() -> nat {
        12
    }

    open spec fn spec_read_tag(data: Seq<u8>, at: int, struct_end: int, cursor: int) -> RinghopperResult<(Seq<T::Model>, int)> {
        match ReflexiveC::<T>::spec_read(true, data, at, struct_end) {
            Err(e) => Err(e),
            Ok(c) => {
                let total = c.count as int * T::spec_size();
                if total > usize::MAX || cursor + total > usize::MAX {
                    Err(Error::SizeLimitExceeded)
                } else {
                    spec_read_items::<T>(data, cursor, c.count as nat, cursor + total)
                }
            },
        }
    }

    open spec fn spec_write_tag(model: Seq<T::Model>, data: Seq<u8>, at: int, struct_end: int) -> RinghopperResult<Seq<u8>> {
        if model.len() > u32::MAX {
            Err(Error::ArrayLimitExceeded)
        } else {
            match spec_reflexive_header::<T>(model.len() as u32).spec_encode(true) {
                Err(e) => Err(e),
                Ok(header) => {
                    let d1 = spec_splice(data, at, header);
                    let total = model.len() * T::spec_size();
                    if total > usize::MAX || d1.len() + total > usize::MAX {
                        Err(Error::SizeLimitExceeded)
                    } else {
                        spec_write_items::<T>(model, d1 + spec_zeros(total as nat), d1.len() as int, model.len())
                    }
                },
            }
        }
    }

    /// The items are read from the address that the header gives, in the same domain.
    open spec fn spec_read_map(map: MapView, address: int, domain: DomainType) -> Result<Seq<T::Model>, MapReadError> {
        match spec_read_simple_map::<ReflexiveC<T>>(map, address, domain) {
            Err(e) => Err(e),
            Ok(c) => {
                let total = c.count as int * T::spec_size();
                if total > usize::MAX || total + c.address.address > usize::MAX {
                    Err(MapReadError::Failed(Error::SizeLimitExceeded))
                } else {
                    spec_read_items_map::<T>(map, c.address.address as int, c.count as nat, domain)
                }
            },
        }
    }

    fn size() -> (r: usize) {
        12
    }

    fn read_from_tag_file(data: &[u8], at: usize, struct_end: usize, extra_data_cursor: &mut usize) -> (r: RinghopperResult<Reflexive<T>>) {
        let ghost c0 = *extra_data_cursor;
        let c_primitive = ReflexiveC::<T>::read_from_tag_file(data, at, struct_end, extra_data_cursor)?;
        let count = c_primitive.count as usize;
        let item_size = T::size();
        let total_length = count.mul_overflow_checked(item_size)?;
        let start = *extra_data_cursor;
        *extra_data_cursor = start.add_overflow_checked(total_length)?;
        let ghost first_cursor = *extra_data_cursor;
        let mut items: Vec<T> = Vec::new();
        let mut item_offset = start;
        let mut i: usize = 0;
        proof {
            assert(items@.map_values(|x: T| x.spec_model()) =~= Seq::<T::Model>::empty());
        }
        while i < count
            invariant
                i <= count,
                item_size == T::spec_size(),
                start + count * item_size <= usize::MAX,
                item_offset == start + i * item_size,
                spec_read_items::<T>(data@, start as int, i as nat, first_cursor as int) == Ok::<(Seq<T::Model>, int), Error>(
                    (items@.map_values(|x: T| x.spec_model()), *extra_data_cursor as int),
                ),
                c0 == *old(extra_data_cursor),
                Self::spec_read_tag(data@, at as int, struct_end as int, c0 as int) == spec_read_items::<T>(
                    data@,
                    start as int,
                    count as nat,
                    first_cursor as int,
                ),
            decreases count - i,
        {
            proof {
                lemma_mul_step(i as int, count as int, item_size as int);
            }
            let item_end = item_offset + item_size;
            let ghost before = items@.map_values(|x: T| x.spec_model());
            let item = match T::read_from_tag_file(data, item_offset, item_end, extra_data_cursor) {
                Ok(v) => v,
                Err(e) => {
                    proof {
                        assert(spec_read_items::<T>(data@, start as int, (i + 1) as nat, first_cursor as int) == Err::<
                            (Seq<T::Model>, int),
                            Error,
                        >(e));
                        lemma_read_items_err::<T>(data@, start as int, (i + 1) as nat, count as nat, first_cursor as int);
                    }
                    return Err(e);
                },
            };
            items.push(item);
            proof {
                assert(items@.map_values(|x: T| x.spec_model()) =~= before.push(item.spec_model()));
            }
            item_offset = item_end;
            i = i + 1;
        }
        Ok(Reflexive { items })
    }

    fn read_from_map<M: CacheMap>(map: &M, address: usize, domain_type: &DomainType) -> (r: RinghopperResult<Reflexive<T>>) {
        let c_primitive = ReflexiveC::<T>::read_from_map(map, address, domain_type);
        assert(<ReflexiveC<T> as TagData>::spec_read_map(spec_map_view(map), address as int, *domain_type) == spec_read_simple_map::<ReflexiveC<T>>(spec_map_view(map), address as int, *domain_type));
        let c_primitive = c_primitive?;
        let count = c_primitive.count as usize;
        let item_size = T::size();
        let start = c_primitive.address.address as usize;
        // Make sure we can add all of these
        count.mul_overflow_checked(item_size)?.add_overflow_checked(start)?;
        let mut items: Vec<T> = Vec::new();
        let mut item_address = start;
        let mut i: usize = 0;
        proof {
            assert(items@.map_values(|x: T| x.spec_model()) =~= Seq::<T::Model>::empty());
        }
        while i < count
            invariant
                i <= count,
                item_size == T::spec_size(),
                start + count * item_size <= usize::MAX,
                item_address == start + i * item_size,
                spec_read_items_map::<T>(spec_map_view(map), start as int, i as nat, *domain_type) == Ok::<Seq<T::Model>, MapReadError>(
                    items@.map_values(|x: T| x.spec_model()),
                ),
                Self::spec_read_map(spec_map_view(map), address as int, *domain_type) == spec_read_items_map::<T>(
                    spec_map_view(map),
                    start as int,
                    count as nat,
                    *domain_type,
                ),
            decreases count - i,
        {
            proof {
                lemma_mul_step(i as int, count as int, item_size as int);
            }
            let ghost before = items@.map_values(|x: T| x.spec_model());
            let item = match T::read_from_map(map, item_address, domain_type) {
                Ok(v) => v,
                Err(e) => {
                    proof {
                        lemma_read_items_map_err::<T>(spec_map_view(map), start as int, (i + 1) as nat, count as nat, *domain_type);
                    }
                    return Err(e);
                },
            };
            items.push(item);
            proof {
                assert(items@.map_values(|x: T| x.spec_model()) =~= before.push(item.spec_model()));
            }
            item_address = item_address + item_size;
            i = i + 1;
        }
        Ok(Reflexive { items })
    }

    fn write_to_tag_file(&self, data: &mut Vec<u8>, at: usize, struct_end: usize) -> (r: RinghopperResult<()>) {
        let ghost model = self.spec_model();
        let ghost d0 = data@;
        let count = self.items.len();
        let count32 = match into_u32(count) {
            Ok(c) => c,
            Err(e) => return Err(e),
        };
        let header: ReflexiveC<T> = ReflexiveC::with_params(count32, Address { address: 0 });
        assert(header == spec_reflexive_header::<T>(count32));
        header.write_to_tag_file(data, at, struct_end)?;
        let ghost d1 = data@;
        let item_size = T::size();
        let total_bytes_to_write = count.mul_overflow_checked(item_size)?;
        let start = data.len();
        let new_len = start.add_overflow_checked(total_bytes_to_write)?;
        let mut k: usize = start;
        while k < new_len
            invariant
                start <= k <= new_len,
                data@ == d1 + spec_zeros((k - start) as nat),
            decreases new_len - k,
        {
            data.push(0);
            proof {
                assert(data@ =~= d1 + spec_zeros((k + 1 - start) as nat));
            }
            k = k + 1;
        }
        let ghost d2 = data@;
        let mut write_offset = start;
        let mut i: usize = 0;
        proof {
            assert(model.len() == count);
        }
        while i < count
            invariant
                i <= count,
                count == self.items@.len(),
                model == self.spec_model(),
                item_size == T::spec_size(),
                new_len == start + count * item_size,
                data@.len() >= new_len,
                write_offset == start + i * item_size,
                spec_write_items::<T>(model, d2, start as int, i as nat) == Ok::<Seq<u8>, Error>(data@),
                data@.len() >= d0.len(),
                d0 == old(data)@,
                model == self.spec_model(),
                Self::spec_write_tag(model, d0, at as int, struct_end as int) == spec_write_items::<T>(
                    model,
                    d2,
                    start as int,
                    count as nat,
                ),
            decreases count - i,
        {
            proof {
                lemma_mul_step(i as int, count as int, item_size as int);
            }
            let item_end = write_offset + item_size;
            let ghost before = data@;
            match self.items[i].write_to_tag_file(data, write_offset, item_end) {
                Ok(()) => {},
                Err(e) => {
                    proof {
                        assert(spec_write_items::<T>(model, d2, start as int, (i + 1) as nat) == Err::<Seq<u8>, Error>(e));
                        lemma_write_items_err::<T>(model, d2, start as int, (i + 1) as nat, count as nat);
                    }
                    return Err(e);
                },
            }
            write_offset = item_end;
            i = i + 1;
        }
        Ok(())
    }
}

} // verus!
