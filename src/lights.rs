//! Stable per-light layer assignment. Lights are ordered by their creation
//! id, not by entity, so that a light keeps its shadow-map layer while the
//! set of visible lights stays the same.

use crate::atlas::is_power_of_two;
use crate::config::{ShadowMap2dConfig, MAX_PCF_SAMPLES};
use crate::meta::{meta_for, slot_offset, GpuMetaBuffers, GpuShadowMapMeta, MAX_UNIFORM_SLOTS};
use crate::storage::{ShadowMap2dMeta, ShadowMap2dStorage};
use vstd::prelude::*;

verus! {

/// A light extracted for this frame: its creation-order id and its entity.
#[derive(Clone, Copy, PartialEq, Eq, Debug, Structural)]
pub struct LightKey {
    pub id: u32,
    pub entity: u64,
}

/// A light's place in this frame's shadow-map arrays.
#[derive(Clone, Copy, PartialEq, Eq, Debug, Structural)]
pub struct LightSlot {
    pub entity: u64,
    pub id: u32,
    /// Layer of the light in the shadow-map arrays.
    pub index: u32,
    /// Byte offset of the light's record in the meta buffer.
    pub meta_offset: u32,
}

/// Hands out creation ids: each new light takes the next unused id, so
/// ids increase in creation order and none is handed out twice.
pub struct LightIdAllocator {
    next: u32,
}

impl LightIdAllocator {
    /// The id the next light will take; every id handed out so far is below it.
    pub closed spec fn next_id(&self) -> u32 {
        self.next
    }

    /// No id handed out yet.
    pub fn new() -> (r: LightIdAllocator)
        ensures
            r.next_id() == 0,
    {
        LightIdAllocator { next: 0 }
    }

    /// The id the next light will take.
    pub fn peek(&self) -> (r: u32)
        ensures
            r == self.next_id(),
    {
        self.next
    }

    /// The id of a newly created light: the next unused one. None once all
    /// `u32` ids but the last have been handed out; the allocator is then
    /// left as it was.
    pub fn allocate(&mut self) -> (r: Option<u32>)
        ensures
            old(self).next_id() < u32::MAX ==> {
                &&& r == Some(old(self).next_id())
                &&& final(self).next_id() == old(self).next_id() + 1
            },
            old(self).next_id() == u32::MAX ==> r.is_none() && final(self).next_id() == old(self).next_id(),
            r.is_some() ==> old(self).next_id() <= r.unwrap() < final(self).next_id(),
            old(self).next_id() <= final(self).next_id(),
    {
        if self.next == u32::MAX {
            return None;
        }
        let id = self.next;
        self.next = self.next + 1;
        Some(id)
    }
}

/// Ids never decrease along `s`.
pub open spec fn sorted_by_id(s: Seq<LightKey>) -> bool {
    forall|i: int, j: int| 0 <= i < j < s.len() ==> #[trigger] s[i].id <= #[trigger] s[j].id
}

/// No two entries of `s` share an id.
pub open spec fn ids_distinct(s: Seq<LightKey>) -> bool {
    forall|i: int, j: int|
        0 <= i < s.len() && 0 <= j < s.len() && i != j ==> #[trigger] s[i].id != #[trigger] s[j].id
}

/// The ids of `s`, in order.
pub open spec fn ids(s: Seq<LightKey>) -> Seq<u32> {
    s.map_values(|l: LightKey| l.id)
}

/// `out` holds the lights of `input`, ordered by id.
pub open spec fn ordered_by_creation(out: Seq<LightKey>, input: Seq<LightKey>) -> bool {
    &&& sorted_by_id(out)
    &&& out.len() == input.len()
    &&& out.to_multiset() == input.to_multiset()
}

/// The key of a slot.
pub open spec fn slot_key(s: LightSlot) -> LightKey {
    LightKey { id: s.id, entity: s.entity }
}

/// Relies on radsort::sort_by_key: it reorders the slice so that the keys
/// never decrease; the key function picks a field, so it gives the same key
/// on every call and the sort does not panic.
#[verifier::external_body]
fn sort_by_creation_id(lights: &mut Vec<LightKey>)
    ensures
        ordered_by_creation(final(lights)@, old(lights)@),
{
    radsort::sort_by_key(lights.as_mut_slice(), |l: &LightKey| l.id);
}

/// The lights, ordered by creation id.
pub fn order_by_creation(lights: Vec<LightKey>) -> (r: Vec<LightKey>)
    ensures
        ordered_by_creation(r@, lights@),
{
    let mut r = lights;
    sort_by_creation_id(&mut r);
    r
}

/// Lays out this frame's lights: orders them by creation id, gives the
/// `i`-th light layer `i` and the `i`-th record of a freshly cleared meta
/// buffer, and brings the shadow-map arrays to one layer per light. With no
/// lights the meta buffer is left empty and the arrays stay as they are.
/// The second result says whether the arrays have to be created anew.
pub fn prepare_lights(
    lights: Vec<LightKey>,
    config: &ShadowMap2dConfig,
    storage: &mut ShadowMap2dStorage,
    meta_buffers: &mut GpuMetaBuffers,
) -> (r: (Vec<LightSlot>, bool))
    requires
        old(storage).wf(),
        is_power_of_two(config.size as nat),
        config.pcf.samples <= MAX_PCF_SAMPLES,
        lights@.len() < MAX_UNIFORM_SLOTS,
    ensures
        lights@.len() == 0 ==> {
            &&& r.0@.len() == 0
            &&& !r.1
            &&& *final(storage) == *old(storage)
            &&& final(meta_buffers).light_metas().len() == 0
            &&& final(meta_buffers).reduction_numbers() == old(meta_buffers).reduction_numbers()
            &&& final(meta_buffers).reduction_offsets() == old(meta_buffers).reduction_offsets()
        },
        lights@.len() > 0 ==> {
            &&& ordered_by_creation(r.0@.map_values(|s: LightSlot| slot_key(s)), lights@)
            &&& forall|i: int|
                0 <= i < r.0@.len() ==> {
                    &&& (#[trigger] r.0@[i]).index == i
                    &&& r.0@[i].meta_offset == slot_offset(i)
                }
            &&& final(meta_buffers).light_metas() == Seq::new(
                lights@.len(),
                |i: int| meta_for(i, *config),
            )
            &&& final(storage).wf()
            &&& final(storage).allocated()
            &&& final(storage).meta() == (ShadowMap2dMeta {
                count: lights@.len() as u32,
                size: config.size,
            })
            &&& r.1 == !(old(storage).allocated() && old(storage).meta() == final(storage).meta())
            &&& !r.1 ==> {
                &&& *final(storage) == *old(storage)
                &&& final(meta_buffers).reduction_numbers() == old(meta_buffers).reduction_numbers()
                &&& final(meta_buffers).reduction_offsets() == old(meta_buffers).reduction_offsets()
            }
            &&& r.1 ==> {
                &&& final(meta_buffers).wf()
                &&& final(meta_buffers).reduction_numbers().len() == final(storage).reductions()
            }
        },
{
    let count = lights.len();
    meta_buffers.clear();
    if count == 0 {
        return (Vec::new(), false);
    }
    let ordered = order_by_creation(lights);
    let mut slots: Vec<LightSlot> = Vec::new();
    let mut i: usize = 0;
    while i < count
        invariant
            i <= count,
            count == ordered@.len(),
            count < MAX_UNIFORM_SLOTS,
            slots@.len() == i,
            meta_buffers.light_metas() == Seq::new(i as nat, |k: int| meta_for(k, *config)),
            meta_buffers.reduction_numbers() == old(meta_buffers).reduction_numbers(),
            meta_buffers.reduction_offsets() == old(meta_buffers).reduction_offsets(),
            forall|k: int|
                0 <= k < i ==> {
                    &&& slot_key(#[trigger] slots@[k]) == ordered@[k]
                    &&& slots@[k].index == k
                    &&& slots@[k].meta_offset == slot_offset(k)
                },
        decreases count - i,
    {
        let light = ordered[i];
        let meta = GpuShadowMapMeta::from_config(i as u32, config);
        let meta_index = meta_buffers.push_light_meta(meta);
        slots.push(
            LightSlot {
                entity: light.entity,
                id: light.id,
                index: i as u32,
                meta_offset: meta_index.index(),
            },
        );
        assert(meta_buffers.light_metas() =~= Seq::new((i + 1) as nat, |k: int| meta_for(k, *config)));
        i = i + 1;
    }
    assert(slots@.map_values(|s: LightSlot| slot_key(s)) =~= ordered@);
    let reallocated = storage.try_update(
        ShadowMap2dMeta { count: count as u32, size: config.size },
        meta_buffers,
    );
    (slots, reallocated)
}

/// Ids strictly increase along `s`.
pub open spec fn strictly_increasing(s: Seq<u32>) -> bool {
    forall|i: int, j: int| 0 <= i < j < s.len() ==> #[trigger] s[i] < #[trigger] s[j]
}

/// Two strictly increasing sequences with the same elements are equal.
proof fn lemma_strictly_increasing_unique(u: Seq<u32>, v: Seq<u32>)
    requires
        strictly_increasing(u),
        strictly_increasing(v),
        forall|x: u32| u.contains(x) <==> v.contains(x),
    ensures
        u == v,
    decreases u.len(),
{
    if u.len() == 0 {
        if v.len() > 0 {
            assert(v.contains(v[0]));
        }
        assert(u =~= v);
    } else {
        assert(u.contains(u[0]));
        assert(v.len() > 0);
        assert(v.contains(v[0]));
        let p = choose|p: int| 0 <= p < v.len() && v[p] == u[0];
        let q = choose|q: int| 0 <= q < u.len() && u[q] == v[0];
        assert(u[0] == v[0]) by {
            if p > 0 {
                assert(v[0] < v[p]);
            }
            if q > 0 {
                assert(u[0] < u[q]);
            }
        }
        let u1 = u.drop_first();
        let v1 = v.drop_first();
        assert forall|x: u32| u1.contains(x) <==> v1.contains(x) by {
            if u1.contains(x) {
                let k = choose|k: int| 0 <= k < u1.len() && u1[k] == x;
                assert(u[k + 1] == x);
                assert(u.contains(x));
                let m = choose|m: int| 0 <= m < v.len() && v[m] == x;
                assert(u[0] < u[k + 1]);
                assert(m != 0);
                assert(v1[m - 1] == x);
            }
            if v1.contains(x) {
                let k = choose|k: int| 0 <= k < v1.len() && v1[k] == x;
                assert(v[k + 1] == x);
                assert(v.contains(x));
                let m = choose|m: int| 0 <= m < u.len() && u[m] == x;
                assert(v[0] < v[k + 1]);
                assert(m != 0);
                assert(u1[m - 1] == x);
            }
        }
        lemma_strictly_increasing_unique(u1, v1);
        assert(u =~= v) by {
            assert(u.len() == u1.len() + 1);
            assert(v.len() == v1.len() + 1);
            assert forall|k: int| 0 <= k < u.len() implies u[k] == v[k] by {
                if k > 0 {
                    assert(u[k] == u1[k - 1]);
                    assert(v[k] == v1[k - 1]);
                }
            }
        }
    }
}

/// Reordering keeps distinct ids distinct.
proof fn lemma_reorder_keeps_ids_distinct(out: Seq<LightKey>, input: Seq<LightKey>)
    requires
        ids_distinct(input),
        out.to_multiset() == input.to_multiset(),
    ensures
        ids_distinct(out),
{
    broadcast use vstd::seq_lib::group_seq_properties;
    broadcast use vstd::multiset::group_multiset_axioms;

    assert(input.no_duplicates()) by {
        assert forall|i: int, j: int|
            0 <= i < input.len() && 0 <= j < input.len() && i != j implies input[i] != input[j] by {
            assert(input[i].id != input[j].id);
        }
    }
    input.lemma_multiset_has_no_duplicates();
    out.lemma_multiset_has_no_duplicates_conv();
    assert forall|i: int, j: int|
        0 <= i < out.len() && 0 <= j < out.len() && i != j implies #[trigger] out[i].id
        != #[trigger] out[j].id by {
        out.to_multiset_ensures();
        input.to_multiset_ensures();
        assert(out.contains(out[i]));
        assert(out.contains(out[j]));
        assert(out.to_multiset().count(out[i]) > 0);
        assert(out.to_multiset().count(out[j]) > 0);
        assert(input.contains(out[i]));
        assert(input.contains(out[j]));
        let p = choose|p: int| 0 <= p < input.len() && input[p] == out[i];
        let q = choose|q: int| 0 <= q < input.len() && input[q] == out[j];
        assert(out[i] != out[j]);
        assert(p != q);
    }
}

/// A reordering has the same ids as the sequence it reorders.
proof fn lemma_reorder_keeps_ids(out: Seq<LightKey>, input: Seq<LightKey>)
    requires
        out.to_multiset() == input.to_multiset(),
    ensures
        forall|x: u32| ids(out).contains(x) <==> ids(input).contains(x),
{
    broadcast use vstd::seq_lib::group_seq_properties;

    out.to_multiset_ensures();
    input.to_multiset_ensures();
    assert forall|x: u32| ids(out).contains(x) <==> ids(input).contains(x) by {
        if ids(out).contains(x) {
            let k = choose|k: int| 0 <= k < ids(out).len() && ids(out)[k] == x;
            assert(out.contains(out[k]));
            assert(out.to_multiset().count(out[k]) > 0);
            assert(input.contains(out[k]));
            let m = choose|m: int| 0 <= m < input.len() && input[m] == out[k];
            assert(ids(input)[m] == x);
        }
        if ids(input).contains(x) {
            let k = choose|k: int| 0 <= k < ids(input).len() && ids(input)[k] == x;
            assert(input.contains(input[k]));
            assert(input.to_multiset().count(input[k]) > 0);
            assert(out.contains(input[k]));
            let m = choose|m: int| 0 <= m < out.len() && out[m] == input[k];
            assert(ids(out)[m] == x);
        }
    }
}

/// A light keeps its layer from one frame to the next: when two frames
/// extract lights whose ids are pairwise distinct and form the same set,
/// ordering each frame by creation id puts a light with a given id at the
/// same position, and so at the same layer, in both frames.
pub proof fn lemma_layer_index_stable(
    a: Seq<LightKey>,
    b: Seq<LightKey>,
    ordered_a: Seq<LightKey>,
    ordered_b: Seq<LightKey>,
)
    requires
        ids_distinct(a),
        ids_distinct(b),
        ids(a).to_set() == ids(b).to_set(),
        ordered_by_creation(ordered_a, a),
        ordered_by_creation(ordered_b, b),
    ensures
        ids(ordered_a) == ids(ordered_b),
        forall|i: int, j: int|
            0 <= i < ordered_a.len() && 0 <= j < ordered_b.len() && #[trigger] ordered_a[i].id
                == #[trigger] ordered_b[j].id ==> i == j,
{
    lemma_reorder_keeps_ids_distinct(ordered_a, a);
    lemma_reorder_keeps_ids_distinct(ordered_b, b);
    lemma_reorder_keeps_ids(ordered_a, a);
    lemma_reorder_keeps_ids(ordered_b, b);
    let u = ids(ordered_a);
    let v = ids(ordered_b);
    assert(strictly_increasing(u)) by {
        assert forall|i: int, j: int| 0 <= i < j < u.len() implies #[trigger] u[i] < #[trigger] u[j] by {
            assert(ordered_a[i].id <= ordered_a[j].id);
            assert(ordered_a[i].id != ordered_a[j].id);
        }
    }
    assert(strictly_increasing(v)) by {
        assert forall|i: int, j: int| 0 <= i < j < v.len() implies #[trigger] v[i] < #[trigger] v[j] by {
            assert(ordered_b[i].id <= ordered_b[j].id);
            assert(ordered_b[i].id != ordered_b[j].id);
        }
    }
    assert forall|x: u32| u.contains(x) <==> v.contains(x) by {
        assert(ids(a).to_set().contains(x) == ids(a).contains(x));
        assert(ids(b).to_set().contains(x) == ids(b).contains(x));
    }
    lemma_strictly_increasing_unique(u, v);
    assert forall|i: int, j: int|
        0 <= i < ordered_a.len() && 0 <= j < ordered_b.len() && #[trigger] ordered_a[i].id
            == #[trigger] ordered_b[j].id implies i == j by {
        assert(u[i] == v[j]);
        assert(u[j] == v[j]);
        if i < j {
            assert(u[i] < u[j]);
        } else if j < i {
            assert(u[j] < u[i]);
        }
    }
}

} // verus!
