//! Per-light uniform records and the dynamic uniform buffers that hold them.
//!
//! A dynamic uniform buffer stores one record per aligned slot; a dispatch
//! selects a record by its byte offset.

use crate::config::ShadowMap2dConfig;
use vstd::prelude::*;

verus! {

/// Byte distance between consecutive records of a dynamic uniform buffer.
pub const UNIFORM_OFFSET_ALIGNMENT: u32 = 256;

/// Bound on the number of slots: every slot, padding included, ends below
/// byte `2^32`.
pub const MAX_UNIFORM_SLOTS: usize = 0x00ff_ffff;

/// Byte offset of slot `i` of a dynamic uniform buffer.
pub open spec fn slot_offset(i: int) -> int {
    i * UNIFORM_OFFSET_ALIGNMENT as int
}

/// The uniform record that drives one light's passes. The fields that the
/// shaders read as `f32` hold IEEE-754 bit patterns.
#[derive(Clone, Copy, PartialEq, Eq, Debug)]
pub struct GpuShadowMapMeta {
    /// Layer of the light in the shadow-map arrays.
    pub index: u32,
    /// Side length of the light's shadow map, in texels.
    pub size: u32,
    /// Sub-pixel offset, x then y.
    pub offset: [u32; 2],
    /// Depth bias.
    pub bias: u32,
    /// Alpha below which a texel does not occlude.
    pub alpha_threshold: u32,
    /// Number of filtering taps.
    pub pcf_samples: u32,
    /// Filtering radius.
    pub pcf_radius: u32,
}

/// The record of the light at layer `index` under `config`.
pub open spec fn meta_for(index: int, config: ShadowMap2dConfig) -> GpuShadowMapMeta {
    GpuShadowMapMeta {
        index: index as u32,
        size: config.size,
        offset: config.offset,
        bias: config.bias,
        alpha_threshold: config.alpha_threshold,
        pcf_samples: config.pcf.samples,
        pcf_radius: config.pcf.radius,
    }
}

impl GpuShadowMapMeta {
    /// The record of the light at layer `index` under `config`.
    pub fn from_config(index: u32, config: &ShadowMap2dConfig) -> (r: GpuShadowMapMeta)
        ensures
            r == meta_for(index as int, *config),
    {
        GpuShadowMapMeta {
            index,
            size: config.size,
            offset: config.offset,
            bias: config.bias,
            alpha_threshold: config.alpha_threshold,
            pcf_samples: config.pcf.samples,
            pcf_radius: config.pcf.radius,
        }
    }
}

/// Byte offset of a record in a dynamic uniform buffer.
#[derive(Clone, Copy, PartialEq, Eq, Debug)]
pub struct DynamicUniformIndex {
    index: u32,
}

impl DynamicUniformIndex {
    /// The offset `index`.
    pub closed spec fn offset(&self) -> u32 {
        self.index
    }

    /// Wraps a byte offset.
    pub fn new(index: u32) -> (r: DynamicUniformIndex)
        ensures
            r.offset() == index,
    {
        DynamicUniformIndex { index }
    }

    /// The byte offset.
    pub fn index(&self) -> (r: u32)
        ensures
            r == self.offset(),
    {
        self.index
    }
}

/// The per-frame light records, and the buffer of reduction iteration
/// numbers that lets each reduction dispatch read which iteration it is.
pub struct GpuMetaBuffers {
    shadow_map: Vec<GpuShadowMapMeta>,
    reduction: Vec<u32>,
    reduction_offsets: Vec<u32>,
}

impl GpuMetaBuffers {
    /// The light records, in slot order.
    pub closed spec fn light_metas(&self) -> Seq<GpuShadowMapMeta> {
        self.shadow_map@
    }

    /// The reduction iteration numbers, in slot order.
    pub closed spec fn reduction_numbers(&self) -> Seq<u32> {
        self.reduction@
    }

    /// Byte offset of each reduction iteration number.
    pub closed spec fn reduction_offsets(&self) -> Seq<u32> {
        self.reduction_offsets@
    }

    /// The iteration buffer holds `0..n` and each number's slot offset.
    pub open spec fn wf(&self) -> bool {
        &&& self.reduction_numbers().len() == self.reduction_offsets().len()
        &&& self.reduction_numbers().len() <= MAX_UNIFORM_SLOTS
        &&& forall|i: int|
            0 <= i < self.reduction_numbers().len() ==> {
                &&& #[trigger] self.reduction_numbers()[i] == i
                &&& self.reduction_offsets()[i] == slot_offset(i)
            }
    }

    /// Empty buffers.
    pub fn new() -> (r: GpuMetaBuffers)
        ensures
            r.wf(),
            r.light_metas().len() == 0,
            r.reduction_numbers().len() == 0,
    {
        GpuMetaBuffers { shadow_map: Vec::new(), reduction: Vec::new(), reduction_offsets: Vec::new() }
    }

    /// Appends a light record and returns the byte offset of its slot.
    pub fn push_light_meta(&mut self, meta: GpuShadowMapMeta) -> (r: DynamicUniformIndex)
        requires
            old(self).light_metas().len() < MAX_UNIFORM_SLOTS,
        ensures
            final(self).light_metas() == old(self).light_metas().push(meta),
            final(self).reduction_numbers() == old(self).reduction_numbers(),
            final(self).reduction_offsets() == old(self).reduction_offsets(),
            r.offset() as int == slot_offset(old(self).light_metas().len() as int),
    {
        let slot = self.shadow_map.len();
        assert(slot * 256 <= u32::MAX) by (nonlinear_arith)
            requires
                slot < MAX_UNIFORM_SLOTS,
        ;
        self.shadow_map.push(meta);
        DynamicUniformIndex::new(slot as u32 * UNIFORM_OFFSET_ALIGNMENT)
    }

    /// Refills the iteration buffer with `0..num_reductions`.
    pub fn init_reduction_time_buffer(&mut self, num_reductions: u32)
        requires
            num_reductions as int <= MAX_UNIFORM_SLOTS,
        ensures
            final(self).wf(),
            final(self).reduction_numbers().len() == num_reductions,
            final(self).light_metas() == old(self).light_metas(),
    {
        self.reduction.clear();
        self.reduction_offsets.clear();
        let mut i: u32 = 0;
        while i < num_reductions
            invariant
                i <= num_reductions,
                num_reductions as int <= MAX_UNIFORM_SLOTS,
                self.reduction@.len() == i,
                self.reduction_offsets@.len() == i,
                self.shadow_map@ == old(self).shadow_map@,
                forall|k: int|
                    0 <= k < i ==> {
                        &&& #[trigger] self.reduction@[k] == k
                        &&& self.reduction_offsets@[k] == slot_offset(k)
                    },
            decreases num_reductions - i,
        {
            assert(i * 256 <= u32::MAX) by (nonlinear_arith)
                requires
                    i < MAX_UNIFORM_SLOTS,
            ;
            self.reduction.push(i);
            self.reduction_offsets.push(i * UNIFORM_OFFSET_ALIGNMENT);
            i = i + 1;
        }
    }

    /// Byte offset of the slot that holds iteration number `reduction`.
    pub fn get_reduction_index(&self, reduction: u32) -> (r: u32)
        requires
            self.wf(),
            reduction < self.reduction_numbers().len(),
        ensures
            r as int == slot_offset(reduction as int),
    {
        assert(self.reduction_numbers()[reduction as int] == reduction);
        self.reduction_offsets[reduction as usize]
    }

    /// Drops every light record.
    pub fn clear(&mut self)
        ensures
            final(self).light_metas().len() == 0,
            final(self).reduction_numbers() == old(self).reduction_numbers(),
            final(self).reduction_offsets() == old(self).reduction_offsets(),
    {
        self.shadow_map.clear();
    }

    /// The light records, in slot order, for upload.
    pub fn light_meta_records(&self) -> (r: &Vec<GpuShadowMapMeta>)
        ensures
            r@ == self.light_metas(),
    {
        &self.shadow_map
    }

    /// The light records as the bytes of their dynamic uniform buffer.
    pub fn light_meta_bytes(&self) -> (r: Vec<u8>)
        requires
            self.light_metas().len() < MAX_UNIFORM_SLOTS,
        ensures
            r@ == meta_buffer_bytes(self.light_metas()),
            r@.len() == self.light_metas().len() * UNIFORM_OFFSET_ALIGNMENT,
    {
        let mut out: Vec<u8> = Vec::new();
        let mut i: usize = 0;
        while i < self.shadow_map.len()
            invariant
                i <= self.shadow_map@.len(),
                self.shadow_map@.len() < MAX_UNIFORM_SLOTS,
                out@ == meta_buffer_bytes(self.shadow_map@.subrange(0, i as int)),
                out@.len() == i * UNIFORM_OFFSET_ALIGNMENT,
            decreases self.shadow_map@.len() - i,
        {
            let start = out.len();
            assert(i * UNIFORM_OFFSET_ALIGNMENT + 256 <= u32::MAX) by (nonlinear_arith)
                requires
                    i < MAX_UNIFORM_SLOTS,
            ;
            let record = self.shadow_map[i].to_bytes();
            let mut k: usize = 0;
            while k < record.len()
                invariant
                    k <= record@.len(),
                    record@.len() == META_RECORD_BYTES,
                    start == i * UNIFORM_OFFSET_ALIGNMENT,
                    out@ == meta_buffer_bytes(self.shadow_map@.subrange(0, i as int)) + record@.subrange(0, k as int),
                decreases record@.len() - k,
            {
                out.push(record[k]);
                assert(out@ =~= meta_buffer_bytes(self.shadow_map@.subrange(0, i as int)) + record@.subrange(0, k + 1));
                k = k + 1;
            }
            assert(record@.subrange(0, k as int) =~= record@);
            pad_slot(&mut out, start);
            let ghost s = self.shadow_map@.subrange(0, i + 1);
            assert(s.drop_last() =~= self.shadow_map@.subrange(0, i as int));
            assert(out@ =~= meta_buffer_bytes(s));
            assert((i + 1) * UNIFORM_OFFSET_ALIGNMENT == i * UNIFORM_OFFSET_ALIGNMENT + 256) by (nonlinear_arith);
            i = i + 1;
        }
        assert(self.shadow_map@.subrange(0, i as int) =~= self.shadow_map@);
        out
    }

    /// The reduction iteration numbers as the bytes of their dynamic
    /// uniform buffer.
    pub fn reduction_bytes(&self) -> (r: Vec<u8>)
        requires
            self.wf(),
        ensures
            r@ == number_buffer_bytes(self.reduction_numbers()),
            r@.len() == self.reduction_numbers().len() * UNIFORM_OFFSET_ALIGNMENT,
    {
        let mut out: Vec<u8> = Vec::new();
        let mut i: usize = 0;
        while i < self.reduction.len()
            invariant
                i <= self.reduction@.len(),
                self.reduction@.len() <= MAX_UNIFORM_SLOTS,
                out@ == number_buffer_bytes(self.reduction@.subrange(0, i as int)),
                out@.len() == i * UNIFORM_OFFSET_ALIGNMENT,
            decreases self.reduction@.len() - i,
        {
            let start = out.len();
            assert(i * UNIFORM_OFFSET_ALIGNMENT + 256 <= u32::MAX) by (nonlinear_arith)
                requires
                    i < MAX_UNIFORM_SLOTS,
            ;
            push_u32_le(&mut out, self.reduction[i]);
            pad_slot(&mut out, start);
            let ghost s = self.reduction@.subrange(0, i + 1);
            assert(s.drop_last() =~= self.reduction@.subrange(0, i as int));
            assert(out@ =~= number_buffer_bytes(s));
            assert((i + 1) * UNIFORM_OFFSET_ALIGNMENT == i * UNIFORM_OFFSET_ALIGNMENT + 256) by (nonlinear_arith);
            i = i + 1;
        }
        assert(self.reduction@.subrange(0, i as int) =~= self.reduction@);
        out
    }

    /// The reduction iteration numbers, in slot order, for upload.
    pub fn reduction_records(&self) -> (r: &Vec<u32>)
        ensures
            r@ == self.reduction_numbers(),
    {
        &self.reduction
    }
}

/// Little-endian bytes of `x`.
pub open spec fn u32_le(x: u32) -> Seq<u8> {
    seq![
        (x % 256) as u8,
        ((x / 256) % 256) as u8,
        ((x / 65536) % 256) as u8,
        (x / 16777216) as u8,
    ]
}

/// Size in bytes of a record in the uniform layout.
pub const META_RECORD_BYTES: usize = 32;

/// A record in the uniform layout: `index` at byte 0, `size` at 4, the
/// two-component `offset` at 8 (aligned to 8), `bias` at 16,
/// `alpha_threshold` at 20, `pcf_samples` at 24, `pcf_radius` at 28, all
/// little-endian; 32 bytes, a multiple of the 16-byte struct alignment.
pub open spec fn meta_bytes(m: GpuShadowMapMeta) -> Seq<u8> {
    u32_le(m.index) + u32_le(m.size) + u32_le(m.offset[0]) + u32_le(m.offset[1]) + u32_le(m.bias)
        + u32_le(m.alpha_threshold) + u32_le(m.pcf_samples) + u32_le(m.pcf_radius)
}

/// `bytes` followed by zeros up to a whole slot.
pub open spec fn padded_slot(bytes: Seq<u8>) -> Seq<u8> {
    bytes + Seq::new((UNIFORM_OFFSET_ALIGNMENT - bytes.len()) as nat, |i: int| 0u8)
}

/// Contents of a dynamic uniform buffer of light records: one slot each.
pub open spec fn meta_buffer_bytes(records: Seq<GpuShadowMapMeta>) -> Seq<u8>
    decreases records.len(),
{
    if records.len() == 0 {
        Seq::empty()
    } else {
        meta_buffer_bytes(records.drop_last()) + padded_slot(meta_bytes(records.last()))
    }
}

/// Contents of a dynamic uniform buffer of `u32` values: one slot each.
pub open spec fn number_buffer_bytes(values: Seq<u32>) -> Seq<u8>
    decreases values.len(),
{
    if values.len() == 0 {
        Seq::empty()
    } else {
        number_buffer_bytes(values.drop_last()) + padded_slot(u32_le(values.last()))
    }
}

/// Appends the little-endian bytes of `x`.
fn push_u32_le(out: &mut Vec<u8>, x: u32)
    ensures
        final(out)@ == old(out)@ + u32_le(x),
{
    out.push((x % 256) as u8);
    out.push(((x / 256) % 256) as u8);
    out.push(((x / 65536) % 256) as u8);
    out.push((x / 16777216) as u8);
    assert(final(out)@ =~= old(out)@ + u32_le(x));
}

/// Appends zeros until the length is a whole number of slots.
fn pad_slot(out: &mut Vec<u8>, start: usize)
    requires
        start <= old(out)@.len() <= start + UNIFORM_OFFSET_ALIGNMENT,
        start + UNIFORM_OFFSET_ALIGNMENT <= u32::MAX,
    ensures
        final(out)@ == old(out)@ + Seq::new(
            (start + UNIFORM_OFFSET_ALIGNMENT - old(out)@.len()) as nat,
            |i: int| 0u8,
        ),
{
    let end = start + 256;
    let ghost before = old(out)@;
    while out.len() < end
        invariant
            before.len() <= out@.len() <= end,
            end == start + UNIFORM_OFFSET_ALIGNMENT,
            out@ == before + Seq::new((out@.len() - before.len()) as nat, |i: int| 0u8),
        decreases end - out@.len(),
    {
        out.push(0u8);
        assert(out@ =~= before + Seq::new((out@.len() - before.len()) as nat, |i: int| 0u8));
    }
}

impl GpuShadowMapMeta {
    /// The record in the uniform layout.
    pub fn to_bytes(&self) -> (r: Vec<u8>)
        ensures
            r@ == meta_bytes(*self),
            r@.len() == META_RECORD_BYTES,
    {
        let mut out: Vec<u8> = Vec::new();
        push_u32_le(&mut out, self.index);
        push_u32_le(&mut out, self.size);
        push_u32_le(&mut out, self.offset[0]);
        push_u32_le(&mut out, self.offset[1]);
        push_u32_le(&mut out, self.bias);
        push_u32_le(&mut out, self.alpha_threshold);
        push_u32_le(&mut out, self.pcf_samples);
        push_u32_le(&mut out, self.pcf_radius);
        assert(out@ =~= meta_bytes(*self));
        out
    }
}

} // verus!
