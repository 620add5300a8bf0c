//! Which shadow casters each light sees. The geometric frustum tests run
//! on floating-point transforms outside this library and arrive here as
//! their outcomes; this module decides visibility from them.

use vstd::prelude::*;

verus! {

/// Marks an entity as an occluder that casts shadows.
#[derive(Clone, Copy, PartialEq, Eq, Debug, Structural)]
pub struct ShadowCaster2d;

/// The components that make an entity a shadow caster.
#[derive(Clone, Copy, PartialEq, Eq, Debug, Structural)]
pub struct ShadowCaster2dBundle {
    pub shadow_caster: ShadowCaster2d,
}

impl Default for ShadowCaster2dBundle {
    fn default() -> (r: ShadowCaster2dBundle)
        ensures
            r.shadow_caster == ShadowCaster2d,
    {
        ShadowCaster2dBundle { shadow_caster: ShadowCaster2d }
    }
}

/// Whether some light sees the caster this frame.
#[derive(Clone, Copy, PartialEq, Eq, Debug, Structural)]
pub struct ShadowCaster2dVisibility(pub bool);

/// The render layers an entity belongs to: bit `i` stands for layer `i`.
#[derive(Clone, Copy, PartialEq, Eq, Debug, Structural)]
pub struct RenderLayers {
    pub mask: u32,
}

/// The two sets of layers share a layer.
pub open spec fn layers_intersect(a: RenderLayers, b: RenderLayers) -> bool {
    a.mask & b.mask != 0
}

impl Default for RenderLayers {
    /// Layer 0 alone, which entities without layers belong to.
    fn default() -> (r: RenderLayers)
        ensures
            r.mask == 1,
    {
        RenderLayers { mask: 1 }
    }
}

impl RenderLayers {
    /// The two sets of layers share a layer.
    pub fn intersects(&self, other: &RenderLayers) -> (r: bool)
        ensures
            r == layers_intersect(*self, *other),
    {
        self.mask & other.mask != 0
    }
}

/// Outcomes of the frustum tests of a caster's bounding box against a
/// light's frustum: the quick bounding-sphere test, then the oriented-box
/// test.
#[derive(Clone, Copy, PartialEq, Eq, Debug, Structural)]
pub struct BoundsTest {
    pub intersects_sphere: bool,
    pub intersects_obb: bool,
}

/// A shadow caster as one light's culling sees it.
#[derive(Clone, Copy, PartialEq, Eq, Debug, Structural)]
pub struct ShadowCasterCandidate {
    pub entity: u64,
    /// Not hidden, itself or through an ancestor.
    pub inherited_visible: bool,
    pub layers: RenderLayers,
    /// Exempt from frustum culling.
    pub no_frustum_culling: bool,
    /// Frustum tests of its bounding box; none when it has no box.
    pub bounds: Option<BoundsTest>,
}

/// The caster is in the light's visible set: it is not hidden, shares a
/// layer with the light, and either is exempt from culling or has a
/// bounding box that passes both frustum tests. A caster without a box that
/// is not exempt is not visible.
pub open spec fn caster_visible(view: RenderLayers, c: ShadowCasterCandidate) -> bool {
    &&& c.inherited_visible
    &&& layers_intersect(view, c.layers)
    &&& (c.no_frustum_culling || match c.bounds {
        Some(b) => b.intersects_sphere && b.intersects_obb,
        None => false,
    })
}

/// The entities of the visible casters of `cs`, in order.
pub open spec fn visible_casters(view: RenderLayers, cs: Seq<ShadowCasterCandidate>) -> Seq<u64>
    decreases cs.len(),
{
    if cs.len() == 0 {
        Seq::empty()
    } else {
        let rest = visible_casters(view, cs.drop_last());
        if caster_visible(view, cs.last()) {
            rest.push(cs.last().entity)
        } else {
            rest
        }
    }
}

/// Whether one caster is in the visible set of a light with layers `view`.
pub fn caster_is_visible(view: &RenderLayers, c: &ShadowCasterCandidate) -> (r: bool)
    ensures
        r == caster_visible(*view, *c),
{
    if !c.inherited_visible {
        return false;
    }
    if !view.intersects(&c.layers) {
        return false;
    }
    if c.no_frustum_culling {
        return true;
    }
    match c.bounds {
        Some(b) => b.intersects_sphere && b.intersects_obb,
        None => false,
    }
}

/// The visible set of a light with layers `view` (its layers default to
/// layer 0), and marks each visible caster as seen by some light.
pub fn check_caster_visibility(
    view: Option<RenderLayers>,
    casters: &Vec<ShadowCasterCandidate>,
    seen: &mut Vec<ShadowCaster2dVisibility>,
) -> (r: Vec<u64>)
    requires
        old(seen)@.len() == casters@.len(),
    ensures
        r@ == visible_casters(view.unwrap_or(RenderLayers { mask: 1 }), casters@),
        final(seen)@.len() == casters@.len(),
        forall|i: int|
            0 <= i < casters@.len() ==> (#[trigger] final(seen)@[i]).0 == (old(seen)@[i].0
                || caster_visible(view.unwrap_or(RenderLayers { mask: 1 }), casters@[i])),
{
    let view_mask = match view {
        Some(v) => v,
        None => RenderLayers::default(),
    };
    let mut r: Vec<u64> = Vec::new();
    let mut i: usize = 0;
    while i < casters.len()
        invariant
            i <= casters@.len(),
            seen@.len() == casters@.len(),
            view_mask == view.unwrap_or(RenderLayers { mask: 1 }),
            r@ == visible_casters(view_mask, casters@.subrange(0, i as int)),
            forall|k: int|
                0 <= k < i ==> (#[trigger] seen@[k]).0 == (old(seen)@[k].0 || caster_visible(
                    view_mask,
                    casters@[k],
                )),
            forall|k: int| i <= k < casters@.len() ==> #[trigger] seen@[k] == old(seen)@[k],
        decreases casters@.len() - i,
    {
        assert(casters@.subrange(0, i + 1).drop_last() =~= casters@.subrange(0, i as int));
        if caster_is_visible(&view_mask, &casters[i]) {
            r.push(casters[i].entity);
            seen.set(i, ShadowCaster2dVisibility(true));
        }
        i = i + 1;
    }
    assert(casters@.subrange(0, i as int) =~= casters@);
    r
}

/// An entity is in the visible set exactly when some caster with that
/// entity is visible.
pub proof fn lemma_visible_casters_members(view: RenderLayers, cs: Seq<ShadowCasterCandidate>, e: u64)
    ensures
        visible_casters(view, cs).contains(e) <==> exists|i: int|
            0 <= i < cs.len() && (#[trigger] cs[i]).entity == e && caster_visible(view, cs[i]),
    decreases cs.len(),
{
    if cs.len() > 0 {
        let init = cs.drop_last();
        lemma_visible_casters_members(view, init, e);
        let rest = visible_casters(view, init);
        if visible_casters(view, cs).contains(e) {
            if caster_visible(view, cs.last()) && cs.last().entity == e {
                assert(cs[cs.len() - 1] == cs.last());
            } else {
                if caster_visible(view, cs.last()) {
                    let k = choose|k: int| 0 <= k < rest.push(cs.last().entity).len() && rest.push(cs.last().entity)[k] == e;
                    assert(k < rest.len());
                    assert(rest.contains(e));
                }
                let i = choose|i: int| 0 <= i < init.len() && (#[trigger] init[i]).entity == e && caster_visible(view, init[i]);
                assert(cs[i] == init[i]);
            }
        }
        if exists|i: int| 0 <= i < cs.len() && (#[trigger] cs[i]).entity == e && caster_visible(view, cs[i]) {
            let i = choose|i: int| 0 <= i < cs.len() && (#[trigger] cs[i]).entity == e && caster_visible(view, cs[i]);
            if i == cs.len() - 1 {
                assert(visible_casters(view, cs) == rest.push(e));
                assert(rest.push(e)[rest.len() as int] == e);
            } else {
                assert(init[i] == cs[i]);
                assert(rest.contains(e));
                let k = choose|k: int| 0 <= k < rest.len() && rest[k] == e;
                if caster_visible(view, cs.last()) {
                    assert(rest.push(cs.last().entity)[k] == e);
                }
            }
        }
    }
}

/// Culling keeps out what lies outside a light's frustum and never drops
/// what is exempt: a caster that is not exempt and whose bounding sphere
/// misses the frustum (or that has no bounding box) is not in the light's
/// visible set, unless another caster with the same entity is; a caster
/// that is exempt from culling, not hidden and shares a layer with the
/// light is in it, wherever it lies.
pub proof fn lemma_frustum_culling(view: RenderLayers, cs: Seq<ShadowCasterCandidate>, i: int)
    requires
        0 <= i < cs.len(),
    ensures
        !cs[i].no_frustum_culling && (cs[i].bounds is None || !cs[i].bounds.unwrap().intersects_sphere)
            ==> !caster_visible(view, cs[i]),
        !cs[i].no_frustum_culling && (cs[i].bounds is None || !cs[i].bounds.unwrap().intersects_sphere)
            && (forall|k: int| 0 <= k < cs.len() && k != i ==> (#[trigger] cs[k]).entity != cs[i].entity)
            ==> !visible_casters(view, cs).contains(cs[i].entity),
        cs[i].no_frustum_culling && cs[i].inherited_visible && layers_intersect(view, cs[i].layers)
            ==> visible_casters(view, cs).contains(cs[i].entity),
{
    lemma_visible_casters_members(view, cs, cs[i].entity);
}

} // verus!
