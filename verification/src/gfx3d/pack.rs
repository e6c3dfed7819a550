use crate::ffi::{WgrDraw3D, WgrMat4, WgrShadowCaster, WgrVec4};
use vstd::prelude::*;

verus! {

/// Words of one draw's place: a world matrix and three conform vectors.
pub const OBJECT_WORDS: usize = 28;

/// Words of one draw's material: six vectors.
pub const MATERIAL_WORDS: usize = 24;

/// Words of one shadow caster: a world matrix and two conform vectors.
pub const CASTER_WORDS: usize = 24;

/// A draw's place in the world.
pub open spec fn object_words(d: &WgrDraw3D) -> Seq<u32> {
    d.world@ + d.conform0@ + d.conform1@ + d.conform2@
}

/// A draw's material.
pub open spec fn material_words(d: &WgrDraw3D) -> Seq<u32> {
    d.mat_emissive@ + d.mat_sun_ambient@ + d.mat_sun_diffuse@ + d.mat_light_diffuse@
        + d.mat_light_ambient@ + d.mat_specular@
}

/// A caster's place in the world.
pub open spec fn caster_words(c: &WgrShadowCaster) -> Seq<u32> {
    c.world@ + c.conform0@ + c.conform2@
}

/// What the slots of `order` hold, one after the other.
pub open spec fn packed_words<T>(
    items: Seq<T>,
    order: Seq<u32>,
    words: spec_fn(T) -> Seq<u32>,
) -> Seq<u32>
    decreases order.len(),
{
    if order.len() == 0 {
        Seq::empty()
    } else {
        packed_words(items, order.drop_last(), words) + words(items[order.last() as int])
    }
}

fn push_mat(out: &mut Vec<u32>, m: &WgrMat4)
    ensures
        final(out)@ == old(out)@ + m@,
{
    let ghost before = out@;
    let mut i: usize = 0;
    while i < 16
        invariant
            i <= 16,
            out@ == before + m@.take(i as int),
        decreases 16 - i,
    {
        out.push(m[i]);
        i = i + 1;
        assert(out@ =~= before + m@.take(i as int));
    }
    assert(m@.take(16) =~= m@);
}

fn push_vec(out: &mut Vec<u32>, v: &WgrVec4)
    ensures
        final(out)@ == old(out)@ + v@,
{
    out.push(v[0]);
    out.push(v[1]);
    out.push(v[2]);
    out.push(v[3]);
    assert(out@ =~= old(out)@ + v@);
}

/// Packs the places of the draws in slot order.
pub fn pack_objects(draws: &[WgrDraw3D], order: &[u32]) -> (out: Vec<u32>)
    requires
        forall|s: int| 0 <= s < order@.len() ==> #[trigger] order@[s] < draws@.len(),
    ensures
        out@ == packed_words(draws@, order@, |d: WgrDraw3D| object_words(&d)),
        out@.len() == order@.len() * OBJECT_WORDS,
{
    let mut out: Vec<u32> = Vec::new();
    let ghost words = |d: WgrDraw3D| object_words(&d);
    let mut s: usize = 0;
    assert(order@.take(0) =~= Seq::empty());
    assert(out@ =~= Seq::empty());
    while s < order.len()
        invariant
            s <= order@.len(),
            forall|s: int| 0 <= s < order@.len() ==> #[trigger] order@[s] < draws@.len(),
            words == (|d: WgrDraw3D| object_words(&d)),
            out@ == packed_words(draws@, order@.take(s as int), words),
            out@.len() == s * OBJECT_WORDS,
        decreases order@.len() - s,
    {
        let d: &WgrDraw3D = &draws[order[s] as usize];
        let ghost before = out@;
        push_mat(&mut out, &d.world);
        push_vec(&mut out, &d.conform0);
        push_vec(&mut out, &d.conform1);
        push_vec(&mut out, &d.conform2);
        s = s + 1;
        proof {
            assert(order@.take(s as int).drop_last() =~= order@.take(s - 1));
            assert(out@ =~= before + object_words(d));
        }
    }
    assert(order@.take(s as int) =~= order@);
    out
}

/// Packs the materials of the draws in slot order.
pub fn pack_materials(draws: &[WgrDraw3D], order: &[u32]) -> (out: Vec<u32>)
    requires
        forall|s: int| 0 <= s < order@.len() ==> #[trigger] order@[s] < draws@.len(),
    ensures
        out@ == packed_words(draws@, order@, |d: WgrDraw3D| material_words(&d)),
        out@.len() == order@.len() * MATERIAL_WORDS,
{
    let mut out: Vec<u32> = Vec::new();
    let ghost words = |d: WgrDraw3D| material_words(&d);
    let mut s: usize = 0;
    assert(order@.take(0) =~= Seq::empty());
    assert(out@ =~= Seq::empty());
    while s < order.len()
        invariant
            s <= order@.len(),
            forall|s: int| 0 <= s < order@.len() ==> #[trigger] order@[s] < draws@.len(),
            words == (|d: WgrDraw3D| material_words(&d)),
            out@ == packed_words(draws@, order@.take(s as int), words),
            out@.len() == s * MATERIAL_WORDS,
        decreases order@.len() - s,
    {
        let d: &WgrDraw3D = &draws[order[s] as usize];
        let ghost before = out@;
        push_vec(&mut out, &d.mat_emissive);
        push_vec(&mut out, &d.mat_sun_ambient);
        push_vec(&mut out, &d.mat_sun_diffuse);
        push_vec(&mut out, &d.mat_light_diffuse);
        push_vec(&mut out, &d.mat_light_ambient);
        push_vec(&mut out, &d.mat_specular);
        s = s + 1;
        proof {
            assert(order@.take(s as int).drop_last() =~= order@.take(s - 1));
            assert(out@ =~= before + material_words(d));
        }
    }
    assert(order@.take(s as int) =~= order@);
    out
}

/// Packs the casters in slot order.
pub fn pack_casters(casters: &[WgrShadowCaster], order: &[u32]) -> (out: Vec<u32>)
    requires
        forall|s: int| 0 <= s < order@.len() ==> #[trigger] order@[s] < casters@.len(),
    ensures
        out@ == packed_words(casters@, order@, |c: WgrShadowCaster| caster_words(&c)),
        out@.len() == order@.len() * CASTER_WORDS,
{
    let mut out: Vec<u32> = Vec::new();
    let ghost words = |c: WgrShadowCaster| caster_words(&c);
    let mut s: usize = 0;
    assert(order@.take(0) =~= Seq::empty());
    assert(out@ =~= Seq::empty());
    while s < order.len()
        invariant
            s <= order@.len(),
            forall|s: int| 0 <= s < order@.len() ==> #[trigger] order@[s] < casters@.len(),
            words == (|c: WgrShadowCaster| caster_words(&c)),
            out@ == packed_words(casters@, order@.take(s as int), words),
            out@.len() == s * CASTER_WORDS,
        decreases order@.len() - s,
    {
        let c: &WgrShadowCaster = &casters[order[s] as usize];
        let ghost before = out@;
        push_mat(&mut out, &c.world);
        push_vec(&mut out, &c.conform0);
        push_vec(&mut out, &c.conform2);
        s = s + 1;
        proof {
            assert(order@.take(s as int).drop_last() =~= order@.take(s - 1));
            assert(out@ =~= before + caster_words(c));
        }
    }
    assert(order@.take(s as int) =~= order@);
    out
}

/// Where items are all of one size, slot `s` holds the words of the item packed into it.
pub proof fn a_slot_holds_its_item<T>(
    items: Seq<T>,
    order: Seq<u32>,
    words: spec_fn(T) -> Seq<u32>,
    size: int,
    s: int,
)
    requires
        forall|x: T| (#[trigger] words(x)).len() == size,
        0 <= s < order.len(),
    ensures
        packed_words(items, order, words).len() == order.len() * size,
        packed_words(items, order, words).subrange(s * size, s * size + size) == words(
            items[order[s] as int],
        ),
    decreases order.len(),
{
    packed_len(items, order, words, size);
    let before = order.drop_last();
    packed_len(items, before, words, size);
    let head = packed_words(items, before, words);
    let all = packed_words(items, order, words);
    if s < before.len() {
        a_slot_holds_its_item(items, before, words, size, s);
        assert(s * size + size <= before.len() * size) by (nonlinear_arith)
            requires
                s + 1 <= before.len(),
                size >= 0,
        ;
        assert(0 <= s * size) by (nonlinear_arith)
            requires
                s >= 0,
                size >= 0,
        ;
        assert(all.subrange(s * size, s * size + size) =~= head.subrange(
            s * size,
            s * size + size,
        ));
    } else {
        assert(all.subrange(s * size, s * size + size) =~= words(items[order[s] as int]));
    }
}

proof fn packed_len<T>(items: Seq<T>, order: Seq<u32>, words: spec_fn(T) -> Seq<u32>, size: int)
    requires
        forall|x: T| (#[trigger] words(x)).len() == size,
    ensures
        packed_words(items, order, words).len() == order.len() * size,
        size >= 0,
    decreases order.len(),
{
    assert(words(items[0]).len() == size);
    if order.len() > 0 {
        packed_len(items, order.drop_last(), words, size);
        assert(order.len() * size == (order.len() - 1) * size + size) by (nonlinear_arith);
    } else {
        assert(0 * size == 0) by (nonlinear_arith);
    }
}

/// Word `k` of slot `s` of the packed places is one of the draw that the slot is for: of its
/// matrix, then of its three conform vectors.
pub proof fn places_are_laid_out(draws: Seq<WgrDraw3D>, order: Seq<u32>, s: int, k: int)
    requires
        0 <= s < order.len(),
        0 <= k < 28,
    ensures
        ({
            let words = packed_words(draws, order, |d: WgrDraw3D| object_words(&d));
            let d = draws[order[s] as int];
            &&& words.len() == 28 * order.len()
            &&& words[28 * s + k] == if k < 16 {
                d.world@[k]
            } else if k < 20 {
                d.conform0@[k - 16]
            } else if k < 24 {
                d.conform1@[k - 20]
            } else {
                d.conform2@[k - 24]
            }
        }),
{
    let f = |d: WgrDraw3D| object_words(&d);
    assert forall|d: WgrDraw3D| (#[trigger] f(d)).len() == 28 by {}
    a_slot_holds_its_item(draws, order, f, 28, s);
    let slot = packed_words(draws, order, f).subrange(s * 28, s * 28 + 28);
    assert(slot[k] == f(draws[order[s] as int])[k]);
}

/// Word `k` of slot `s` of the packed materials is one of the draw that the slot is for: what it
/// emits, what it takes of the sun's light, ambient and diffuse, what it takes of other lights,
/// diffuse and ambient, and how it shines.
pub proof fn materials_are_laid_out(draws: Seq<WgrDraw3D>, order: Seq<u32>, s: int, k: int)
    requires
        0 <= s < order.len(),
        0 <= k < 4,
    ensures
        ({
            let words = packed_words(draws, order, |d: WgrDraw3D| material_words(&d));
            let d = draws[order[s] as int];
            &&& words.len() == 24 * order.len()
            &&& words[24 * s + k] == d.mat_emissive@[k]
            &&& words[24 * s + 4 + k] == d.mat_sun_ambient@[k]
            &&& words[24 * s + 8 + k] == d.mat_sun_diffuse@[k]
            &&& words[24 * s + 12 + k] == d.mat_light_diffuse@[k]
            &&& words[24 * s + 16 + k] == d.mat_light_ambient@[k]
            &&& words[24 * s + 20 + k] == d.mat_specular@[k]
        }),
{
    let f = |d: WgrDraw3D| material_words(&d);
    assert forall|d: WgrDraw3D| (#[trigger] f(d)).len() == 24 by {}
    a_slot_holds_its_item(draws, order, f, 24, s);
    let slot = packed_words(draws, order, f).subrange(s * 24, s * 24 + 24);
    let all = f(draws[order[s] as int]);
    assert(slot[k] == all[k]);
    assert(slot[4 + k] == all[4 + k]);
    assert(slot[8 + k] == all[8 + k]);
    assert(slot[12 + k] == all[12 + k]);
    assert(slot[16 + k] == all[16 + k]);
    assert(slot[20 + k] == all[20 + k]);
}

/// Word `k` of slot `s` of the packed casters is one of the caster that the slot is for: of its
/// matrix, then of its two conform vectors.
pub proof fn casters_are_laid_out(casters: Seq<WgrShadowCaster>, order: Seq<u32>, s: int, k: int)
    requires
        0 <= s < order.len(),
        0 <= k < 24,
    ensures
        ({
            let words = packed_words(casters, order, |c: WgrShadowCaster| caster_words(&c));
            let c = casters[order[s] as int];
            &&& words.len() == 24 * order.len()
            &&& words[24 * s + k] == if k < 16 {
                c.world@[k]
            } else if k < 20 {
                c.conform0@[k - 16]
            } else {
                c.conform2@[k - 20]
            }
        }),
{
    let f = |c: WgrShadowCaster| caster_words(&c);
    assert forall|c: WgrShadowCaster| (#[trigger] f(c)).len() == 24 by {}
    a_slot_holds_its_item(casters, order, f, 24, s);
    let slot = packed_words(casters, order, f).subrange(s * 24, s * 24 + 24);
    assert(slot[k] == f(casters[order[s] as int])[k]);
}

} // verus!
