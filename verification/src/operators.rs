//! Arranging a set of rectangles so that they do not overlap.
use vstd::prelude::*;
use binpack2d::{bin_new, BinType, Dimension};

verus! {

broadcast use vstd::seq_lib::group_to_multiset_ensures;

/// The largest side, in pixels, of a rectangle that packing accepts: with
/// [`PADDING`] on both sides it still fits an `i32`.
pub const MAX_SIDE: i32 = 0x7fff_fff5;

/// The gap kept around each packed rectangle, in pixels.
pub const PADDING: i32 = 5;

/// What a `binpack2d` MaxRects bin of `side` by `side` makes of
/// `insert_list` on `items` (id, width, height, each with `padding`): the
/// inserted rectangles as (id, x, y), and the number rejected.
pub uninterp spec fn spec_max_rects(side: i32, items: Seq<(isize, i32, i32)>, padding: i32) -> (
    Seq<(isize, i32, i32)>,
    nat,
);

/// The ids of packed or unpacked items.
pub open spec fn ids(items: Seq<(isize, i32, i32)>) -> Seq<isize> {
    items.map_values(|item: (isize, i32, i32)| item.0)
}

/// Packs `items` (id, width, height) into a fresh `binpack2d` MaxRects bin
/// of `side` by `side` with `insert_list`, each item with `padding`. The
/// contract names the result, and states what `insert_list` shows plainly:
/// each item ends up either inserted or rejected, keeping its id.
#[verifier::external_body]
fn max_rects_pack(side: i32, items: &[(isize, i32, i32)], padding: i32) -> (res: (
    Vec<(isize, i32, i32)>,
    usize,
))
    requires
        0 <= side,
        0 <= padding <= PADDING,
        forall|i: int| 0 <= i < items.len() ==> 0 <= #[trigger] items[i].1 <= MAX_SIDE && 0 <= items[i].2 <= MAX_SIDE,
    ensures
        spec_max_rects(side, items@, padding) == (res.0@, res.1 as nat),
        res.0@.len() + res.1 == items@.len(),
        res.1 == 0 ==> ids(res.0@).to_multiset() == ids(items@).to_multiset(),
{
    let dims: Vec<Dimension> = items.iter().map(|&(id, w, h)| Dimension::with_id(id, w, h, padding)).collect();
    let mut bin = bin_new(BinType::MaxRects, side, side);
    let (inserted, rejected) = bin.insert_list(&dims);
    (inserted.iter().map(|r| (r.id(), r.x(), r.y())).collect(), rejected.len())
}

/// The items packed for `sizes`: item `i` has id `i` and the `i`-th size.
pub open spec fn items_for(sizes: Seq<(i32, i32)>) -> Seq<(isize, i32, i32)> {
    Seq::new(sizes.len(), |i: int| (i as isize, sizes[i].0, sizes[i].1))
}

/// `corner` is where packing put the rectangle with id `id`.
pub open spec fn packed_at(packed: Seq<(isize, i32, i32)>, id: int, corner: (i32, i32)) -> bool {
    exists|k: int| 0 <= k < packed.len() && packed[k].0 == id && corner == (packed[k].1, packed[k].2)
}

/// Tries to pack rectangles of `sizes` (width, height) into a square bin of
/// `side`, with [`PADDING`] around each. When all fit, gives the top-left
/// corner of each, in the order of `sizes`: the position packing gave the
/// rectangle with its index as id.
pub fn try_pack(sizes: &[(i32, i32)], side: i32) -> (res: Option<Vec<(i32, i32)>>)
    requires
        0 <= side,
        sizes@.len() <= isize::MAX,
        forall|i: int| 0 <= i < sizes.len() ==> 0 <= #[trigger] sizes[i].0 <= MAX_SIDE && 0 <= sizes[i].1 <= MAX_SIDE,
    ensures
        ({
            let (packed, rejected) = spec_max_rects(side, items_for(sizes@), PADDING);
            &&& res is Some <==> rejected == 0
            &&& res matches Some(corners) ==> {
                &&& corners@.len() == sizes@.len()
                &&& forall|i: int|
                    0 <= i < sizes@.len() ==> packed_at(packed, i, #[trigger] corners@[i])
            }
        }),
{
    let mut items: Vec<(isize, i32, i32)> = Vec::new();
    let mut i: usize = 0;
    while i < sizes.len()
        invariant
            0 <= i <= sizes.len(),
            sizes@.len() <= isize::MAX,
            items@ == items_for(sizes@).take(i as int),
        decreases sizes.len() - i,
    {
        items.push((i as isize, sizes[i].0, sizes[i].1));
        assert(items@ =~= items_for(sizes@).take(i + 1));
        i = i + 1;
    }
    assert(items@ =~= items_for(sizes@));
    let (packed, rejected) = max_rects_pack(side, items.as_slice(), PADDING);
    if rejected != 0 {
        return None;
    }
    let n = sizes.len();
    // Every id 0..n is packed, and every packed id is one of them.
    assert forall|id: isize| ids(packed@).contains(id) <==> 0 <= id < n by {
        assert(ids(packed@).to_multiset().count(id) == ids(items@).to_multiset().count(id));
        if 0 <= id < n {
            assert(ids(items@)[id as int] == id);
        }
        if ids(items@).contains(id) {
            let k = choose|k: int| 0 <= k < ids(items@).len() && ids(items@)[k] == id;
            assert(items@[k].0 == k);
        }
    }
    let mut corners: Vec<(i32, i32)> = Vec::new();
    let mut j: usize = 0;
    while j < n
        invariant
            0 <= j <= n,
            corners@.len() == j,
            forall|t: int| 0 <= t < j ==> #[trigger] corners@[t] == (0i32, 0i32),
        decreases n - j,
    {
        corners.push((0, 0));
        j = j + 1;
    }
    let mut k: usize = 0;
    while k < packed.len()
        invariant
            0 <= k <= packed.len(),
            n == sizes@.len(),
            corners@.len() == n,
            forall|id: isize| ids(packed@).contains(id) <==> 0 <= id < n,
            forall|i: int|
                0 <= i < n ==> (exists|q: int|
                    0 <= q < k && packed@[q].0 == i && #[trigger] corners@[i] == (packed@[q].1, packed@[q].2))
                    || (forall|q: int| 0 <= q < k ==> packed@[q].0 != i),
        decreases packed.len() - k,
    {
        let (id, x, y) = packed[k];
        assert(ids(packed@)[k as int] == id);
        assert(ids(packed@).contains(id));
        let ghost before = corners@;
        corners.set(id as usize, (x, y));
        assert forall|i: int| 0 <= i < n implies (exists|q: int|
            0 <= q < k + 1 && packed@[q].0 == i && #[trigger] corners@[i] == (packed@[q].1, packed@[q].2))
            || (forall|q: int| 0 <= q < k + 1 ==> packed@[q].0 != i) by {
            if i == id {
                assert(packed@[k as int].0 == i && corners@[i] == (packed@[k as int].1, packed@[k as int].2));
            } else {
                assert(corners@[i] == before[i]);
            }
        }
        k = k + 1;
    }
    assert forall|i: int| 0 <= i < sizes@.len() implies packed_at(packed@, i, #[trigger] corners@[i]) by {
        assert(ids(packed@).contains(i as isize));
        let q = choose|q: int| 0 <= q < ids(packed@).len() && ids(packed@)[q] == i as isize;
        assert(packed@[q].0 == i);
    }
    assert(spec_max_rects(side, items_for(sizes@), PADDING) == (packed@, 0nat));
    Some(corners)
}

/// The power of two by which `x` is divided to keep 24 significant bits,
/// the precision of an `f32`.
pub open spec fn f32_unit(x: nat) -> nat
    decreases x,
{
    if x < 0x100_0000 {
        1
    } else {
        2 * f32_unit(x / 2)
    }
}

/// The whole number `x` as an `f32`: rounded to 24 significant bits, ties
/// to even.
pub open spec fn f32_round(x: nat) -> nat {
    let p = f32_unit(x);
    let q = x / p;
    let r = x % p;
    if 2 * r > p || (2 * r == p && q % 2 == 1) {
        (q + 1) * p
    } else {
        q * p
    }
}

/// `(side as f32 * 1.1) as i32`: the side as an `f32`, times `1.1f32`
/// (which is 9227469 / 2^23), rounded as an `f32`, then truncated, and
/// capped at `i32::MAX`.
pub open spec fn f32_tenth_larger(side: nat) -> int {
    let v = f32_round(f32_round(side) * 9227469) / 0x80_0000;
    if v > i32::MAX {
        i32::MAX as int
    } else {
        v as int
    }
}

/// The next side tried after `side`: a tenth larger, computed as an `f32`
/// (see [`f32_tenth_larger`]), and at least one larger.
pub open spec fn grown(side: int) -> int {
    let g = f32_tenth_larger(side as nat);
    if g > side {
        g
    } else {
        side + 1
    }
}

/// How far a side is from the largest bin side, `i32::MAX`.
pub open spec fn room(side: int) -> nat {
    if side > i32::MAX {
        0
    } else {
        (i32::MAX + 1 - side) as nat
    }
}

/// The first side, starting from `side` and growing by [`grown`], at which
/// packing `sizes` rejects nothing; none when even a side of `i32::MAX`,
/// beyond which no bin can grow, rejects some.
pub open spec fn first_fitting_side(sizes: Seq<(i32, i32)>, side: int) -> Option<int>
    decreases room(side),
{
    if side < 0 || side > i32::MAX {
        None
    } else if spec_max_rects(side as i32, items_for(sizes), PADDING).1 == 0 {
        Some(side)
    } else if side == i32::MAX {
        None
    } else {
        first_fitting_side(sizes, grown(side))
    }
}

/// `x` as an `f32`: see [`f32_round`].
fn round_to_f32(x: u64) -> (r: u64)
    requires
        x < 0x1000_0000_0000_0000,
    ensures
        r == f32_round(x as nat),
        r <= 2 * x,
{
    let mut p: u64 = 1;
    while x / p >= 0x100_0000
        invariant
            1 <= p,
            p == 1 || p * 0x80_0000 <= x,
            x < 0x1000_0000_0000_0000,
            f32_unit(x as nat) == p * f32_unit((x / p) as nat),
        decreases x / p,
    {
        proof {
            let q = x / p;
            vstd::arithmetic::div_mod::lemma_div_denominator(x as int, p as int, 2);
            vstd::arithmetic::div_mod::lemma_fundamental_div_mod(x as int, p as int);
            vstd::arithmetic::div_mod::lemma_mod_pos_bound(x as int, p as int);
            vstd::arithmetic::mul::lemma_mul_inequality(0x100_0000, q as int, p as int);
            assert(p * 0x100_0000 <= x) by (nonlinear_arith)
                requires
                    0x100_0000 * p <= q * p,
                    x == p * q + x % p,
                    0 <= x % p,
            ;
            assert(f32_unit(q as nat) == 2 * f32_unit((q / 2) as nat));
            assert(p * f32_unit(q as nat) == (p * 2) * f32_unit((q / 2) as nat)) by (nonlinear_arith)
                requires
                    f32_unit(q as nat) == 2 * f32_unit((q / 2) as nat),
            ;
        }
        p = p * 2;
    }
    let q = x / p;
    let r = x % p;
    proof {
        vstd::arithmetic::div_mod::lemma_fundamental_div_mod(x as int, p as int);
        vstd::arithmetic::div_mod::lemma_mod_pos_bound(x as int, p as int);
        assert(q * p <= x) by (nonlinear_arith)
            requires
                x == p * q + r,
                0 <= r,
        ;
        assert(f32_unit(q as nat) == 1);
        assert(f32_unit(x as nat) == p) by (nonlinear_arith)
            requires
                f32_unit(x as nat) == p * f32_unit(q as nat),
                f32_unit(q as nat) == 1,
        ;
    }
    if 2 * r > p || (2 * r == p && q % 2 == 1) {
        proof {
            assert((q + 1) * p == q * p + p) by (nonlinear_arith);
        }
        (q + 1) * p
    } else {
        q * p
    }
}

/// The next side tried after `side`: see [`grown`].
pub fn grown_side(side: i32) -> (next: i32)
    requires
        0 <= side < i32::MAX,
    ensures
        next == grown(side as int),
{
    let a = round_to_f32(side as u64);
    let n = a * 9227469;
    let b = round_to_f32(n);
    let v = b / 0x80_0000;
    let g: u64 = if v > 0x7fff_ffff {
        0x7fff_ffff
    } else {
        v
    };
    if g > side as u64 {
        g as i32
    } else {
        side + 1
    }
}

/// Packs rectangles of `sizes` into a square bin, starting with a side of
/// `side` and growing it by [`grown`] until they all fit: gives the top-left
/// corner of each, in the order of `sizes`, as packed at the first fitting
/// side (see [`first_fitting_side`]). Gives nothing when they do not fit
/// even at a side of `i32::MAX`, which cannot grow further.
pub fn pack_rects(sizes: &[(i32, i32)], side: i32) -> (res: Option<Vec<(i32, i32)>>)
    requires
        0 <= side,
        sizes@.len() <= isize::MAX,
        forall|i: int| 0 <= i < sizes.len() ==> 0 <= #[trigger] sizes[i].0 <= MAX_SIDE && 0 <= sizes[i].1 <= MAX_SIDE,
    ensures
        match first_fitting_side(sizes@, side as int) {
            Some(fit) => res matches Some(corners) && corners@.len() == sizes@.len() && forall|i: int|
                0 <= i < sizes@.len() ==> packed_at(
                    spec_max_rects(fit as i32, items_for(sizes@), PADDING).0,
                    i,
                    #[trigger] corners@[i],
                ),
            None => res is None,
        },
{
    let mut current: i32 = side;
    loop
        invariant
            0 <= current,
            sizes@.len() <= isize::MAX,
            forall|i: int| 0 <= i < sizes.len() ==> 0 <= #[trigger] sizes[i].0 <= MAX_SIDE && 0 <= sizes[i].1 <= MAX_SIDE,
            first_fitting_side(sizes@, side as int) == first_fitting_side(sizes@, current as int),
        decreases room(current as int),
    {
        match try_pack(sizes, current) {
            Some(corners) => {
                return Some(corners);
            },
            None => {},
        }
        if current == i32::MAX {
            return None;
        }
        let next = grown_side(current);
        assert(first_fitting_side(sizes@, current as int) == first_fitting_side(sizes@, next as int));
        current = next;
    }
}

/// Growing always makes a side below `i32::MAX` larger, without passing
/// `i32::MAX`, so the search for a fitting side ends.
pub proof fn lemma_growth_terminates(side: int)
    requires
        0 <= side < i32::MAX,
    ensures
        side < grown(side) <= i32::MAX,
        room(grown(side)) < room(side),
{
}

} // verus!
