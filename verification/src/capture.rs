//! What a capture reads: the screen and window sizes, the order in which
//! pixels are fetched, and which windows are copied.

use vstd::prelude::*;

verus! {

/// Width of the virtual screen in pixels.
pub const SCREEN_WIDTH: i32 = 1920;

/// Height of the virtual screen in pixels.
pub const SCREEN_HEIGHT: i32 = 1080;

/// Colour depth of the virtual screen in bits.
pub const SCREEN_DEPTH: u32 = 24;

/// Side in pixels of the square copied from each window.
pub const WINDOW_GRAB_SIZE: i32 = 200;

/// The points of a `width` by `height` area in the order they are read:
/// column by column, each column from top to bottom, so that the point
/// `(x, y)` comes at position `x * height + y`.
pub fn scan_order(width: i32, height: i32) -> (out: Vec<(i32, i32)>)
    requires
        width >= 0,
        height >= 0,
    ensures
        out@.len() == width * height,
        forall|x: int, y: int|
            0 <= x < width && 0 <= y < height ==> #[trigger] out@[x * height + y] == (
            x as i32,
            y as i32,
        ),
        forall|i: int|
            0 <= i < out@.len() ==> #[trigger] out@[i] == ((i / height as int) as i32, (i
                % height as int) as i32),
{
    let mut out: Vec<(i32, i32)> = Vec::new();
    let mut x: i32 = 0;
    while x < width
        invariant
            0 <= x <= width,
            height >= 0,
            out@.len() == x * height,
            forall|i: int, j: int|
                0 <= i < x && 0 <= j < height ==> #[trigger] out@[i * height + j] == (
                i as i32,
                j as i32,
            ),
        decreases width - x,
    {
        let mut y: i32 = 0;
        while y < height
            invariant
                0 <= x < width,
                0 <= y <= height,
                out@.len() == x * height + y,
                forall|i: int, j: int|
                    (0 <= i < x && 0 <= j < height) || (i == x && 0 <= j < y)
                        ==> #[trigger] out@[i * height + j] == (i as i32, j as i32),
            decreases height - y,
        {
            let ghost before = out@;
            out.push((x, y));
            assert forall|i: int, j: int|
                (0 <= i < x && 0 <= j < height) || (i == x && 0 <= j < y + 1)
                    implies #[trigger] out@[i * height + j] == (i as i32, j as i32) by {
                if i == x && j == y {
                    assert(i * height + j == before.len());
                } else {
                    lemma_earlier_point(i, j, x as int, y as int, height as int);
                    assert(out@[i * height + j] == before[i * height + j]);
                }
            }
            y = y + 1;
        }
        assert((x + 1) * height == x * height + height) by (nonlinear_arith);
        x = x + 1;
    }
    assert forall|i: int| 0 <= i < out@.len() implies #[trigger] out@[i] == (
        (i / height as int) as i32,
        (i % height as int) as i32,
    ) by {
        lemma_position_splits(i, width as int, height as int);
        assert(out@[(i / height as int) * height + i % height as int] == out@[i]);
    }
    out
}

/// A position below `w * h` is the point `(i / h, i % h)` of the area.
proof fn lemma_position_splits(i: int, w: int, h: int)
    requires
        0 <= i < w * h,
        0 <= w,
        0 <= h,
    ensures
        h > 0,
        0 <= i / h < w,
        0 <= i % h < h,
        (i / h) * h + i % h == i,
{
    if h == 0 {
        assert(w * h == 0) by (nonlinear_arith)
            requires
                h == 0,
        ;
    }
    vstd::arithmetic::div_mod::lemma_fundamental_div_mod(i, h);
    vstd::arithmetic::div_mod::lemma_div_pos_is_pos(i, h);
    vstd::arithmetic::mul::lemma_mul_is_commutative(h, i / h);
    assert(i / h < w) by (nonlinear_arith)
        requires
            i < w * h,
            h > 0,
            i == h * (i / h) + i % h,
            0 <= i % h,
    ;
}

/// A point read before `(x, y)` sits at a smaller position.
proof fn lemma_earlier_point(i: int, j: int, x: int, y: int, h: int)
    requires
        0 <= x,
        0 <= y < h,
        (0 <= i < x && 0 <= j < h) || (i == x && 0 <= j < y),
    ensures
        0 <= i * h + j < x * h + y,
{
    if i < x {
        assert(0 <= i * h) by (nonlinear_arith)
            requires
                0 <= i,
                0 <= h,
        ;
        assert(i * h + h <= x * h) by (nonlinear_arith)
            requires
                i < x,
                0 <= h,
        ;
    } else {
        assert(0 <= i * h) by (nonlinear_arith)
            requires
                0 <= i,
                0 <= h,
        ;
    }
}

/// The windows, in their order, whose name could be read.
pub open spec fn spec_named_windows(children: Seq<(u64, bool)>) -> Seq<u64>
    decreases children.len(),
{
    if children.len() == 0 {
        seq![]
    } else {
        let rest = spec_named_windows(children.drop_last());
        if children.last().1 {
            rest.push(children.last().0)
        } else {
            rest
        }
    }
}

/// Picks, in their order, the windows to copy: those whose name could be
/// read. Each child is given as its window id and whether it has a name.
pub fn named_windows(children: &Vec<(u64, bool)>) -> (out: Vec<u64>)
    ensures
        out@ == spec_named_windows(children@),
        out@ == children@.filter(|c: (u64, bool)| c.1).map_values(|c: (u64, bool)| c.0),
{
    let mut out: Vec<u64> = Vec::new();
    let mut i: usize = 0;
    while i < children.len()
        invariant
            i <= children@.len(),
            out@ == spec_named_windows(children@.take(i as int)),
        decreases children@.len() - i,
    {
        let (id, has_name) = children[i];
        assert(children@.take(i + 1).drop_last() =~= children@.take(i as int));
        if has_name {
            out.push(id);
        }
        i = i + 1;
    }
    assert(children@.take(children@.len() as int) =~= children@);
    proof {
        lemma_named_windows_are_the_named_children(children@);
    }
    out
}

/// The windows picked are exactly the ids of the children that have a name,
/// in their order, whatever their neighbours are.
pub proof fn lemma_named_windows_are_the_named_children(children: Seq<(u64, bool)>)
    ensures
        spec_named_windows(children) == children.filter(|c: (u64, bool)| c.1).map_values(
            |c: (u64, bool)| c.0,
        ),
    decreases children.len(),
{
    reveal_with_fuel(Seq::filter, 1);
    if children.len() > 0 {
        lemma_named_windows_are_the_named_children(children.drop_last());
        let sub = children.drop_last().filter(|c: (u64, bool)| c.1);
        assert(children.filter(|c: (u64, bool)| c.1) == (if children.last().1 {
            sub.push(children.last())
        } else {
            sub
        }));
        if children.last().1 {
            assert(sub.push(children.last()).map_values(|c: (u64, bool)| c.0) =~= sub.map_values(
                |c: (u64, bool)| c.0,
            ).push(children.last().0));
        }
    } else {
        assert(children.filter(|c: (u64, bool)| c.1).map_values(|c: (u64, bool)| c.0) =~= seq![]);
    }
}

/// `id` is the id of a child that has a name.
pub open spec fn is_named_child(children: Seq<(u64, bool)>, id: u64) -> bool {
    exists|i: int| 0 <= i < children.len() && #[trigger] children[i].1 && children[i].0 == id
}

/// Every child with a name is picked, and every window picked is a child
/// with a name; the number picked is the number of children with a name.
pub proof fn lemma_named_windows_membership(children: Seq<(u64, bool)>)
    ensures
        forall|i: int|
            0 <= i < children.len() && children[i].1 ==> spec_named_windows(children).contains(
                #[trigger] children[i].0,
            ),
        forall|k: int|
            0 <= k < spec_named_windows(children).len() ==> is_named_child(
                children,
                #[trigger] spec_named_windows(children)[k],
            ),
        spec_named_windows(children).len() == children.filter(|c: (u64, bool)| c.1).len(),
{
    lemma_named_windows_are_the_named_children(children);
    let f = children.filter(|c: (u64, bool)| c.1);
    assert forall|i: int|
        0 <= i < children.len() && children[i].1 implies spec_named_windows(children).contains(
        #[trigger] children[i].0,
    ) by {
        children.lemma_filter_contains(|c: (u64, bool)| c.1, i);
        let j = choose|j: int| 0 <= j < f.len() && f[j] == children[i];
        assert(spec_named_windows(children)[j] == children[i].0);
    }
    assert forall|k: int| 0 <= k < spec_named_windows(children).len() implies is_named_child(
        children,
        #[trigger] spec_named_windows(children)[k],
    ) by {
        children.lemma_filter_pred(|c: (u64, bool)| c.1, k);
        assert(f.contains(f[k]));
        children.lemma_filter_contains_rev(|c: (u64, bool)| c.1, f[k]);
        let i = choose|i: int| 0 <= i < children.len() && children[i] == f[k];
        assert(0 <= i < children.len());
        assert(children[i].1);
        assert(children[i].0 == spec_named_windows(children)[k]);
    }
}

} // verus!
