//! Cutting a sequence into rows of a given width.

use vstd::prelude::*;
use vstd::slice::slice_subrange;

verus! {

/// The number of rows that `n` items fill at `width` items per row: `n / width`
/// rounded up.
pub open spec fn row_count(n: nat, width: nat) -> nat
    recommends
        width > 0,
{
    (n + width - 1) as nat / width
}

/// Row `i` of `items` at `width` items per row: the items from position
/// `i * width` up to, and not including, position `(i + 1) * width`, as far as
/// there are any.
pub open spec fn row<A>(items: Seq<A>, width: nat, i: int) -> Seq<A>
    recommends
        width > 0,
        0 <= i < row_count(items.len(), width),
{
    items.subrange(
        i * width,
        if (i + 1) * width <= items.len() {
            (i + 1) * width
        } else {
            items.len() as int
        },
    )
}

/// The rows into which `items` are cut.
///
/// Without a width there is exactly one row, which holds every item (and is
/// empty when there is none).  With a width `w` the items are cut into
/// consecutive rows of `w` items; only the last row may be shorter, and no
/// items give no rows.
pub open spec fn rows<A>(items: Seq<A>, width: Option<u32>) -> Seq<Seq<A>>
    recommends
        width != Some(0u32),
{
    match width {
        None => seq![items],
        Some(w) => Seq::new(row_count(items.len(), w as nat), |i: int| row(items, w as nat, i)),
    }
}

/// `k` full rows that do not exhaust `n` items, followed by one row that does,
/// make `k + 1` rows.
proof fn lemma_row_count_at(n: nat, width: nat, k: nat)
    requires
        width > 0,
        k * width < n <= (k + 1) * width,
    ensures
        row_count(n, width) == k + 1,
{
    let q = (n + width - 1) as nat / width;
    let r = (n + width - 1) as nat % width;
    assert((n + width - 1) as nat == width * q + r && 0 <= r < width) by {
        vstd::arithmetic::div_mod::lemma_fundamental_div_mod((n + width - 1) as int, width as int);
        vstd::arithmetic::div_mod::lemma_mod_bound((n + width - 1) as int, width as int);
    }
    assert(q == k + 1) by (nonlinear_arith)
        requires
            width > 0,
            k * width < n <= (k + 1) * width,
            n + width - 1 == width * q + r,
            0 <= r < width,
    ;
}

/// The arithmetic of the row count: it is zero for no items, and otherwise
/// the one number of rows of which all but the last are full and the last is
/// not empty.
pub proof fn lemma_row_count(n: nat, width: nat)
    requires
        width > 0,
    ensures
        n == 0 ==> row_count(n, width) == 0,
        n > 0 ==> (row_count(n, width) - 1) * width < n <= row_count(n, width) * width,
{
    let q = (n + width - 1) as nat / width;
    let r = (n + width - 1) as nat % width;
    assert((n + width - 1) as nat == width * q + r && 0 <= r < width) by {
        vstd::arithmetic::div_mod::lemma_fundamental_div_mod((n + width - 1) as int, width as int);
        vstd::arithmetic::div_mod::lemma_mod_bound((n + width - 1) as int, width as int);
    }
    if n == 0 {
        assert(q == 0) by (nonlinear_arith)
            requires
                width > 0,
                width - 1 == width * q + r,
                0 <= r < width,
                q >= 0,
        ;
    } else {
        assert((q - 1) * width < n <= q * width) by (nonlinear_arith)
            requires
                width > 0,
                n + width - 1 == width * q + r,
                0 <= r < width,
        ;
    }
}

/// Rows of a given width: there are `n / width` rounded up of them, every row
/// but the last holds exactly `width` items, the last holds at least one, and
/// row `i` starts at item `i * width`.
pub proof fn lemma_rows_shape<A>(items: Seq<A>, width: u32)
    requires
        width > 0,
    ensures
        rows(items, Some(width)).len() == row_count(items.len(), width as nat),
        forall|i: int|
            0 <= i < rows(items, Some(width)).len() - 1 ==> (#[trigger] rows(
                items,
                Some(width),
            )[i]).len() == width,
        rows(items, Some(width)).len() > 0 ==> 1 <= rows(items, Some(width)).last().len() <= width,
        forall|i: int, j: int|
            0 <= i < rows(items, Some(width)).len() && 0 <= j < rows(items, Some(width))[i].len()
                ==> #[trigger] rows(items, Some(width))[i][j] == items[i * width + j],
{
    let n = items.len();
    let w = width as nat;
    let all = rows(items, Some(width));
    assert forall|i: int| 0 <= i < all.len() - 1 implies (#[trigger] all[i]).len() == width by {
        lemma_row_bounds(n, w, i);
    }
    if all.len() > 0 {
        lemma_row_bounds(n, w, all.len() - 1);
    }
    assert forall|i: int, j: int| 0 <= i < all.len() && 0 <= j < all[i].len() implies #[trigger] all[i][j]
        == items[i * width + j] by {
        lemma_row_bounds(n, w, i);
    }
}

/// Where row `i` of `n` items starts and ends.
proof fn lemma_row_bounds(n: nat, width: nat, i: int)
    requires
        width > 0,
        0 <= i < row_count(n, width),
    ensures
        0 <= i * width < n,
        (i + 1) * width == i * width + width,
        i < row_count(n, width) - 1 ==> (i + 1) * width <= n,
        i == row_count(n, width) - 1 ==> n <= (i + 1) * width,
{
    let count = row_count(n, width);
    lemma_row_count(n, width);
    assert(0 <= i * width <= (count - 1) * width) by (nonlinear_arith)
        requires
            0 <= i <= count - 1,
            width > 0,
    ;
    assert((i + 1) * width == i * width + width) by (nonlinear_arith);
    if i < count - 1 {
        assert((i + 1) * width <= (count - 1) * width) by (nonlinear_arith)
            requires
                0 <= i + 1 <= count - 1,
                width > 0,
        ;
    }
}

/// Every item of a row is an item of the sequence that was cut: the lemma
/// returns its position there.
pub proof fn lemma_row_items<A>(items: Seq<A>, width: Option<u32>, r: int, j: int) -> (k: int)
    requires
        width != Some(0u32),
        0 <= r < rows(items, width).len(),
        0 <= j < rows(items, width)[r].len(),
    ensures
        0 <= k < items.len(),
        items[k] == rows(items, width)[r][j],
{
    match width {
        None => j,
        Some(w) => {
            lemma_row_bounds(items.len(), w as nat, r);
            r * w + j
        },
    }
}

/// Cutting into rows loses and reorders nothing: the rows, put end to end,
/// are the items.
pub proof fn lemma_rows_flatten<A>(items: Seq<A>, width: Option<u32>)
    requires
        width != Some(0u32),
    ensures
        rows(items, width).flatten() == items,
{
    match width {
        None => {
            seq![items].lemma_flatten_one_element();
        },
        Some(w) => {
            let all = rows(items, width);
            lemma_rows_shape(items, w);
            lemma_row_count(items.len(), w as nat);
            lemma_rows_prefix(items, w, all.len());
            assert(all.take(all.len() as int) =~= all);
            if all.len() == 0 {
                assert(items =~= Seq::<A>::empty());
            } else {
                assert(items.take(items.len() as int) =~= items);
            }
        },
    }
}

/// Cutting into rows and mapping the items commute: the rows of the mapped
/// items are the mapped rows of the items.
pub proof fn lemma_rows_map_values<A, B>(items: Seq<A>, f: spec_fn(A) -> B, width: Option<u32>)
    requires
        width != Some(0u32),
    ensures
        rows(items.map_values(f), width).len() == rows(items, width).len(),
        forall|i: int|
            0 <= i < rows(items, width).len() ==> #[trigger] rows(items.map_values(f), width)[i]
                == rows(items, width)[i].map_values(f),
{
    let mapped = items.map_values(f);
    match width {
        None => {},
        Some(w) => {
            assert forall|i: int| 0 <= i < rows(items, width).len() implies #[trigger] rows(
                mapped,
                width,
            )[i] == rows(items, width)[i].map_values(f) by {
                lemma_row_bounds(items.len(), w as nat, i);
                assert(rows(mapped, width)[i] =~= rows(items, width)[i].map_values(f));
            }
        },
    }
}

/// The first `k` rows, put end to end, are the items that come before row `k`.
proof fn lemma_rows_prefix<A>(items: Seq<A>, width: u32, k: nat)
    requires
        width > 0,
        k <= rows(items, Some(width)).len(),
    ensures
        rows(items, Some(width)).take(k as int).flatten() == items.take(
            if k * width <= items.len() {
                k * width
            } else {
                items.len() as int
            },
        ),
    decreases k,
{
    let all = rows(items, Some(width));
    let w = width as nat;
    let n = items.len();
    if k == 0 {
        assert(all.take(0) =~= Seq::<Seq<A>>::empty());
        assert(items.take(0) =~= Seq::<A>::empty());
    } else {
        lemma_rows_prefix(items, width, (k - 1) as nat);
        lemma_row_bounds(n, w, k - 1);
        assert(all.take(k as int) =~= all.take(k - 1).push(all[k - 1]));
        all.take(k - 1).lemma_flatten_push(all[k - 1]);
        let end: int = if k * w <= n {
            (k * w) as int
        } else {
            n as int
        };
        assert(all[k - 1] == items.subrange((k - 1) * w, end));
        assert(items.take((k - 1) * w) + items.subrange((k - 1) * w, end) =~= items.take(end));
    }
}

/// Cuts `items` into rows (see [`rows`]).  The rows borrow from `items`.
pub fn split_rows<'a, T>(items: &'a [T], width: Option<u32>) -> (out: Vec<&'a [T]>)
    requires
        width != Some(0u32),
    ensures
        out@.len() == rows(items@, width).len(),
        forall|i: int| 0 <= i < out@.len() ==> (#[trigger] out@[i])@ == rows(items@, width)[i],
{
    let mut out: Vec<&'a [T]> = Vec::new();
    match width {
        None => {
            out.push(items);
        },
        Some(w) => {
            let step: usize = w as usize;
            let len: usize = items.len();
            let mut start: usize = 0;
            proof {
                lemma_row_count(len as nat, step as nat);
            }
            while start < len
                invariant
                    step == w,
                    step > 0,
                    len == items@.len(),
                    start <= len,
                    start < len ==> start == out@.len() * step,
                    start == len ==> out@.len() == row_count(len as nat, step as nat),
                    out@.len() <= row_count(len as nat, step as nat),
                    forall|i: int|
                        0 <= i < out@.len() ==> (#[trigger] out@[i])@ == row(
                            items@,
                            step as nat,
                            i,
                        ),
                decreases len - start,
            {
                let ghost k = out@.len();
                let end: usize = if len - start > step {
                    start + step
                } else {
                    len
                };
                proof {
                    assert((k + 1) * step == k * step + step) by (nonlinear_arith);
                    if end == len {
                        lemma_row_count_at(len as nat, step as nat, k);
                    } else {
                        lemma_row_count(len as nat, step as nat);
                        let count = row_count(len as nat, step as nat);
                        assert(k + 1 < count) by (nonlinear_arith)
                            requires
                                (k + 1) * step < len,
                                len <= count * step,
                                step > 0,
                        ;
                    }
                }
                out.push(slice_subrange(items, start, end));
                start = end;
            }
        },
    }
    out
}

} // verus!
