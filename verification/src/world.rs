//! Level geometry: the greedy wall mesher.
//!
//! A level hands the game a grid of wall cells. The mesher merges them
//! into axis-aligned rectangles in two sweeps: each row is first cut into
//! plates (maximal horizontal runs of occupied cells), then plates with
//! identical column bounds on consecutive rows are stacked into
//! rectangles. The result covers every occupied cell exactly once, and
//! every rectangle is maximal: it cannot be grown in any direction while
//! keeping its column bounds.
use vstd::prelude::*;

verus! {

/// A maximal horizontal run of occupied cells within one row; column
/// bounds are inclusive.
#[derive(Clone, Copy, PartialEq, Eq, Structural, Debug)]
pub struct Plate {
    pub left: usize,
    pub right: usize,
}

/// A rectangle of occupied cells; all bounds are inclusive grid
/// coordinates.
#[derive(Clone, Copy, PartialEq, Eq, Structural, Debug)]
pub struct Rect {
    pub left: usize,
    pub right: usize,
    pub bottom: usize,
    pub top: usize,
}

/// The cells `[l, r]` are a maximal run of occupied cells in `row`.
pub open spec fn is_run(row: Seq<bool>, l: int, r: int) -> bool {
    &&& 0 <= l <= r < row.len()
    &&& forall|x: int| l <= x <= r ==> row[x]
    &&& (l == 0 || !row[l - 1])
    &&& (r == row.len() - 1 || !row[r + 1])
}

/// The plate `p` is a maximal run of `row`.
pub open spec fn is_run_p(row: Seq<bool>, p: Plate) -> bool {
    is_run(row, p.left as int, p.right as int)
}

/// Number of occupied cells in one row.
pub open spec fn count_row(row: Seq<bool>) -> int
    decreases row.len(),
{
    if row.len() == 0 {
        0
    } else {
        count_row(row.drop_last()) + if row.last() { 1int } else { 0int }
    }
}

/// Total column width of a sequence of plates.
pub open spec fn width_sum(ps: Seq<Plate>) -> int
    decreases ps.len(),
{
    if ps.len() == 0 {
        0
    } else {
        width_sum(ps.drop_last()) + (ps.last().right - ps.last().left + 1)
    }
}

/// Cell area of one rectangle.
pub open spec fn rect_area(r: Rect) -> int {
    (r.right - r.left + 1) * (r.top - r.bottom + 1)
}

/// Total cell area of a sequence of rectangles.
pub open spec fn area_sum(rs: Seq<Rect>) -> int
    decreases rs.len(),
{
    if rs.len() == 0 {
        0
    } else {
        area_sum(rs.drop_last()) + rect_area(rs.last())
    }
}

/// The plate `p` occurs in the plate list `ps`.
pub open spec fn in_row(ps: Seq<Plate>, p: Plate) -> bool {
    exists|i: int| 0 <= i < ps.len() && ps[i] == p
}

proof fn lemma_count_row_take_succ(row: Seq<bool>, n: int)
    requires
        0 <= n < row.len(),
    ensures
        count_row(row.take(n + 1)) == count_row(row.take(n)) + if row[n] { 1int } else { 0int },
{
    assert(row.take(n + 1).drop_last() =~= row.take(n));
    assert(row.take(n + 1).last() == row[n]);
}

proof fn lemma_width_sum_push(ps: Seq<Plate>, p: Plate)
    ensures
        width_sum(ps.push(p)) == width_sum(ps) + (p.right - p.left + 1),
{
    assert(ps.push(p).drop_last() =~= ps);
}

proof fn lemma_width_sum_take_succ(ps: Seq<Plate>, n: int)
    requires
        0 <= n < ps.len(),
    ensures
        width_sum(ps.take(n + 1)) == width_sum(ps.take(n)) + (ps[n].right - ps[n].left + 1),
{
    assert(ps.take(n + 1).drop_last() =~= ps.take(n));
}

proof fn lemma_area_sum_push(rs: Seq<Rect>, r: Rect)
    ensures
        area_sum(rs.push(r)) == area_sum(rs) + rect_area(r),
{
    assert(rs.push(r).drop_last() =~= rs);
}

proof fn lemma_area_sum_take_succ(rs: Seq<Rect>, n: int)
    requires
        0 <= n < rs.len(),
    ensures
        area_sum(rs.take(n + 1)) == area_sum(rs.take(n)) + rect_area(rs[n]),
{
    assert(rs.take(n + 1).drop_last() =~= rs.take(n));
}

/// Two maximal runs of one row that share a column are the same run.
pub proof fn lemma_run_unique(row: Seq<bool>, l1: int, r1: int, l2: int, r2: int, x: int)
    requires
        is_run(row, l1, r1),
        is_run(row, l2, r2),
        l1 <= x <= r1,
        l2 <= x <= r2,
    ensures
        l1 == l2,
        r1 == r2,
{
    if l1 < l2 {
        assert(row[l2 - 1]);
    }
    if l2 < l1 {
        assert(row[l1 - 1]);
    }
    if r1 < r2 {
        assert(row[r1 + 1]);
    }
    if r2 < r1 {
        assert(row[r2 + 1]);
    }
}

/// The column bounds of a rectangle, as a plate.
pub open spec fn rect_plate(r: Rect) -> Plate {
    Plate { left: r.left, right: r.right }
}

/// Plate `p` is one of the plates of row `yy`.
pub open spec fn present(rows: Seq<Vec<Plate>>, yy: int, p: Plate) -> bool {
    0 <= yy < rows.len() && in_row(rows[yy]@, p)
}

/// Within every row, plates are ordered left to right with a gap between
/// consecutive plates, and have ordered column bounds.
pub open spec fn rows_sorted(rows: Seq<Vec<Plate>>) -> bool {
    &&& forall|yy: int, ii: int, jj: int|
        0 <= yy < rows.len() && 0 <= ii < jj < rows[yy]@.len()
            ==> (#[trigger] rows[yy]@[ii]).right < (#[trigger] rows[yy]@[jj]).left
    &&& forall|yy: int, ii: int|
        0 <= yy < rows.len() && 0 <= ii < rows[yy]@.len()
            ==> (#[trigger] rows[yy]@[ii]).left <= rows[yy]@[ii].right
}

/// The rectangle's plate occurs in every row it spans, and the rectangle
/// cannot be extended downward.
pub open spec fn merged_rect(rows: Seq<Vec<Plate>>, r: Rect) -> bool {
    &&& r.left <= r.right
    &&& r.bottom <= r.top < rows.len()
    &&& forall|yy: int| r.bottom <= yy <= r.top ==> present(rows, yy, rect_plate(r))
    &&& (r.bottom == 0 || !present(rows, r.bottom - 1, rect_plate(r)))
}

/// A maximal rectangle: its plate spans exactly the rows it covers.
pub open spec fn finished_rect(rows: Seq<Vec<Plate>>, r: Rect) -> bool {
    merged_rect(rows, r) && !present(rows, r.top + 1, rect_plate(r))
}

/// Two rectangles share no cell.
pub open spec fn rects_disjoint(a: Rect, b: Rect) -> bool {
    a.right < b.left || b.right < a.left || a.top < b.bottom || b.top < a.bottom
}

/// Total width of all plates over all rows.
pub open spec fn total_width(rows: Seq<Vec<Plate>>) -> int
    decreases rows.len(),
{
    if rows.len() == 0 {
        0
    } else {
        total_width(rows.drop_last()) + width_sum(rows.last()@)
    }
}

proof fn lemma_total_width_take_succ(rows: Seq<Vec<Plate>>, n: int)
    requires
        0 <= n < rows.len(),
    ensures
        total_width(rows.take(n + 1)) == total_width(rows.take(n)) + width_sum(rows[n]@),
{
    assert(rows.take(n + 1).drop_last() =~= rows.take(n));
}

/// Two distinct plates of one row occupy disjoint column ranges.
proof fn lemma_distinct_plates(rows: Seq<Vec<Plate>>, yy: int, p1: Plate, p2: Plate)
    requires
        rows_sorted(rows),
        present(rows, yy, p1),
        present(rows, yy, p2),
        p1 != p2,
    ensures
        p1.right < p2.left || p2.right < p1.left,
{
    let i = choose|i: int| 0 <= i < rows[yy]@.len() && rows[yy]@[i] == p1;
    let j = choose|j: int| 0 <= j < rows[yy]@.len() && rows[yy]@[j] == p2;
    assert(i != j);
}

/// Two maximal rectangles are equal or share no cell.
pub proof fn lemma_finished_rects(rows: Seq<Vec<Plate>>, a: Rect, b: Rect)
    requires
        rows_sorted(rows),
        finished_rect(rows, a),
        finished_rect(rows, b),
    ensures
        a == b || rects_disjoint(a, b),
{
    if !(a.top < b.bottom || b.top < a.bottom) {
        let yy: int = if a.bottom > b.bottom { a.bottom as int } else { b.bottom as int };
        assert(present(rows, yy, rect_plate(a)));
        assert(present(rows, yy, rect_plate(b)));
        if rect_plate(a) != rect_plate(b) {
            lemma_distinct_plates(rows, yy, rect_plate(a), rect_plate(b));
        } else {
            if a.top < b.top {
                assert(present(rows, a.top + 1, rect_plate(b)));
                assert(false);
            }
            if b.top < a.top {
                assert(present(rows, b.top + 1, rect_plate(a)));
                assert(false);
            }
            if a.bottom < b.bottom {
                assert(present(rows, b.bottom - 1, rect_plate(a)));
                assert(false);
            }
            if b.bottom < a.bottom {
                assert(present(rows, a.bottom - 1, rect_plate(b)));
                assert(false);
            }
            assert(a == b);
        }
    }
}

/// Split one row into its maximal runs, scanning left to right and
/// closing a run at each occupied-to-free transition.
pub fn row_plates(row: &Vec<bool>) -> (plates: Vec<Plate>)
    ensures
        forall|i: int| 0 <= i < plates@.len() ==> is_run_p(row@, #[trigger] plates@[i]),
        forall|i: int, j: int| 0 <= i < j < plates@.len()
            ==> (#[trigger] plates@[i]).right < (#[trigger] plates@[j]).left,
        forall|l: int, r: int| is_run(row@, l, r)
            ==> exists|i: int| 0 <= i < plates@.len()
                && (#[trigger] plates@[i]).left == l && plates@[i].right == r,
        forall|c: int| 0 <= c < row@.len() && row@[c]
            ==> exists|i: int| 0 <= i < plates@.len()
                && (#[trigger] plates@[i]).left <= c <= plates@[i].right,
        width_sum(plates@) == count_row(row@),
{
    let len = row.len();
    let mut plates: Vec<Plate> = Vec::new();
    let mut open: Option<usize> = None;
    let mut x: usize = 0;
    while x < len
        invariant
            x <= len,
            len == row@.len(),
            open is Some ==> open->0 < x,
            open is Some ==> (open->0 == 0 || !row@[open->0 - 1]),
            open is Some ==> forall|c: int| open->0 <= c < x ==> row@[c],
            (open is None && x > 0) ==> !row@[x - 1],
            forall|i: int| 0 <= i < plates@.len() ==> is_run_p(row@, #[trigger] plates@[i]),
            forall|i: int| 0 <= i < plates@.len() ==> (#[trigger] plates@[i]).right + 1 < x,
            forall|i: int, j: int| 0 <= i < j < plates@.len()
                ==> (#[trigger] plates@[i]).right < (#[trigger] plates@[j]).left,
            open is Some ==> forall|i: int| 0 <= i < plates@.len()
                ==> (#[trigger] plates@[i]).right < open->0,
            forall|l: int, r: int| is_run(row@, l, r) && r + 1 < x
                ==> exists|i: int| 0 <= i < plates@.len()
                    && (#[trigger] plates@[i]).left == l && plates@[i].right == r,
            forall|c: int| 0 <= c < x && row@[c]
                ==> (exists|i: int| 0 <= i < plates@.len()
                        && (#[trigger] plates@[i]).left <= c <= plates@[i].right)
                    || (open is Some && open->0 <= c),
            width_sum(plates@) + (if open is Some { x - open->0 } else { 0int })
                == count_row(row@.take(x as int)),
        decreases len - x,
    {
        proof {
            lemma_count_row_take_succ(row@, x as int);
        }
        let occupied = row[x];
        match open {
            None => {
                if occupied {
                    open = Some(x);
                }
                proof {
                    assert forall|l: int, r: int| is_run(row@, l, r) && r + 1 < x + 1 implies
                        exists|i: int| 0 <= i < plates@.len() && (#[trigger] plates@[i]).left == l
                            && plates@[i].right == r by {
                        if r + 1 == x {
                            assert(row@[r]);
                        }
                    }
                }
            },
            Some(s) => {
                if !occupied {
                    let p = Plate { left: s, right: x - 1 };
                    proof {
                        lemma_width_sum_push(plates@, p);
                        assert(is_run_p(row@, p));
                        let ps1 = plates@.push(p);
                        assert(ps1.last() == p);
                        assert forall|l: int, r: int| is_run(row@, l, r) && r + 1 < x + 1 implies
                            exists|i: int| 0 <= i < ps1.len() && (#[trigger] ps1[i]).left == l
                                && ps1[i].right == r by {
                            if r + 1 == x {
                                lemma_run_unique(row@, l, r, s as int, x - 1, x - 1);
                                assert(ps1[ps1.len() - 1].left == l && ps1[ps1.len() - 1].right
                                    == r);
                            } else {
                                let i = choose|i: int| 0 <= i < plates@.len()
                                    && (#[trigger] plates@[i]).left == l && plates@[i].right == r;
                                assert(ps1[i].left == l && ps1[i].right == r);
                            }
                        }
                        assert forall|c: int| 0 <= c < x + 1 && row@[c] implies
                            exists|i: int| 0 <= i < ps1.len()
                                && (#[trigger] ps1[i]).left <= c <= ps1[i].right by {
                            if c == x {
                                assert(false);
                            } else if s <= c {
                                assert(ps1[ps1.len() - 1].left <= c <= ps1[ps1.len() - 1].right);
                            } else {
                                let i = choose|i: int| 0 <= i < plates@.len()
                                    && (#[trigger] plates@[i]).left <= c <= plates@[i].right;
                                assert(ps1[i].left <= c <= ps1[i].right);
                            }
                        }
                    }
                    plates.push(p);
                    open = None;
                } else {
                    proof {
                        assert forall|l: int, r: int| is_run(row@, l, r) && r + 1 < x + 1 implies
                            exists|i: int| 0 <= i < plates@.len()
                                && (#[trigger] plates@[i]).left == l && plates@[i].right == r by {
                            if r + 1 == x {
                                assert(!row@[r + 1]);
                            }
                        }
                    }
                }
            },
        }
        x += 1;
    }
    proof {
        assert(row@.take(len as int) =~= row@);
    }
    if let Some(s) = open {
        let p = Plate { left: s, right: len - 1 };
        proof {
            lemma_width_sum_push(plates@, p);
            assert(is_run_p(row@, p));
            let ps1 = plates@.push(p);
            assert(ps1.last() == p);
            assert forall|l: int, r: int| is_run(row@, l, r) implies
                exists|i: int| 0 <= i < ps1.len() && (#[trigger] ps1[i]).left == l
                    && ps1[i].right == r by {
                if r + 1 == len {
                    lemma_run_unique(row@, l, r, s as int, len - 1, len - 1);
                    assert(ps1[ps1.len() - 1].left == l && ps1[ps1.len() - 1].right == r);
                } else {
                    let i = choose|i: int| 0 <= i < plates@.len()
                        && (#[trigger] plates@[i]).left == l && plates@[i].right == r;
                    assert(ps1[i].left == l && ps1[i].right == r);
                }
            }
            assert forall|c: int| 0 <= c < len && row@[c] implies
                exists|i: int| 0 <= i < ps1.len()
                    && (#[trigger] ps1[i]).left <= c <= ps1[i].right by {
                if s <= c {
                    assert(ps1[ps1.len() - 1].left <= c <= ps1[ps1.len() - 1].right);
                } else {
                    let i = choose|i: int| 0 <= i < plates@.len()
                        && (#[trigger] plates@[i]).left <= c <= plates@[i].right;
                    assert(ps1[i].left <= c <= ps1[i].right);
                }
            }
        }
        plates.push(p);
    } else {
        proof {
            assert forall|l: int, r: int| is_run(row@, l, r) implies
                exists|i: int| 0 <= i < plates@.len() && (#[trigger] plates@[i]).left == l
                    && plates@[i].right == r by {
                if r + 1 == len {
                    assert(row@[r]);
                }
            }
        }
    }
    plates
}

/// Plate occurrence `(yy, ii)` lies inside some rectangle of `rs` that
/// has exactly its column bounds.
pub open spec fn plate_covered(rows: Seq<Vec<Plate>>, rs: Seq<Rect>, yy: int, ii: int) -> bool {
    exists|k: int| 0 <= k < rs.len() && rect_plate(#[trigger] rs[k]) == rows[yy]@[ii]
        && rs[k].bottom <= yy <= rs[k].top
}

proof fn lemma_cover_after_drain(
    rows: Seq<Vec<Plate>>,
    out1: Seq<Rect>,
    act: Seq<Rect>,
    out: Seq<Rect>,
)
    requires
        out.len() == out1.len() + act.len(),
        forall|k: int| 0 <= k < out1.len() ==> out[k] == out1[k],
        forall|jj: int| 0 <= jj < act.len() ==> out[out1.len() + jj] == act[jj],
        forall|yy: int, ii: int| 0 <= yy < rows.len() && 0 <= ii < rows[yy]@.len()
            ==> #[trigger] plate_covered(rows, out1, yy, ii)
                || plate_covered(rows, act, yy, ii),
    ensures
        forall|yy: int, ii: int| 0 <= yy < rows.len() && 0 <= ii < rows[yy]@.len()
            ==> #[trigger] plate_covered(rows, out, yy, ii),
{
    assert forall|yy: int, ii: int| 0 <= yy < rows.len() && 0 <= ii
        < rows[yy]@.len() implies #[trigger] plate_covered(rows, out, yy, ii) by {
        let p = rows[yy]@[ii];
        if plate_covered(rows, out1, yy, ii) {
            let k = choose|k: int| 0 <= k < out1.len() && rect_plate(#[trigger] out1[k]) == p
                && out1[k].bottom <= yy <= out1[k].top;
            assert(rect_plate(out[k]) == p && out[k].bottom <= yy <= out[k].top);
        } else {
            let jj = choose|jj: int| 0 <= jj < act.len() && rect_plate(#[trigger] act[jj]) == p
                && act[jj].bottom <= yy <= act[jj].top;
            assert(rect_plate(out[out1.len() + jj]) == p
                && out[out1.len() + jj].bottom <= yy <= out[out1.len() + jj].top);
        }
    }
}

/// The rectangle `a` was carried into the next sweep state: it was
/// either emitted (appended to `out` past `lo`) or extended by one row
/// into `new_act`, keeping its plate and bottom row.
pub open spec fn rect_absorbed(a: Rect, lo: int, out: Seq<Rect>, new_act: Seq<Rect>) -> bool {
    (exists|k: int| lo <= k < out.len() && (#[trigger] out[k]) == a)
        || (exists|ii: int| 0 <= ii < new_act.len()
            && rect_plate(#[trigger] new_act[ii]) == rect_plate(a)
            && new_act[ii].bottom == a.bottom)
}

proof fn lemma_absorbed_push_out(a: Rect, lo: int, out: Seq<Rect>, r: Rect, na: Seq<Rect>)
    requires
        0 <= lo,
        rect_absorbed(a, lo, out, na),
    ensures
        rect_absorbed(a, lo, out.push(r), na),
{
    if exists|k: int| lo <= k < out.len() && (#[trigger] out[k]) == a {
        let k = choose|k: int| lo <= k < out.len() && (#[trigger] out[k]) == a;
        assert(out.push(r)[k] == a);
    }
}

proof fn lemma_absorbed_push_act(a: Rect, lo: int, out: Seq<Rect>, na: Seq<Rect>, r: Rect)
    requires
        0 <= lo,
        rect_absorbed(a, lo, out, na),
    ensures
        rect_absorbed(a, lo, out, na.push(r)),
{
    if !(exists|k: int| lo <= k < out.len() && (#[trigger] out[k]) == a) {
        let ii = choose|ii: int| 0 <= ii < na.len()
            && rect_plate(#[trigger] na[ii]) == rect_plate(a) && na[ii].bottom == a.bottom;
        assert(rect_plate(na.push(r)[ii]) == rect_plate(a) && na.push(r)[ii].bottom == a.bottom);
    }
}

/// Fold the plates of row `y` into the active rectangles: a rectangle
/// whose plate recurs in this row grows one row taller, one whose plate
/// vanished is maximal and is emitted, and a plate without a rectangle
/// under it opens a new one. Both plate lists are ordered, so a single
/// left-to-right pass matches them up.
#[verifier::loop_isolation(false)]
#[verifier::rlimit(100)]
fn merge_row(rows: &Vec<Vec<Plate>>, y: usize, act: &Vec<Rect>, out: &mut Vec<Rect>) -> (new_act:
    Vec<Rect>)
    requires
        rows_sorted(rows@),
        y < rows@.len(),
        act@.len() == if y == 0 { 0int } else { rows@[y - 1]@.len() as int },
        forall|jj: int| 0 <= jj < act@.len()
            ==> rect_plate(#[trigger] act@[jj]) == rows@[y - 1]@[jj],
        forall|jj: int| 0 <= jj < act@.len()
            ==> merged_rect(rows@, #[trigger] act@[jj]) && act@[jj].top == y - 1,
        forall|k: int| 0 <= k < old(out)@.len()
            ==> finished_rect(rows@, #[trigger] old(out)@[k]) && old(out)@[k].top + 2 <= y,
        forall|k1: int, k2: int| 0 <= k1 < k2 < old(out)@.len()
            ==> rects_disjoint(#[trigger] old(out)@[k1], #[trigger] old(out)@[k2]),
    ensures
        new_act@.len() == rows@[y as int]@.len(),
        forall|ii: int| 0 <= ii < new_act@.len()
            ==> rect_plate(#[trigger] new_act@[ii]) == rows@[y as int]@[ii],
        forall|ii: int| 0 <= ii < new_act@.len()
            ==> merged_rect(rows@, #[trigger] new_act@[ii]) && new_act@[ii].top == y,
        old(out)@.len() <= final(out)@.len(),
        forall|k: int| 0 <= k < old(out)@.len() ==> final(out)@[k] == old(out)@[k],
        forall|k: int| 0 <= k < final(out)@.len()
            ==> finished_rect(rows@, #[trigger] final(out)@[k]) && final(out)@[k].top + 1 <= y,
        forall|k1: int, k2: int| 0 <= k1 < k2 < final(out)@.len()
            ==> rects_disjoint(#[trigger] final(out)@[k1], #[trigger] final(out)@[k2]),
        forall|jj: int| 0 <= jj < act@.len()
            ==> rect_absorbed(#[trigger] act@[jj], old(out)@.len() as int, final(out)@, new_act@),
        area_sum(final(out)@) + area_sum(new_act@)
            == area_sum(old(out)@) + area_sum(act@) + width_sum(rows@[y as int]@),
{
    let ghost out0 = out@;
    let cur: &Vec<Plate> = &rows[y];
    let mut new_act: Vec<Rect> = Vec::new();
    let mut i: usize = 0;
    let mut j: usize = 0;
    while i < cur.len() || j < act.len()
        invariant
            i <= cur@.len(),
            j <= act@.len(),
            cur@ == rows@[y as int]@,
            // two-pointer ordering: everything processed sits strictly left
            // of everything not yet processed on the other side
            forall|ii: int, jj: int| 0 <= ii < i && j <= jj < act@.len()
                ==> (#[trigger] cur@[ii]).left < (#[trigger] act@[jj]).left,
            forall|jj: int, ii: int| 0 <= jj < j && i <= ii < cur@.len()
                ==> (#[trigger] act@[jj]).left < (#[trigger] cur@[ii]).left,
            // rectangles under construction, aligned with the current row
            new_act@.len() == i as int,
            forall|ii: int| 0 <= ii < i ==> rect_plate(#[trigger] new_act@[ii]) == cur@[ii],
            forall|ii: int| 0 <= ii < i
                ==> merged_rect(rows@, #[trigger] new_act@[ii]) && new_act@[ii].top == y,
            // emitted rectangles
            out0.len() <= out@.len(),
            forall|k: int| 0 <= k < out0.len() ==> out@[k] == out0[k],
            forall|k: int| 0 <= k < out@.len()
                ==> finished_rect(rows@, #[trigger] out@[k]) && out@[k].top + 1 <= y,
            forall|k: int| 0 <= k < out@.len() && (#[trigger] out@[k]).top + 1 == y
                ==> exists|jj: int| 0 <= jj < j && (#[trigger] act@[jj]) == out@[k],
            forall|k1: int, k2: int| 0 <= k1 < k2 < out@.len()
                ==> rects_disjoint(#[trigger] out@[k1], #[trigger] out@[k2]),
            // every processed active rectangle went somewhere
            forall|jj: int| 0 <= jj < j
                ==> rect_absorbed(#[trigger] act@[jj], out0.len() as int, out@, new_act@),
            area_sum(out@) + area_sum(new_act@)
                == area_sum(out0) + area_sum(act@.take(j as int))
                    + width_sum(cur@.take(i as int)),
        decreases cur@.len() - i + act@.len() - j,
    {
        if j >= act.len() || (i < cur.len() && cur[i].left < act[j].left) {
            // a plate with no rectangle under it starts a new one
            let p = cur[i];
            let r = Rect { left: p.left, right: p.right, bottom: y, top: y };
            proof {
                lemma_width_sum_take_succ(cur@, i as int);
                lemma_area_sum_push(new_act@, r);
                vstd::arithmetic::mul::lemma_mul_basics(p.right - p.left + 1);
                assert(rect_area(r) == p.right - p.left + 1);
                assert(present(rows@, y as int, rect_plate(r)));
                if y > 0 {
                    assert(!present(rows@, y - 1, rect_plate(r))) by {
                        if present(rows@, y - 1, rect_plate(r)) {
                            let jj = choose|jj: int| 0 <= jj < rows@[y - 1]@.len()
                                && (#[trigger] rows@[y - 1]@[jj]) == rect_plate(r);
                            assert(rect_plate(act@[jj]) == rect_plate(r));
                            if jj < j {
                                assert(act@[jj].left < cur@[i as int].left);
                            } else {
                                assert(cur@[i as int].left < act@[jj].left);
                            }
                        }
                    }
                }
                assert(merged_rect(rows@, r));
                assert forall|jj: int| 0 <= jj < j implies rect_absorbed(
                    #[trigger] act@[jj],
                    out0.len() as int,
                    out@,
                    new_act@.push(r),
                ) by {
                    lemma_absorbed_push_act(act@[jj], out0.len() as int, out@, new_act@, r);
                }
            }
            new_act.push(r);
            i += 1;
        } else if i >= cur.len() || act[j].left < cur[i].left {
            // the rectangle's plate vanished: it is maximal, emit it
            let a = act[j];
            proof {
                lemma_area_sum_take_succ(act@, j as int);
                lemma_area_sum_push(out@, a);
                assert(!present(rows@, y as int, rect_plate(a))) by {
                    if present(rows@, y as int, rect_plate(a)) {
                        let ii = choose|ii: int| 0 <= ii < cur@.len()
                            && (#[trigger] cur@[ii]) == rect_plate(a);
                        if ii < i {
                            assert(cur@[ii].left < act@[j as int].left);
                        } else {
                            assert(act@[j as int].left < cur@[ii].left);
                        }
                    }
                }
                assert(finished_rect(rows@, a));
                assert forall|k: int| 0 <= k < out@.len() implies rects_disjoint(
                    #[trigger] out@[k],
                    a,
                ) by {
                    lemma_finished_rects(rows@, out@[k], a);
                    if out@[k] == a {
                        assert(out@[k].top + 1 == y);
                        let jj = choose|jj: int| 0 <= jj < j && (#[trigger] act@[jj]) == out@[k];
                        assert(rect_plate(act@[jj]) == rows@[y - 1]@[jj]);
                        assert(rect_plate(act@[j as int]) == rows@[y - 1]@[j as int]);
                        assert(act@[jj].left < act@[j as int].left);
                        assert(false);
                    }
                }
                assert forall|jj: int| 0 <= jj < j implies rect_absorbed(
                    #[trigger] act@[jj],
                    out0.len() as int,
                    out@.push(a),
                    new_act@,
                ) by {
                    lemma_absorbed_push_out(act@[jj], out0.len() as int, out@, a, new_act@);
                }
                assert(out@.push(a)[out@.len() as int] == a);
            }
            out.push(a);
            j += 1;
        } else {
            let p = cur[i];
            let a = act[j];
            if p.right == a.right {
                // same plate: the rectangle grows one row taller
                let r = Rect { left: a.left, right: a.right, bottom: a.bottom, top: y };
                proof {
                    lemma_width_sum_take_succ(cur@, i as int);
                    lemma_area_sum_take_succ(act@, j as int);
                    lemma_area_sum_push(new_act@, r);
                    assert(rect_plate(r) == rect_plate(a));
                    assert(rect_plate(a) == cur@[i as int]);
                    assert(present(rows@, y as int, rect_plate(r)));
                    assert(merged_rect(rows@, r));
                    assert(rect_area(r) == rect_area(a) + (a.right - a.left + 1)) by {
                        vstd::arithmetic::mul::lemma_mul_is_distributive_add(
                            a.right - a.left + 1,
                            y - a.bottom,
                            1,
                        );
                        vstd::arithmetic::mul::lemma_mul_basics(a.right - a.left + 1);
                    }
                    assert forall|jj: int| 0 <= jj < j implies rect_absorbed(
                        #[trigger] act@[jj],
                        out0.len() as int,
                        out@,
                        new_act@.push(r),
                    ) by {
                        lemma_absorbed_push_act(act@[jj], out0.len() as int, out@, new_act@, r);
                    }
                    assert(rect_plate(new_act@.push(r)[i as int]) == rect_plate(act@[j as int])
                        && new_act@.push(r)[i as int].bottom == act@[j as int].bottom);
                }
                new_act.push(r);
                i += 1;
                j += 1;
            } else {
                // same left bound, different width: no match either way
                let r = Rect { left: p.left, right: p.right, bottom: y, top: y };
                proof {
                    lemma_width_sum_take_succ(cur@, i as int);
                    lemma_area_sum_take_succ(act@, j as int);
                    lemma_area_sum_push(out@, a);
                    assert(!present(rows@, y as int, rect_plate(a))) by {
                        if present(rows@, y as int, rect_plate(a)) {
                            let ii = choose|ii: int| 0 <= ii < cur@.len()
                                && (#[trigger] cur@[ii]) == rect_plate(a);
                            if ii < i {
                                assert(cur@[ii].left < act@[j as int].left);
                            } else if ii > i {
                                assert(cur@[i as int].right < cur@[ii].left);
                            }
                        }
                    }
                    assert(finished_rect(rows@, a));
                    assert forall|k: int| 0 <= k < out@.len() implies rects_disjoint(
                        #[trigger] out@[k],
                        a,
                    ) by {
                        lemma_finished_rects(rows@, out@[k], a);
                        if out@[k] == a {
                            assert(out@[k].top + 1 == y);
                            let jj = choose|jj: int| 0 <= jj < j && (#[trigger] act@[jj])
                                == out@[k];
                            assert(rect_plate(act@[jj]) == rows@[y - 1]@[jj]);
                            assert(rect_plate(act@[j as int]) == rows@[y - 1]@[j as int]);
                            assert(act@[jj].left < act@[j as int].left);
                            assert(false);
                        }
                    }
                    assert(present(rows@, y as int, rect_plate(r)));
                    assert(!present(rows@, y - 1, rect_plate(r))) by {
                        if y > 0 && present(rows@, y - 1, rect_plate(r)) {
                            let jj = choose|jj: int| 0 <= jj < rows@[y - 1]@.len()
                                && (#[trigger] rows@[y - 1]@[jj]) == rect_plate(r);
                            assert(rect_plate(act@[jj]) == rect_plate(r));
                            if jj < j {
                                assert(act@[jj].left < cur@[i as int].left);
                            } else if jj > j {
                                assert(act@[j as int].right < act@[jj].left);
                            }
                        }
                    }
                    assert(merged_rect(rows@, r));
                    vstd::arithmetic::mul::lemma_mul_basics(p.right - p.left + 1);
                    assert(rect_area(r) == p.right - p.left + 1);
                    assert forall|jj: int| 0 <= jj < j implies rect_absorbed(
                        #[trigger] act@[jj],
                        out0.len() as int,
                        out@.push(a),
                        new_act@.push(r),
                    ) by {
                        lemma_absorbed_push_out(act@[jj], out0.len() as int, out@, a, new_act@);
                        lemma_absorbed_push_act(
                            act@[jj],
                            out0.len() as int,
                            out@.push(a),
                            new_act@,
                            r,
                        );
                    }
                    assert(out@.push(a)[out@.len() as int] == a);
                }
                out.push(a);
                proof {
                    lemma_area_sum_push(new_act@, r);
                }
                new_act.push(r);
                i += 1;
                j += 1;
            }
        }
    }
    proof {
        assert(act@.take(act@.len() as int) =~= act@);
        assert(cur@.take(cur@.len() as int) =~= cur@);
    }
    new_act
}

/// Stack plates with identical column bounds on consecutive rows into
/// maximal rectangles, sweeping the rows bottom to top. An implicit
/// empty row above the grid finishes the rectangles still open there.
#[verifier::loop_isolation(false)]
#[verifier::rlimit(100)]
pub fn merge_plates(rows: &Vec<Vec<Plate>>) -> (out: Vec<Rect>)
    requires
        rows_sorted(rows@),
    ensures
        forall|k: int| 0 <= k < out@.len() ==> finished_rect(rows@, #[trigger] out@[k]),
        forall|k1: int, k2: int| 0 <= k1 < k2 < out@.len()
            ==> rects_disjoint(#[trigger] out@[k1], #[trigger] out@[k2]),
        forall|yy: int, ii: int| 0 <= yy < rows@.len() && 0 <= ii < rows@[yy]@.len()
            ==> #[trigger] plate_covered(rows@, out@, yy, ii),
        area_sum(out@) == total_width(rows@),
{
    let height = rows.len();
    let mut out: Vec<Rect> = Vec::new();
    let mut act: Vec<Rect> = Vec::new();
    let mut y: usize = 0;
    while y < height
        invariant
            y <= height,
            act@.len() == if y == 0 { 0int } else { rows@[y - 1]@.len() as int },
            forall|jj: int| 0 <= jj < act@.len()
                ==> rect_plate(#[trigger] act@[jj]) == rows@[y - 1]@[jj],
            forall|jj: int| 0 <= jj < act@.len()
                ==> merged_rect(rows@, #[trigger] act@[jj]) && act@[jj].top == y - 1,
            forall|k: int| 0 <= k < out@.len()
                ==> finished_rect(rows@, #[trigger] out@[k]) && out@[k].top + 2 <= y,
            forall|k1: int, k2: int| 0 <= k1 < k2 < out@.len()
                ==> rects_disjoint(#[trigger] out@[k1], #[trigger] out@[k2]),
            forall|yy: int, ii: int| 0 <= yy < y && 0 <= ii < rows@[yy]@.len()
                ==> #[trigger] plate_covered(rows@, out@, yy, ii)
                    || plate_covered(rows@, act@, yy, ii),
            area_sum(out@) + area_sum(act@) == total_width(rows@.take(y as int)),
        decreases height - y,
    {
        let ghost out0 = out@;
        let ghost act0 = act@;
        let new_act = merge_row(rows, y, &act, &mut out);
        proof {
            lemma_total_width_take_succ(rows@, y as int);
            assert forall|yy: int, ii: int| 0 <= yy < y + 1 && 0 <= ii
                < rows@[yy]@.len() implies #[trigger] plate_covered(rows@, out@, yy, ii)
                || plate_covered(rows@, new_act@, yy, ii) by {
                let p = rows@[yy]@[ii];
                if yy == y {
                    assert(rect_plate(new_act@[ii]) == p
                        && new_act@[ii].bottom <= yy <= new_act@[ii].top);
                } else if plate_covered(rows@, out0, yy, ii) {
                    let k = choose|k: int| 0 <= k < out0.len()
                        && rect_plate(#[trigger] out0[k]) == p
                        && out0[k].bottom <= yy <= out0[k].top;
                    assert(out@[k] == out0[k]);
                    assert(rect_plate(out@[k]) == p && out@[k].bottom <= yy <= out@[k].top);
                } else {
                    let jj = choose|jj: int| 0 <= jj < act0.len()
                        && rect_plate(#[trigger] act0[jj]) == p
                        && act0[jj].bottom <= yy <= act0[jj].top;
                    assert(rect_absorbed(act0[jj], out0.len() as int, out@, new_act@));
                    if exists|k: int| out0.len() <= k < out@.len() && (#[trigger] out@[k])
                        == act0[jj] {
                        let k = choose|k: int| out0.len() <= k < out@.len()
                            && (#[trigger] out@[k]) == act0[jj];
                        assert(rect_plate(out@[k]) == p
                            && out@[k].bottom <= yy <= out@[k].top);
                    } else {
                        let ii2 = choose|ii2: int| 0 <= ii2 < new_act@.len()
                            && rect_plate(#[trigger] new_act@[ii2]) == rect_plate(act0[jj])
                            && new_act@[ii2].bottom == act0[jj].bottom;
                        assert(new_act@[ii2].top == y);
                        assert(rect_plate(new_act@[ii2]) == p
                            && new_act@[ii2].bottom <= yy <= new_act@[ii2].top);
                    }
                }
            }
        }
        act = new_act;
        y += 1;
    }
    // the implicit empty row above the grid: every rectangle still open
    // is maximal and is emitted
    let ghost out1 = out@;
    let mut j: usize = 0;
    while j < act.len()
        invariant
            j <= act@.len(),
            area_sum(out@) == area_sum(out1) + area_sum(act@.take(j as int)),
            out@.len() == out1.len() + j,
            forall|k: int| 0 <= k < out1.len() ==> out@[k] == out1[k],
            forall|k: int| 0 <= k < out1.len() ==> (#[trigger] out1[k]).top + 2 <= height,
            forall|jj: int| 0 <= jj < j ==> out@[out1.len() + jj] == act@[jj],
            forall|k: int| 0 <= k < out@.len() ==> finished_rect(rows@, #[trigger] out@[k]),
            forall|k1: int, k2: int| 0 <= k1 < k2 < out@.len()
                ==> rects_disjoint(#[trigger] out@[k1], #[trigger] out@[k2]),
        decreases act@.len() - j,
    {
        let a = act[j];
        proof {
            lemma_area_sum_take_succ(act@, j as int);
            assert(!present(rows@, a.top + 1, rect_plate(a)));
            assert(finished_rect(rows@, a));
            assert forall|k: int| 0 <= k < out@.len() implies rects_disjoint(
                #[trigger] out@[k],
                a,
            ) by {
                lemma_finished_rects(rows@, out@[k], a);
                if out@[k] == a {
                    assert(act@[j as int].top + 1 == height);
                    if k < out1.len() {
                        assert(out@[k] == out1[k]);
                        assert(out1[k].top + 2 <= height);
                        assert(false);
                    } else {
                        let jj = k - out1.len();
                        assert(out@[k] == act@[jj]);
                        assert(rect_plate(act@[jj]) == rows@[height - 1]@[jj]);
                        assert(rect_plate(act@[j as int]) == rows@[height - 1]@[j as int]);
                        assert(act@[jj].left < act@[j as int].left);
                        assert(false);
                    }
                }
            }
            lemma_area_sum_push(out@, a);
        }
        out.push(a);
        j += 1;
    }
    proof {
        assert(act@.take(act@.len() as int) =~= act@);
        assert(rows@.take(rows@.len() as int) =~= rows@);
        lemma_cover_after_drain(rows@, out1, act@, out@);
    }
    out
}


/// Cell `(x, y)` of the grid is occupied.
pub open spec fn cell(grid: Seq<Vec<bool>>, x: int, y: int) -> bool {
    0 <= y < grid.len() && 0 <= x < grid[y]@.len() && grid[y]@[x]
}

/// The rectangle contains cell `(x, y)`.
pub open spec fn rect_contains(r: Rect, x: int, y: int) -> bool {
    r.left <= x <= r.right && r.bottom <= y <= r.top
}

/// Number of occupied cells in the whole grid.
pub open spec fn grid_count(grid: Seq<Vec<bool>>) -> int
    decreases grid.len(),
{
    if grid.len() == 0 {
        0
    } else {
        grid_count(grid.drop_last()) + count_row(grid.last()@)
    }
}

/// A maximal rectangle of the grid: each row it spans holds its column
/// bounds as a maximal run, and it can be grown neither up nor down.
pub open spec fn maximal_rect(grid: Seq<Vec<bool>>, r: Rect) -> bool {
    &&& r.bottom <= r.top < grid.len()
    &&& forall|yy: int| r.bottom <= yy <= r.top ==> is_run(grid[yy]@, r.left as int, r.right as int)
    &&& (r.top + 1 >= grid.len() || !is_run(grid[r.top + 1]@, r.left as int, r.right as int))
    &&& (r.bottom == 0 || !is_run(grid[r.bottom - 1]@, r.left as int, r.right as int))
}

/// The per-row plate lists that `row_plates` computes for this grid.
pub open spec fn plates_of_grid(grid: Seq<Vec<bool>>, rows: Seq<Vec<Plate>>) -> bool {
    &&& rows.len() == grid.len()
    &&& forall|yy: int, i: int| 0 <= yy < rows.len() && 0 <= i < rows[yy]@.len()
        ==> is_run_p(grid[yy]@, #[trigger] rows[yy]@[i])
    &&& forall|yy: int, i: int, j: int| 0 <= yy < rows.len() && 0 <= i < j < rows[yy]@.len()
        ==> (#[trigger] rows[yy]@[i]).right < (#[trigger] rows[yy]@[j]).left
    &&& forall|yy: int, l: int, r: int| 0 <= yy < rows.len() && #[trigger] is_run(grid[yy]@, l, r)
        ==> exists|i: int| 0 <= i < rows[yy]@.len() && (#[trigger] rows[yy]@[i]).left == l
            && rows[yy]@[i].right == r
    &&& forall|yy: int, c: int| 0 <= yy < rows.len() && 0 <= c < grid[yy]@.len()
        && (#[trigger] grid[yy]@[c])
        ==> exists|i: int| 0 <= i < rows[yy]@.len() && (#[trigger] rows[yy]@[i]).left <= c
            <= rows[yy]@[i].right
    &&& forall|yy: int| 0 <= yy < rows.len() ==> width_sum(#[trigger] rows[yy]@)
        == count_row(grid[yy]@)
}

proof fn lemma_grid_width(grid: Seq<Vec<bool>>, rows: Seq<Vec<Plate>>)
    requires
        rows.len() == grid.len(),
        forall|yy: int| 0 <= yy < rows.len() ==> width_sum(#[trigger] rows[yy]@)
            == count_row(grid[yy]@),
    ensures
        total_width(rows) == grid_count(grid),
    decreases rows.len(),
{
    if rows.len() > 0 {
        assert forall|yy: int| 0 <= yy < rows.drop_last().len() implies width_sum(
            #[trigger] rows.drop_last()[yy]@,
        ) == count_row(grid.drop_last()[yy]@) by {
            assert(rows.drop_last()[yy] == rows[yy]);
            assert(grid.drop_last()[yy] == grid[yy]);
        }
        lemma_grid_width(grid.drop_last(), rows.drop_last());
        assert(rows.last()@ == rows[rows.len() - 1]@);
    }
}

/// Two maximal rectangles that share a cell are the same rectangle.
pub proof fn lemma_maximal_unique(grid: Seq<Vec<bool>>, a: Rect, b: Rect, x: int, y: int)
    requires
        maximal_rect(grid, a),
        maximal_rect(grid, b),
        rect_contains(a, x, y),
        rect_contains(b, x, y),
    ensures
        a == b,
{
    lemma_run_unique(
        grid[y]@,
        a.left as int,
        a.right as int,
        b.left as int,
        b.right as int,
        x,
    );
    if a.top < b.top {
        assert(is_run(grid[a.top + 1]@, b.left as int, b.right as int));
        assert(false);
    }
    if b.top < a.top {
        assert(is_run(grid[b.top + 1]@, a.left as int, a.right as int));
        assert(false);
    }
    if a.bottom < b.bottom {
        assert(is_run(grid[b.bottom - 1]@, a.left as int, a.right as int));
        assert(false);
    }
    if b.bottom < a.bottom {
        assert(is_run(grid[a.bottom - 1]@, b.left as int, b.right as int));
        assert(false);
    }
    assert(a == b);
}

/// Mesh a level's wall grid: rows of occupied cells in, a minimal set of
/// collision rectangles out. Every rectangle is a maximal stack of
/// identical runs, the rectangles are pairwise disjoint, they cover
/// every occupied cell, and their areas add up to the number of
/// occupied cells.
#[verifier::loop_isolation(false)]
#[verifier::rlimit(60)]
pub fn wall_rects(grid: &Vec<Vec<bool>>) -> (out: Vec<Rect>)
    ensures
        forall|k: int| 0 <= k < out@.len() ==> maximal_rect(grid@, #[trigger] out@[k]),
        forall|k1: int, k2: int| 0 <= k1 < k2 < out@.len()
            ==> rects_disjoint(#[trigger] out@[k1], #[trigger] out@[k2]),
        forall|x: int, y: int| #[trigger] cell(grid@, x, y)
            ==> exists|k: int| 0 <= k < out@.len() && rect_contains(#[trigger] out@[k], x, y),
        area_sum(out@) == grid_count(grid@),
{
    let mut rows: Vec<Vec<Plate>> = Vec::new();
    let mut y: usize = 0;
    while y < grid.len()
        invariant
            y == rows@.len() <= grid@.len(),
            plates_of_grid(grid@.take(y as int), rows@),
        decreases grid@.len() - y,
    {
        let ps = row_plates(&grid[y]);
        proof {
            let g1 = grid@.take(y + 1);
            let r1 = rows@.push(ps);
            assert forall|yy: int| 0 <= yy < g1.len() implies g1[yy] == grid@[yy]
                && r1[yy]@ == if yy < y { rows@[yy]@ } else { ps@ } by {}
            assert(plates_of_grid(g1, r1));
        }
        rows.push(ps);
        y += 1;
    }
    proof {
        assert(grid@.take(grid@.len() as int) =~= grid@);
        assert(rows_sorted(rows@));
    }
    let out = merge_plates(&rows);
    proof {
        assert forall|k: int| 0 <= k < out@.len() implies maximal_rect(
            grid@,
            #[trigger] out@[k],
        ) by {
            let r = out@[k];
            assert forall|yy: int| r.bottom <= yy <= r.top implies is_run(
                grid@[yy]@,
                r.left as int,
                r.right as int,
            ) by {
                assert(present(rows@, yy, rect_plate(r)));
                let i = choose|i: int| 0 <= i < rows@[yy]@.len() && rows@[yy]@[i]
                    == rect_plate(r);
                assert(is_run_p(grid@[yy]@, rows@[yy]@[i]));
            }
            if r.top + 1 < grid@.len() && is_run(grid@[r.top + 1]@, r.left as int, r.right as int) {
                let i = choose|i: int| 0 <= i < rows@[r.top + 1]@.len()
                    && (#[trigger] rows@[r.top + 1]@[i]).left == r.left as int
                    && rows@[r.top + 1]@[i].right == r.right as int;
                assert(rows@[r.top + 1]@[i] == rect_plate(r));
                assert(present(rows@, r.top + 1, rect_plate(r)));
                assert(false);
            }
            if r.bottom > 0 && is_run(grid@[r.bottom - 1]@, r.left as int, r.right as int) {
                let i = choose|i: int| 0 <= i < rows@[r.bottom - 1]@.len()
                    && (#[trigger] rows@[r.bottom - 1]@[i]).left == r.left as int
                    && rows@[r.bottom - 1]@[i].right == r.right as int;
                assert(rows@[r.bottom - 1]@[i] == rect_plate(r));
                assert(present(rows@, r.bottom - 1, rect_plate(r)));
                assert(false);
            }
        }
        assert forall|x: int, yy: int| #[trigger] cell(grid@, x, yy) implies exists|k: int|
            0 <= k < out@.len() && rect_contains(#[trigger] out@[k], x, yy) by {
            let i = choose|i: int| 0 <= i < rows@[yy]@.len()
                && (#[trigger] rows@[yy]@[i]).left <= x <= rows@[yy]@[i].right;
            assert(plate_covered(rows@, out@, yy, i));
            let k = choose|k: int| 0 <= k < out@.len()
                && rect_plate(#[trigger] out@[k]) == rows@[yy]@[i]
                && out@[k].bottom <= yy <= out@[k].top;
            assert(rect_contains(out@[k], x, yy));
        }
        lemma_grid_width(grid@, rows@);
    }
    out
}

/// Re-running the mesher on the same grid yields the same set of
/// rectangles: any two outputs that are maximal, disjoint and covering
/// contain exactly the same rectangles.
pub proof fn lemma_mesh_deterministic(grid: Seq<Vec<bool>>, out1: Seq<Rect>, out2: Seq<Rect>)
    requires
        forall|k: int| 0 <= k < out1.len() ==> maximal_rect(grid, #[trigger] out1[k]),
        forall|x: int, y: int| #[trigger] cell(grid, x, y)
            ==> exists|k: int| 0 <= k < out1.len() && rect_contains(#[trigger] out1[k], x, y),
        forall|k: int| 0 <= k < out2.len() ==> maximal_rect(grid, #[trigger] out2[k]),
        forall|x: int, y: int| #[trigger] cell(grid, x, y)
            ==> exists|k: int| 0 <= k < out2.len() && rect_contains(#[trigger] out2[k], x, y),
    ensures
        out1.to_set() == out2.to_set(),
{
    lemma_mesh_subset(grid, out1, out2);
    lemma_mesh_subset(grid, out2, out1);
    assert(out1.to_set() =~= out2.to_set());
}

proof fn lemma_mesh_subset(grid: Seq<Vec<bool>>, a: Seq<Rect>, b: Seq<Rect>)
    requires
        forall|k: int| 0 <= k < a.len() ==> maximal_rect(grid, #[trigger] a[k]),
        forall|k: int| 0 <= k < b.len() ==> maximal_rect(grid, #[trigger] b[k]),
        forall|x: int, y: int| #[trigger] cell(grid, x, y)
            ==> exists|k: int| 0 <= k < b.len() && rect_contains(#[trigger] b[k], x, y),
    ensures
        forall|r: Rect| a.to_set().contains(r) ==> b.to_set().contains(r),
{
    assert forall|r: Rect| a.to_set().contains(r) implies b.to_set().contains(r) by {
        let k1 = choose|k1: int| 0 <= k1 < a.len() && a[k1] == r;
        assert(maximal_rect(grid, r));
        assert(is_run(grid[r.bottom as int]@, r.left as int, r.right as int));
        assert(cell(grid, r.left as int, r.bottom as int));
        let k2 = choose|k2: int| 0 <= k2 < b.len()
            && rect_contains(#[trigger] b[k2], r.left as int, r.bottom as int);
        lemma_maximal_unique(grid, r, b[k2], r.left as int, r.bottom as int);
        assert(b.to_set().contains(r));
    }
}

/// World-space geometry of one wall collider, in half-units so that the
/// values stay integral: twice the centre coordinates, and the full side
/// lengths (twice each half-extent), all scaled by the grid cell size.
#[derive(Clone, Copy, PartialEq, Eq, Structural, Debug)]
pub struct WallCollider {
    pub center_x2: u64,
    pub center_y2: u64,
    pub width: u64,
    pub height: u64,
}

/// Scale a grid rectangle to the collider the physics layer registers
/// for it.
pub fn collider_geometry(r: &Rect, grid_size: u32) -> (g: WallCollider)
    requires
        r.left <= r.right <= 0x10000000,
        r.bottom <= r.top <= 0x10000000,
    ensures
        g.center_x2 == (r.left + r.right + 1) * grid_size,
        g.center_y2 == (r.bottom + r.top + 1) * grid_size,
        g.width == (r.right - r.left + 1) * grid_size,
        g.height == (r.top - r.bottom + 1) * grid_size,
{
    let gs = grid_size as u64;
    proof {
        vstd::arithmetic::mul::lemma_mul_upper_bound(
            (r.left + r.right + 1) as int,
            0x20000001,
            gs as int,
            0x100000000,
        );
        vstd::arithmetic::mul::lemma_mul_upper_bound(
            (r.bottom + r.top + 1) as int,
            0x20000001,
            gs as int,
            0x100000000,
        );
        vstd::arithmetic::mul::lemma_mul_upper_bound(
            (r.right - r.left + 1) as int,
            0x20000001,
            gs as int,
            0x100000000,
        );
        vstd::arithmetic::mul::lemma_mul_upper_bound(
            (r.top - r.bottom + 1) as int,
            0x20000001,
            gs as int,
            0x100000000,
        );
    }
    WallCollider {
        center_x2: (r.left as u64 + r.right as u64 + 1) * gs,
        center_y2: (r.bottom as u64 + r.top as u64 + 1) * gs,
        width: (r.right as u64 - r.left as u64 + 1) * gs,
        height: (r.top as u64 - r.bottom as u64 + 1) * gs,
    }
}


/// Every occupied cell belongs to exactly one output rectangle: some
/// rectangle contains it, and no two distinct rectangles contain the
/// same cell.
pub proof fn lemma_exactly_one_rect(grid: Seq<Vec<bool>>, out: Seq<Rect>, x: int, y: int)
    requires
        forall|k1: int, k2: int| 0 <= k1 < k2 < out.len()
            ==> rects_disjoint(#[trigger] out[k1], #[trigger] out[k2]),
        forall|xx: int, yy: int| #[trigger] cell(grid, xx, yy)
            ==> exists|k: int| 0 <= k < out.len() && rect_contains(#[trigger] out[k], xx, yy),
        cell(grid, x, y),
    ensures
        exists|k: int| 0 <= k < out.len() && rect_contains(#[trigger] out[k], x, y),
        forall|k1: int, k2: int| 0 <= k1 < out.len() && 0 <= k2 < out.len()
            && rect_contains(#[trigger] out[k1], x, y) && rect_contains(#[trigger] out[k2], x, y)
            ==> k1 == k2,
{
    assert forall|k1: int, k2: int| 0 <= k1 < out.len() && 0 <= k2 < out.len()
        && rect_contains(#[trigger] out[k1], x, y) && rect_contains(
        #[trigger] out[k2],
        x,
        y,
    ) implies k1 == k2 by {
        if k1 != k2 {
            assert(!rects_disjoint(out[k1], out[k2]));
        }
    }
}

} // verus!
