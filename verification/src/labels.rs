//! Placement of the x-axis labels: the distance between two labels, the
//! angle and stride at which they are written, and which of them are drawn.
use vstd::prelude::*;

verus! {

/// The angles, in degrees and in the order they are tried, at which the
/// x-axis labels may be written.
pub open spec fn label_angles() -> Seq<i64> {
    seq![0i64, -45i64, 45i64, -90i64, 90i64]
}

/// Whether an angle lies within the rotation limits of the options.
pub open spec fn angle_allowed(min_rotation: i64, max_rotation: i64) -> spec_fn(i64) -> bool {
    |a: i64| min_rotation <= a <= max_rotation
}

/// The label angles that the rotation limits admit, in the order they are tried.
pub open spec fn allowed_angles(min_rotation: i64, max_rotation: i64) -> Seq<i64> {
    label_angles().filter(angle_allowed(min_rotation, max_rotation))
}

/// The candidates of one stride: each admitted angle, paired with the stride.
pub open spec fn stride_candidates(step: usize, min_rotation: i64, max_rotation: i64) -> Seq<
    (usize, i64),
> {
    allowed_angles(min_rotation, max_rotation).map_values(|a: i64| (step, a))
}

/// The (stride, angle) pairs that are tried for `row_count` labels: every
/// stride from 1 up to but not including `row_count`, and for each stride
/// every admitted angle in order.
pub open spec fn rotation_candidates_spec(row_count: nat, min_rotation: i64, max_rotation: i64) -> Seq<
    (usize, i64),
>
    decreases row_count,
{
    if row_count <= 1 {
        Seq::empty()
    } else {
        rotation_candidates_spec((row_count - 1) as nat, min_rotation, max_rotation)
            + stride_candidates((row_count - 1) as usize, min_rotation, max_rotation)
    }
}

/// The first candidate, in the order they are tried, whose labels fit, if
/// any does.
pub open spec fn first_fit(candidates: Seq<(usize, i64)>, fits: Seq<bool>) -> Option<(usize, i64)>
    decreases candidates.len(),
{
    if candidates.len() == 0 {
        None
    } else if fits[0] {
        Some(candidates[0])
    } else {
        first_fit(candidates.drop_first(), fits.drop_first())
    }
}

/// The label angles that lie within `[min_rotation, max_rotation]`, in the
/// order in which they are tried.
pub fn allowed_label_angles(min_rotation: i64, max_rotation: i64) -> (r: Vec<i64>)
    ensures
        r@ == allowed_angles(min_rotation, max_rotation),
        forall|a: i64|
            r@.contains(a) <==> ((a == 0 || a == -45 || a == 45 || a == -90 || a == 90)
                && min_rotation <= a <= max_rotation),
        r@ == (if min_rotation <= 0 <= max_rotation { seq![0i64] } else { Seq::empty() }) + (
        if min_rotation <= -45 <= max_rotation {
            seq![-45i64]
        } else {
            Seq::empty()
        }) + (if min_rotation <= 45 <= max_rotation {
            seq![45i64]
        } else {
            Seq::empty()
        }) + (if min_rotation <= -90 <= max_rotation {
            seq![-90i64]
        } else {
            Seq::empty()
        }) + (if min_rotation <= 90 <= max_rotation {
            seq![90i64]
        } else {
            Seq::empty()
        }),
{
    proof {
        lemma_allowed_angles_in_order(min_rotation, max_rotation);
    }
    let angles: Vec<i64> = vec![0, -45, 45, -90, 90];
    assert(angles@ =~= label_angles());
    let ghost pred = angle_allowed(min_rotation, max_rotation);
    let mut r: Vec<i64> = Vec::new();
    let mut i: usize = 0;
    proof {
        reveal_with_fuel(Seq::filter, 1);
        assert(angles@.take(0) =~= Seq::<i64>::empty());
    }
    while i < angles.len()
        invariant
            angles@ == label_angles(),
            pred == angle_allowed(min_rotation, max_rotation),
            i <= angles@.len(),
            r@ == angles@.take(i as int).filter(pred),
        decreases angles.len() - i,
    {
        let a = angles[i];
        proof {
            reveal_with_fuel(Seq::filter, 1);
            assert(angles@.take(i + 1).drop_last() =~= angles@.take(i as int));
            assert(angles@.take(i + 1).last() == a);
        }
        if !(a > max_rotation || a < min_rotation) {
            r.push(a);
        }
        i = i + 1;
    }
    assert(angles@.take(angles@.len() as int) =~= angles@);
    r
}

/// The admitted angles are, in this order, 0, -45, 45, -90 and 90, each
/// present exactly when it lies within the rotation limits (both ends
/// included).
pub proof fn lemma_allowed_angles_in_order(min_rotation: i64, max_rotation: i64)
    ensures
        allowed_angles(min_rotation, max_rotation) == (if min_rotation <= 0 <= max_rotation {
            seq![0i64]
        } else {
            Seq::empty()
        }) + (if min_rotation <= -45 <= max_rotation {
            seq![-45i64]
        } else {
            Seq::empty()
        }) + (if min_rotation <= 45 <= max_rotation {
            seq![45i64]
        } else {
            Seq::empty()
        }) + (if min_rotation <= -90 <= max_rotation {
            seq![-90i64]
        } else {
            Seq::empty()
        }) + (if min_rotation <= 90 <= max_rotation {
            seq![90i64]
        } else {
            Seq::empty()
        }),
        forall|a: i64|
            allowed_angles(min_rotation, max_rotation).contains(a) <==> ((a == 0 || a == -45 || a
                == 45 || a == -90 || a == 90) && min_rotation <= a <= max_rotation),
{
    reveal_with_fuel(Seq::filter, 6);
    let l = label_angles();
    let p = angle_allowed(min_rotation, max_rotation);
    assert(l.drop_last() =~= seq![0i64, -45i64, 45i64, -90i64]);
    assert(l.drop_last().drop_last() =~= seq![0i64, -45i64, 45i64]);
    assert(l.drop_last().drop_last().drop_last() =~= seq![0i64, -45i64]);
    assert(l.drop_last().drop_last().drop_last().drop_last() =~= seq![0i64]);
    assert(seq![0i64].drop_last() =~= Seq::<i64>::empty());
    let k0: Seq<i64> = if min_rotation <= 0 <= max_rotation { seq![0i64] } else { Seq::empty() };
    let k1: Seq<i64> = if min_rotation <= -45 <= max_rotation { seq![-45i64] } else { Seq::empty() };
    let k2: Seq<i64> = if min_rotation <= 45 <= max_rotation { seq![45i64] } else { Seq::empty() };
    let k3: Seq<i64> = if min_rotation <= -90 <= max_rotation { seq![-90i64] } else { Seq::empty() };
    let k4: Seq<i64> = if min_rotation <= 90 <= max_rotation { seq![90i64] } else { Seq::empty() };
    assert(seq![0i64].filter(p) =~= k0);
    assert(seq![0i64, -45i64].filter(p) =~= k0 + k1);
    assert(seq![0i64, -45i64, 45i64].filter(p) =~= k0 + k1 + k2);
    assert(seq![0i64, -45i64, 45i64, -90i64].filter(p) =~= k0 + k1 + k2 + k3);
    assert(l.filter(p) =~= k0 + k1 + k2 + k3 + k4);
    let r = k0 + k1 + k2 + k3 + k4;
    assert forall|a: i64|
        r.contains(a) <==> ((a == 0 || a == -45 || a == 45 || a == -90 || a == 90) && min_rotation
            <= a <= max_rotation) by {
        if r.contains(a) {
            let i = choose|i: int| 0 <= i < r.len() && r[i] == a;
            assert(r[i] == a);
        }
        if (a == 0 || a == -45 || a == 45 || a == -90 || a == 90) && min_rotation <= a
            <= max_rotation {
            let i: int = if a == 0 {
                0
            } else if a == -45 {
                k0.len() as int
            } else if a == 45 {
                (k0.len() + k1.len()) as int
            } else if a == -90 {
                (k0.len() + k1.len() + k2.len()) as int
            } else {
                (k0.len() + k1.len() + k2.len() + k3.len()) as int
            };
            assert(r[i] == a);
        }
    }
}

/// Lists the (stride, angle) pairs tried when the labels of `row_count` rows
/// are laid out: stride after stride from 1, and within a stride the
/// admitted angles in order.
pub fn rotation_candidates(row_count: usize, min_rotation: i64, max_rotation: i64) -> (r: Vec<
    (usize, i64),
>)
    ensures
        r@ == rotation_candidates_spec(row_count as nat, min_rotation, max_rotation),
        r@.len() == (if row_count > 1 {
            (row_count - 1) * allowed_angles(min_rotation, max_rotation).len()
        } else {
            0
        }),
        forall|k: int|
            0 <= k < r@.len() ==> #[trigger] r@[k] == (
                (k / allowed_angles(min_rotation, max_rotation).len() as int + 1) as usize,
                allowed_angles(min_rotation, max_rotation)[k % allowed_angles(
                    min_rotation,
                    max_rotation,
                ).len() as int],
            ),
{
    proof {
        lemma_candidates_by_index(row_count as nat, min_rotation, max_rotation);
    }
    let allowed = allowed_label_angles(min_rotation, max_rotation);
    let mut r: Vec<(usize, i64)> = Vec::new();
    let mut step: usize = 1;
    while step < row_count
        invariant
            allowed@ == allowed_angles(min_rotation, max_rotation),
            1 <= step,
            step <= row_count || step == 1,
            r@ == rotation_candidates_spec(step as nat, min_rotation, max_rotation),
        decreases row_count - step,
    {
        let ghost before = r@;
        let mut j: usize = 0;
        while j < allowed.len()
            invariant
                allowed@ == allowed_angles(min_rotation, max_rotation),
                j <= allowed@.len(),
                r@ == before + stride_candidates(step, min_rotation, max_rotation).take(j as int),
            decreases allowed.len() - j,
        {
            r.push((step, allowed[j]));
            assert(stride_candidates(step, min_rotation, max_rotation).take(j + 1) =~=
                stride_candidates(step, min_rotation, max_rotation).take(j as int).push((step, allowed@[j as int])));
            j = j + 1;
        }
        assert(stride_candidates(step, min_rotation, max_rotation).take(allowed@.len() as int)
            =~= stride_candidates(step, min_rotation, max_rotation));
        assert(rotation_candidates_spec((step + 1) as nat, min_rotation, max_rotation)
            == rotation_candidates_spec(step as nat, min_rotation, max_rotation)
                + stride_candidates(step, min_rotation, max_rotation));
        step = step + 1;
    }
    if row_count == 0 {
        assert(rotation_candidates_spec(1, min_rotation, max_rotation)
            =~= rotation_candidates_spec(0, min_rotation, max_rotation));
    }
    r
}

/// The candidates come stride by stride from 1: the `k`-th of them has
/// stride `k / m + 1` and the `(k % m)`-th admitted angle, where `m` is the
/// number of admitted angles; there are `m` of them for every stride from 1
/// below the row count.
pub proof fn lemma_candidates_by_index(row_count: nat, min_rotation: i64, max_rotation: i64)
    requires
        row_count <= usize::MAX,
    ensures
        rotation_candidates_spec(row_count, min_rotation, max_rotation).len() == (if row_count > 1 {
            (row_count - 1) * allowed_angles(min_rotation, max_rotation).len()
        } else {
            0
        }),
        forall|k: int|
            0 <= k < rotation_candidates_spec(row_count, min_rotation, max_rotation).len()
                ==> #[trigger] rotation_candidates_spec(row_count, min_rotation, max_rotation)[k]
                == (
                (k / allowed_angles(min_rotation, max_rotation).len() as int + 1) as usize,
                allowed_angles(min_rotation, max_rotation)[k % allowed_angles(
                    min_rotation,
                    max_rotation,
                ).len() as int],
            ),
    decreases row_count,
{
    let allowed = allowed_angles(min_rotation, max_rotation);
    let m = allowed.len() as int;
    if row_count > 1 {
        let n = (row_count - 1) as nat;
        lemma_candidates_by_index(n, min_rotation, max_rotation);
        let prev = rotation_candidates_spec(n, min_rotation, max_rotation);
        let block = stride_candidates((row_count - 1) as usize, min_rotation, max_rotation);
        let all = rotation_candidates_spec(row_count, min_rotation, max_rotation);
        assert(all == prev + block);
        assert(prev.len() == (n - 1) * m) by {
            if n <= 1 {
                assert(n == 1);
            }
        }
        assert((n - 1) * m + m == n * m) by (nonlinear_arith);
        assert forall|k: int| 0 <= k < all.len() implies #[trigger] all[k] == (
            (k / m + 1) as usize,
            allowed[k % m],
        ) by {
            if k < prev.len() {
                assert(all[k] == prev[k]);
            } else {
                let j = k - prev.len();
                assert(all[k] == block[j]);
                assert(0 <= j < m);
                vstd::arithmetic::div_mod::lemma_fundamental_div_mod_converse(k, m, n - 1, j);
            }
        }
    }
}

/// The rotation and stride that the x-axis labels take.
#[derive(Clone, Copy, Debug, PartialEq, Eq)]
pub struct LabelRotation {
    /// The angle of the labels in degrees.
    pub angle: i64,
    /// The stride between two drawn labels, or `None` where no candidate fit
    /// and the stride stays what it was.
    pub step: Option<usize>,
}

/// Picks the rotation of the labels from the candidates, given for each
/// whether the labels fit at its stride and angle: the search stops at the
/// first candidate that fits, which wins; where none fits, the labels are
/// written level.
pub fn choose_rotation(candidates: &Vec<(usize, i64)>, fits: &Vec<bool>) -> (r: LabelRotation)
    requires
        candidates@.len() == fits@.len(),
    ensures
        match first_fit(candidates@, fits@) {
            Some((s, a)) => r == LabelRotation { angle: a, step: Some(s) },
            None => r == LabelRotation { angle: 0, step: None },
        },
        forall|i: int|
            0 <= i < fits@.len() && #[trigger] fits@[i] && (forall|j: int| 0 <= j < i ==> !fits@[j])
                ==> r == (LabelRotation { angle: candidates@[i].1, step: Some(candidates@[i].0) }),
        (forall|i: int| 0 <= i < fits@.len() ==> !fits@[i]) ==> r == (LabelRotation {
            angle: 0,
            step: None,
        }),
{
    proof {
        lemma_first_fit_by_index(candidates@, fits@);
    }
    let mut i: usize = 0;
    assert(candidates@.skip(0) =~= candidates@);
    assert(fits@.skip(0) =~= fits@);
    while i < candidates.len()
        invariant
            candidates@.len() == fits@.len(),
            i <= candidates@.len(),
            first_fit(candidates@, fits@) == first_fit(
                candidates@.skip(i as int),
                fits@.skip(i as int),
            ),
        decreases candidates.len() - i,
    {
        if fits[i] {
            proof {
                lemma_first_fit_by_index(candidates@, fits@);
            }
            let (s, a) = candidates[i];
            return LabelRotation { angle: a, step: Some(s) };
        }
        assert(candidates@.skip(i as int).drop_first() =~= candidates@.skip(i + 1));
        assert(fits@.skip(i as int).drop_first() =~= fits@.skip(i + 1));
        i = i + 1;
    }
    LabelRotation { angle: 0, step: None }
}

/// The number that the x-axis length is divided by to give the distance
/// between two consecutive labels: with a label offset and more than one row
/// every row takes a slot of its own; without an offset the first and last
/// labels sit on the ends of the axis; a single row (or none) spans the
/// whole axis.
pub open spec fn hop_divisor_spec(offset_positive: bool, row_count: nat) -> nat {
    if row_count > 1 {
        if offset_positive {
            row_count
        } else {
            (row_count - 1) as nat
        }
    } else {
        1
    }
}

/// Computes the divisor of the x-axis length that gives the label hop.
pub fn xlabel_hop_divisor(offset_positive: bool, row_count: usize) -> (d: usize)
    ensures
        d == hop_divisor_spec(offset_positive, row_count as nat),
        d >= 1,
        offset_positive && row_count > 1 ==> d == row_count,
        !offset_positive && row_count > 1 ==> d == row_count - 1,
        row_count <= 1 ==> d == 1,
{
    if offset_positive && row_count > 1 {
        row_count
    } else if row_count > 1 {
        row_count - 1
    } else {
        1
    }
}

/// The position, among the labels, of the `k`-th label that is drawn.
pub open spec fn nth_drawn(k: int, step: int) -> int {
    k * step
}

/// The indices of the x-axis labels that are drawn (and of the ticks that go
/// with them): every `step`-th label, starting with the first.
pub fn xlabel_indices(label_count: usize, step: usize) -> (r: Vec<usize>)
    requires
        step > 0 || label_count == 0,
    ensures
        forall|k: int| 0 <= k < r@.len() ==> r@[k] == nth_drawn(k, step as int),
        forall|k: int|
            #![trigger nth_drawn(k, step as int)]
            0 <= k ==> (k < r@.len() <==> nth_drawn(k, step as int) < label_count),
        forall|k: int| 0 <= k < r@.len() ==> #[trigger] r@[k] == k * step && r@[k] < label_count,
        r@.len() * step >= label_count,
{
    let mut r: Vec<usize> = Vec::new();
    let mut idx: usize = 0;
    let mut done = false;
    while !done && idx < label_count
        invariant
            step > 0 || label_count == 0,
            !done ==> idx == nth_drawn(r@.len() as int, step as int),
            done ==> idx < label_count,
            forall|k: int| 0 <= k < r@.len() ==> r@[k] == nth_drawn(k, step as int),
            forall|k: int| 0 <= k < r@.len() ==> #[trigger] r@[k] < label_count,
            done ==> nth_drawn(r@.len() as int, step as int) >= label_count,
        decreases label_count - idx, (if done { 0int } else { 1int }),
    {
        r.push(idx);
        proof {
            assert(nth_drawn(r@.len() as int, step as int) == idx + step) by (nonlinear_arith)
                requires
                    idx == nth_drawn(r@.len() - 1, step as int),
            ;
        }
        if label_count - idx <= step {
            done = true;
        } else {
            idx = idx + step;
        }
    }
    let ghost n = r@.len() as int;
    assert forall|k: int| #![trigger nth_drawn(k, step as int)] 0 <= k implies (k < n
        <==> nth_drawn(k, step as int) < label_count) by {
        if k < n {
            assert(r@[k] < label_count);
        } else {
            assert(nth_drawn(k, step as int) >= nth_drawn(n, step as int)) by (nonlinear_arith)
                requires
                    k >= n,
                    step >= 0,
            ;
        }
    }
    assert forall|k: int| 0 <= k < r@.len() implies #[trigger] r@[k] == k * step && r@[k]
        < label_count by {
        assert(r@[k] == nth_drawn(k, step as int));
    }
    assert(nth_drawn(n, step as int) >= label_count);
    r
}

/// How the text of the x-axis labels is aligned.
#[derive(Clone, Copy, Debug, PartialEq, Eq, Structural)]
pub enum HorizontalAlign {
    Left,
    Center,
    Right,
}

/// Which line of the text of a label its anchor point sits on.
#[derive(Clone, Copy, Debug, PartialEq, Eq, Structural)]
pub enum TextBaseline {
    Alphabetic,
    Middle,
}

/// How the x-axis labels are written at a given rotation.
#[derive(Clone, Copy, Debug, PartialEq, Eq, Structural)]
pub struct XLabelStyle {
    pub align: HorizontalAlign,
    pub baseline: TextBaseline,
    /// Whether each label is drawn in a frame turned by the rotation.
    pub rotated: bool,
    /// Whether the labels move right by an eighth of the font size, as
    /// labels turned by a right angle do.
    pub nudged: bool,
}

/// Chooses how the x-axis labels are written at `rotation` degrees: level
/// labels are centred on their anchor; turned labels hang from it to the
/// right when turned up and to the left when turned down.
pub fn xlabel_style(rotation: i64) -> (r: XLabelStyle)
    ensures
        rotation == 0 ==> r == (XLabelStyle {
            align: HorizontalAlign::Center,
            baseline: TextBaseline::Alphabetic,
            rotated: false,
            nudged: false,
        }),
        rotation != 0 ==> r == (XLabelStyle {
            align: if rotation < 0 {
                HorizontalAlign::Right
            } else {
                HorizontalAlign::Left
            },
            baseline: TextBaseline::Middle,
            rotated: true,
            nudged: rotation == 90,
        }),
{
    if rotation == 0 {
        XLabelStyle {
            align: HorizontalAlign::Center,
            baseline: TextBaseline::Alphabetic,
            rotated: false,
            nudged: false,
        }
    } else {
        XLabelStyle {
            align: if rotation < 0 {
                HorizontalAlign::Right
            } else {
                HorizontalAlign::Left
            },
            baseline: TextBaseline::Middle,
            rotated: true,
            nudged: rotation == 90,
        }
    }
}

/// Where the first x-axis tick stands.
#[derive(Clone, Copy, Debug, PartialEq, Eq, Structural)]
pub enum TickOrigin {
    /// On the y-axis.
    AxisStart,
    /// Under the first label.
    FirstLabel,
}

/// The ticks start under the first label when only every few labels are
/// drawn, and on the y-axis otherwise.
pub fn tick_origin(step: i64) -> (r: TickOrigin)
    ensures
        r == (if step > 1 {
            TickOrigin::FirstLabel
        } else {
            TickOrigin::AxisStart
        }),
{
    if step > 1 {
        TickOrigin::FirstLabel
    } else {
        TickOrigin::AxisStart
    }
}

/// The candidate picked is the one at the first index whose labels fit:
/// it fits, and no candidate before it does; where none fits, none is
/// picked.
pub proof fn lemma_first_fit_by_index(candidates: Seq<(usize, i64)>, fits: Seq<bool>)
    requires
        candidates.len() == fits.len(),
    ensures
        forall|i: int|
            0 <= i < fits.len() && #[trigger] fits[i] && (forall|j: int| 0 <= j < i ==> !fits[j])
                ==> first_fit(candidates, fits) == Some(candidates[i]),
        (forall|i: int| 0 <= i < fits.len() ==> !fits[i]) ==> first_fit(candidates, fits)
            is None,
    decreases candidates.len(),
{
    if candidates.len() > 0 {
        let rc = candidates.drop_first();
        let rf = fits.drop_first();
        lemma_first_fit_by_index(rc, rf);
        assert forall|i: int|
            0 <= i < fits.len() && #[trigger] fits[i] && (forall|j: int| 0 <= j < i ==> !fits[j])
                implies first_fit(candidates, fits) == Some(candidates[i]) by {
            if i > 0 {
                assert(!fits[0]);
                assert(rf[i - 1]);
                assert forall|j: int| 0 <= j < i - 1 implies !rf[j] by {
                    assert(!fits[j + 1]);
                }
                assert(rc[i - 1] == candidates[i]);
            }
        }
        if forall|i: int| 0 <= i < fits.len() ==> !fits[i] {
            assert(!fits[0]);
            assert forall|i: int| 0 <= i < rf.len() implies !rf[i] by {
                assert(!fits[i + 1]);
            }
        }
    }
}

/// The candidate that is picked is one of the candidates, marked as fitting.
proof fn lemma_first_fit_is_a_fitting_candidate(candidates: Seq<(usize, i64)>, fits: Seq<bool>)
    requires
        candidates.len() == fits.len(),
    ensures
        first_fit(candidates, fits) matches Some(c) ==> exists|i: int|
            0 <= i < candidates.len() && fits[i] && #[trigger] candidates[i] == c,
    decreases candidates.len(),
{
    if candidates.len() > 0 {
        if fits[0] {
            assert(candidates[0] == candidates[0]);
        } else {
            lemma_first_fit_is_a_fitting_candidate(candidates.drop_first(), fits.drop_first());
            if let Some(c) = first_fit(candidates, fits) {
                let j = choose|j: int|
                    0 <= j < candidates.drop_first().len() && fits.drop_first()[j]
                        && #[trigger] candidates.drop_first()[j] == c;
                assert(candidates[j + 1] == c);
            }
        }
    }
}

/// Every candidate has a stride from 1 below the row count and one of the
/// label angles within the rotation limits.
proof fn lemma_candidates_within_limits(row_count: nat, min_rotation: i64, max_rotation: i64)
    requires
        row_count <= usize::MAX,
    ensures
        forall|i: int|
            0 <= i < rotation_candidates_spec(row_count, min_rotation, max_rotation).len() ==> {
                let c = #[trigger] rotation_candidates_spec(row_count, min_rotation, max_rotation)[i];
                &&& 1 <= c.0 < row_count
                &&& min_rotation <= c.1 <= max_rotation
                &&& label_angles().contains(c.1)
            },
    decreases row_count,
{
    broadcast use vstd::seq_lib::group_filter_ensures;

    if row_count > 1 {
        let prev = rotation_candidates_spec((row_count - 1) as nat, min_rotation, max_rotation);
        let block = stride_candidates((row_count - 1) as usize, min_rotation, max_rotation);
        let allowed = allowed_angles(min_rotation, max_rotation);
        lemma_candidates_within_limits((row_count - 1) as nat, min_rotation, max_rotation);
        assert forall|i: int| 0 <= i < block.len() implies {
            &&& 1 <= (#[trigger] block[i]).0 < row_count
            &&& min_rotation <= block[i].1 <= max_rotation
            &&& label_angles().contains(block[i].1)
        } by {
            assert(block[i].1 == allowed[i]);
            assert(allowed.contains(allowed[i]));
            label_angles().lemma_filter_contains_rev(angle_allowed(min_rotation, max_rotation), allowed[i]);
        }
        let all = rotation_candidates_spec(row_count, min_rotation, max_rotation);
        assert(all == prev + block);
        assert forall|i: int| 0 <= i < all.len() implies {
            let c = #[trigger] all[i];
            &&& 1 <= c.0 < row_count
            &&& min_rotation <= c.1 <= max_rotation
            &&& label_angles().contains(c.1)
        } by {
            if i < prev.len() {
                assert(all[i] == prev[i]);
            } else {
                assert(all[i] == block[i - prev.len()]);
            }
        }
    }
}

/// Where some candidate fits, the labels are written at one of the label
/// angles within the rotation limits, and at a stride from 1 below the row
/// count.
pub proof fn lemma_chosen_rotation_within_limits(
    row_count: usize,
    min_rotation: i64,
    max_rotation: i64,
    fits: Seq<bool>,
)
    requires
        fits.len() == rotation_candidates_spec(row_count as nat, min_rotation, max_rotation).len(),
    ensures
        first_fit(rotation_candidates_spec(row_count as nat, min_rotation, max_rotation), fits) matches Some(
            c,
        ) ==> {
            &&& 1 <= c.0 < row_count
            &&& min_rotation <= c.1 <= max_rotation
            &&& label_angles().contains(c.1)
        },
{
    let cands = rotation_candidates_spec(row_count as nat, min_rotation, max_rotation);
    lemma_first_fit_is_a_fitting_candidate(cands, fits);
    lemma_candidates_within_limits(row_count as nat, min_rotation, max_rotation);
    if let Some(c) = first_fit(cands, fits) {
        let i = choose|i: int| 0 <= i < cands.len() && fits[i] && #[trigger] cands[i] == c;
        assert(cands[i] == c);
    }
}

} // verus!
