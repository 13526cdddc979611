//! Distances between points of the touch surface, in whole micrometres.

use vstd::prelude::*;

use crate::touchpad::TouchContact;

verus! {

/// A point of the touch surface.
#[derive(Clone, Copy, Debug, PartialEq, Eq, Structural)]
pub struct Point {
    pub x: i64,
    pub y: i64,
}

/// Whether `root` is the square root of `value`, rounded down.
pub open spec fn is_root(root: nat, value: nat) -> bool {
    root * root <= value < (root + 1) * (root + 1)
}

/// The square root of `value`, rounded down.
pub open spec fn root(value: nat) -> nat {
    choose|r: nat| is_root(r, value)
}

/// There is only one rounded-down square root.
pub proof fn lemma_root_unique(r: nat, value: nat)
    requires
        is_root(r, value),
    ensures
        root(value) == r,
{
    let other = root(value);
    assert(is_root(other, value));
    if other < r {
        assert((other + 1) * (other + 1) <= r * r) by (nonlinear_arith)
            requires
                other + 1 <= r,
        ;
    } else if r < other {
        assert((r + 1) * (r + 1) <= other * other) by (nonlinear_arith)
            requires
                r + 1 <= other,
        ;
    }
}

/// The square root of `value`, rounded down.
pub fn integer_root(value: u64) -> (r: u64)
    ensures
        r == root(value as nat),
        is_root(r as nat, value as nat),
        r <= 0xffff_ffff,
{
    let mut low: u64 = 0;
    let mut high: u64 = 0x1_0000_0000;
    assert(0x1_0000_0000int * 0x1_0000_0000int > u64::MAX) by (nonlinear_arith);
    while high - low > 1
        invariant
            low < high <= 0x1_0000_0000,
            low * low <= value,
            value < high * high,
        decreases high - low,
    {
        let middle: u64 = low + (high - low) / 2;
        assert(middle < 0x1_0000_0000);
        assert(middle * middle <= 0xffff_ffff * 0xffff_ffff) by (nonlinear_arith)
            requires
                middle <= 0xffff_ffff,
        ;
        if middle * middle <= value {
            low = middle;
        } else {
            high = middle;
        }
    }
    proof {
        assert(high == low + 1);
        lemma_root_unique(low as nat, value as nat);
    }
    low
}

/// The smaller of `value` and the largest 64-bit number.
pub open spec fn capped(value: nat) -> nat {
    if value <= u64::MAX {
        value
    } else {
        u64::MAX as nat
    }
}

/// The length of a displacement, rounded down.
pub open spec fn length(dx: int, dy: int) -> nat {
    root(capped((dx * dx + dy * dy) as nat))
}

/// The distance of a displacement within the coordinate range.
pub fn vector_length(dx: i64, dy: i64) -> (r: u64)
    requires
        -0xffff_ffff <= dx <= 0xffff_ffff,
        -0xffff_ffff <= dy <= 0xffff_ffff,
    ensures
        r == length(dx as int, dy as int),
        r <= 0xffff_ffff,
{
    let ax: u64 = if dx < 0 { (-dx) as u64 } else { dx as u64 };
    let ay: u64 = if dy < 0 { (-dy) as u64 } else { dy as u64 };
    proof {
        assert(0 <= ax * ax <= 0xffff_ffff * 0xffff_ffff) by (nonlinear_arith)
            requires
                0 <= ax <= 0xffff_ffff,
        ;
        assert(0 <= ay * ay <= 0xffff_ffff * 0xffff_ffff) by (nonlinear_arith)
            requires
                0 <= ay <= 0xffff_ffff,
        ;
        assert(ax * ax == dx * dx) by (nonlinear_arith)
            requires
                ax == dx || ax == -dx,
        ;
        assert(ay * ay == dy * dy) by (nonlinear_arith)
            requires
                ay == dy || ay == -dy,
        ;
    }
    let square: u64 = (ax * ax).saturating_add(ay * ay);
    integer_root(square)
}

/// The sum of the horizontal positions.
pub open spec fn sum_x(contacts: Seq<TouchContact>) -> int
    decreases contacts.len(),
{
    if contacts.len() == 0 {
        0
    } else {
        sum_x(contacts.drop_last()) + contacts.last().x_um
    }
}

/// The sum of the vertical positions.
pub open spec fn sum_y(contacts: Seq<TouchContact>) -> int
    decreases contacts.len(),
{
    if contacts.len() == 0 {
        0
    } else {
        sum_y(contacts.drop_last()) + contacts.last().y_um
    }
}

/// The mean horizontal position, rounded down.
pub open spec fn centre_x(contacts: Seq<TouchContact>) -> int {
    sum_x(contacts) / (contacts.len() as int)
}

/// The mean vertical position, rounded down.
pub open spec fn centre_y(contacts: Seq<TouchContact>) -> int {
    sum_y(contacts) / (contacts.len() as int)
}

/// The sum of the distances from a point.
pub open spec fn sum_distances(contacts: Seq<TouchContact>, x: int, y: int) -> int
    decreases contacts.len(),
{
    if contacts.len() == 0 {
        0
    } else {
        sum_distances(contacts.drop_last(), x, y) + length(
            contacts.last().x_um - x,
            contacts.last().y_um - y,
        )
    }
}

/// The mean distance of the contacts from their centre, rounded down.
pub open spec fn spread_of(contacts: Seq<TouchContact>) -> int {
    sum_distances(contacts, centre_x(contacts), centre_y(contacts)) / (contacts.len() as int)
}

/// The distance between two contacts.
pub open spec fn distance(a: TouchContact, b: TouchContact) -> nat {
    length(b.x_um - a.x_um, b.y_um - a.y_um)
}

/// The centre of two to four contacts.
pub fn centroid(contacts: &Vec<TouchContact>) -> (centre: Point)
    requires
        2 <= contacts@.len() <= 4,
    ensures
        centre.x == centre_x(contacts@),
        centre.y == centre_y(contacts@),
        0 <= centre.x <= 0xffff_ffff,
        0 <= centre.y <= 0xffff_ffff,
{
    let count: i64 = contacts.len() as i64;
    let mut x: i64 = 0;
    let mut y: i64 = 0;
    let mut i: usize = 0;
    while i < contacts.len()
        invariant
            i <= contacts@.len(),
            contacts@.len() <= 4,
            x == sum_x(contacts@.take(i as int)),
            y == sum_y(contacts@.take(i as int)),
            0 <= x <= 0xffff_ffff * i,
            0 <= y <= 0xffff_ffff * i,
        decreases contacts@.len() - i,
    {
        assert(contacts@.take(i + 1).drop_last() =~= contacts@.take(i as int));
        x = x + contacts[i].x_um as i64;
        y = y + contacts[i].y_um as i64;
        i += 1;
    }
    assert(contacts@.take(i as int) =~= contacts@);
    assert(0 <= x / count <= 0xffff_ffff) by (nonlinear_arith)
        requires
            0 <= x <= 0xffff_ffff * count,
            count > 0,
    ;
    assert(0 <= y / count <= 0xffff_ffff) by (nonlinear_arith)
        requires
            0 <= y <= 0xffff_ffff * count,
            count > 0,
    ;
    Point { x: x / count, y: y / count }
}

/// The mean distance of two to four contacts from their centre.
pub fn spread(contacts: &Vec<TouchContact>, centre: Point) -> (r: u64)
    requires
        2 <= contacts@.len() <= 4,
        centre.x == centre_x(contacts@),
        centre.y == centre_y(contacts@),
        0 <= centre.x <= 0xffff_ffff,
        0 <= centre.y <= 0xffff_ffff,
    ensures
        r == spread_of(contacts@),
        r <= 0xffff_ffff,
{
    let count: u64 = contacts.len() as u64;
    let mut sum: u64 = 0;
    let mut i: usize = 0;
    while i < contacts.len()
        invariant
            i <= contacts@.len(),
            contacts@.len() <= 4,
            0 <= centre.x <= 0xffff_ffff,
            0 <= centre.y <= 0xffff_ffff,
            sum == sum_distances(contacts@.take(i as int), centre.x as int, centre.y as int),
            sum <= 0xffff_ffff * i,
        decreases contacts@.len() - i,
    {
        assert(contacts@.take(i + 1).drop_last() =~= contacts@.take(i as int));
        sum = sum + vector_length(
            contacts[i].x_um as i64 - centre.x,
            contacts[i].y_um as i64 - centre.y,
        );
        i += 1;
    }
    assert(contacts@.take(i as int) =~= contacts@);
    assert(0 <= sum / count <= 0xffff_ffff) by (nonlinear_arith)
        requires
            0 <= sum <= 0xffff_ffff * count,
            count > 0,
    ;
    sum / count
}

/// The distance between two contacts.
pub fn contact_distance(a: TouchContact, b: TouchContact) -> (r: u64)
    ensures
        r == distance(a, b),
        r <= 0xffff_ffff,
{
    vector_length(b.x_um as i64 - a.x_um as i64, b.y_um as i64 - a.y_um as i64)
}

proof fn lemma_root_exists(value: nat)
    ensures
        exists|r: nat| is_root(r, value),
    decreases value,
{
    if value == 0 {
        assert(is_root(0, 0)) by (nonlinear_arith);
    } else {
        let less = (value - 1) as nat;
        lemma_root_exists(less);
        let r = choose|r: nat| is_root(r, less);
        if (r + 1) * (r + 1) <= value {
            assert((r + 1) * (r + 1) <= value < (r + 2) * (r + 2)) by (nonlinear_arith)
                requires
                    value - 1 < (r + 1) * (r + 1),
                    (r + 1) * (r + 1) <= value,
            ;
            assert(is_root(r + 1, value));
        } else {
            assert(is_root(r, value));
        }
    }
}

/// A length is the square root of the two squares, rounded down, as long as the
/// squares can be held. It is the same whichever way the displacement goes, and
/// the distance itself along one axis.
pub proof fn law_a_length_is_a_distance(dx: int, dy: int)
    requires
        dx * dx + dy * dy <= u64::MAX,
    ensures
        length(dx, dy) * length(dx, dy) <= dx * dx + dy * dy,
        dx * dx + dy * dy < (length(dx, dy) + 1) * (length(dx, dy) + 1),
        length(-dx, dy) == length(dx, dy),
        length(dx, -dy) == length(dx, dy),
        length(dy, dx) == length(dx, dy),
        dy == 0 && dx >= 0 ==> length(dx, dy) == dx,
{
    assert(dx * dx >= 0 && dy * dy >= 0) by (nonlinear_arith);
    assert((-dx) * (-dx) == dx * dx && (-dy) * (-dy) == dy * dy) by (nonlinear_arith);
    let value = (dx * dx + dy * dy) as nat;
    lemma_root_exists(value);
    assert(is_root(root(value), value));
    assert(capped(value) == value);
    if dy == 0 && dx >= 0 {
        assert(dy * dy == 0) by (nonlinear_arith)
            requires
                dy == 0,
        ;
        assert(is_root(dx as nat, value)) by (nonlinear_arith)
            requires
                value == dx * dx,
                dx >= 0,
        ;
        lemma_root_unique(dx as nat, value);
    }
}

/// Whether the contacts of `after` are those of `before`, each moved by the same.
pub open spec fn moved_by(
    before: Seq<TouchContact>,
    after: Seq<TouchContact>,
    right: int,
    down: int,
) -> bool {
    &&& before.len() == after.len()
    &&& forall|i: int|
        0 <= i < before.len() ==> (#[trigger] after[i]).x_um == before[i].x_um + right
            && after[i].y_um == before[i].y_um + down
}

proof fn lemma_sums_move(
    before: Seq<TouchContact>,
    after: Seq<TouchContact>,
    right: int,
    down: int,
)
    requires
        moved_by(before, after, right, down),
    ensures
        sum_x(after) == sum_x(before) + before.len() * right,
        sum_y(after) == sum_y(before) + before.len() * down,
    decreases before.len(),
{
    if before.len() > 0 {
        assert forall|i: int| 0 <= i < before.len() - 1 implies (
        #[trigger] after.drop_last()[i]).x_um == before.drop_last()[i].x_um + right
            && after.drop_last()[i].y_um == before.drop_last()[i].y_um + down by {
            assert(after.drop_last()[i] == after[i]);
        }
        lemma_sums_move(before.drop_last(), after.drop_last(), right, down);
        assert(after[before.len() - 1] == after.last());
        assert(before.len() * right == (before.len() - 1) * right + right) by (nonlinear_arith);
        assert(before.len() * down == (before.len() - 1) * down + down) by (nonlinear_arith);
    }
}

proof fn lemma_distances_move(
    before: Seq<TouchContact>,
    after: Seq<TouchContact>,
    right: int,
    down: int,
    x: int,
    y: int,
)
    requires
        moved_by(before, after, right, down),
    ensures
        sum_distances(after, x + right, y + down) == sum_distances(before, x, y),
    decreases before.len(),
{
    if before.len() > 0 {
        assert forall|i: int| 0 <= i < before.len() - 1 implies (
        #[trigger] after.drop_last()[i]).x_um == before.drop_last()[i].x_um + right
            && after.drop_last()[i].y_um == before.drop_last()[i].y_um + down by {
            assert(after.drop_last()[i] == after[i]);
        }
        lemma_distances_move(before.drop_last(), after.drop_last(), right, down, x, y);
        assert(after[before.len() - 1] == after.last());
    }
}

/// Moving every finger by the same moves the centre by that, and leaves the
/// spread as it was.
pub proof fn law_moving_all_fingers_moves_the_centre(
    before: Seq<TouchContact>,
    after: Seq<TouchContact>,
    right: int,
    down: int,
)
    requires
        before.len() > 0,
        moved_by(before, after, right, down),
    ensures
        centre_x(after) == centre_x(before) + right,
        centre_y(after) == centre_y(before) + down,
        spread_of(after) == spread_of(before),
{
    let n = before.len() as int;
    lemma_sums_move(before, after, right, down);
    let sx = sum_x(before);
    let sy = sum_y(before);
    assert((sx + n * right) / n == sx / n + right) by (nonlinear_arith)
        requires
            n > 0,
    ;
    assert((sy + n * down) / n == sy / n + down) by (nonlinear_arith)
        requires
            n > 0,
    ;
    lemma_distances_move(before, after, right, down, centre_x(before), centre_y(before));
}

proof fn lemma_sums_of_one_moved(contacts: Seq<TouchContact>, i: int, moved: TouchContact)
    requires
        0 <= i < contacts.len(),
    ensures
        sum_x(contacts.update(i, moved)) == sum_x(contacts) + moved.x_um - contacts[i].x_um,
        sum_y(contacts.update(i, moved)) == sum_y(contacts) + moved.y_um - contacts[i].y_um,
    decreases contacts.len(),
{
    let after = contacts.update(i, moved);
    if i == contacts.len() - 1 {
        assert(after.drop_last() =~= contacts.drop_last());
    } else {
        assert(after.drop_last() =~= contacts.drop_last().update(i, moved));
        lemma_sums_of_one_moved(contacts.drop_last(), i, moved);
    }
}

/// Every finger counts the same for the centre: one of them moved as many times
/// as far as there are fingers moves the centre that far, each way by itself.
pub proof fn law_every_finger_counts_the_same(
    contacts: Seq<TouchContact>,
    i: int,
    moved: TouchContact,
    right: int,
    down: int,
)
    requires
        0 <= i < contacts.len(),
        moved.x_um == contacts[i].x_um + contacts.len() * right,
        moved.y_um == contacts[i].y_um + contacts.len() * down,
    ensures
        centre_x(contacts.update(i, moved)) == centre_x(contacts) + right,
        centre_y(contacts.update(i, moved)) == centre_y(contacts) + down,
{
    let n = contacts.len() as int;
    lemma_sums_of_one_moved(contacts, i, moved);
    let sx = sum_x(contacts);
    let sy = sum_y(contacts);
    assert((sx + n * right) / n == sx / n + right) by (nonlinear_arith)
        requires
            n > 0,
    ;
    assert((sy + n * down) / n == sy / n + down) by (nonlinear_arith)
        requires
            n > 0,
    ;
}

proof fn lemma_equal_distances(contacts: Seq<TouchContact>, x: int, y: int, r: int)
    requires
        forall|i: int|
            0 <= i < contacts.len() ==> length(
                (#[trigger] contacts[i]).x_um - x,
                contacts[i].y_um - y,
            ) == r,
    ensures
        sum_distances(contacts, x, y) == contacts.len() * r,
    decreases contacts.len(),
{
    if contacts.len() > 0 {
        assert forall|i: int| 0 <= i < contacts.len() - 1 implies length(
            (#[trigger] contacts.drop_last()[i]).x_um - x,
            contacts.drop_last()[i].y_um - y,
        ) == r by {
            assert(contacts.drop_last()[i] == contacts[i]);
        }
        lemma_equal_distances(contacts.drop_last(), x, y, r);
        assert(contacts[contacts.len() - 1] == contacts.last());
        assert(contacts.len() * r == (contacts.len() - 1) * r + r) by (nonlinear_arith);
    }
}

proof fn lemma_distances_are_no_less_than_zero(contacts: Seq<TouchContact>, x: int, y: int)
    ensures
        sum_distances(contacts, x, y) >= 0,
    decreases contacts.len(),
{
    if contacts.len() > 0 {
        lemma_distances_are_no_less_than_zero(contacts.drop_last(), x, y);
    }
}

/// Fingers are not spread by less than nothing.
pub proof fn lemma_spread_is_no_less_than_zero(contacts: Seq<TouchContact>)
    requires
        contacts.len() > 0,
    ensures
        spread_of(contacts) >= 0,
{
    let sum = sum_distances(contacts, centre_x(contacts), centre_y(contacts));
    let n = contacts.len() as int;
    lemma_distances_are_no_less_than_zero(contacts, centre_x(contacts), centre_y(contacts));
    assert(sum / n >= 0) by (nonlinear_arith)
        requires
            sum >= 0,
            n > 0,
    ;
}

/// Fingers that are all as far from their centre are spread by that distance.
/// Two fingers side by side are spread by half of what is between them.
pub proof fn law_the_spread_is_the_distance_from_the_centre(contacts: Seq<TouchContact>, r: int)
    requires
        contacts.len() > 0,
    ensures
        (forall|i: int|
            0 <= i < contacts.len() ==> length(
                (#[trigger] contacts[i]).x_um - centre_x(contacts),
                contacts[i].y_um - centre_y(contacts),
            ) == r) ==> spread_of(contacts) == r,
        contacts.len() == 2 && contacts[0].y_um == contacts[1].y_um && contacts[1].x_um
            == contacts[0].x_um + 2 * r && r >= 0 ==> spread_of(contacts) == r,
{
    let n = contacts.len() as int;
    assert(n * r / n == r) by (nonlinear_arith)
        requires
            n > 0,
    ;
    if forall|i: int|
        0 <= i < contacts.len() ==> length(
            (#[trigger] contacts[i]).x_um - centre_x(contacts),
            contacts[i].y_um - centre_y(contacts),
        ) == r {
        lemma_equal_distances(contacts, centre_x(contacts), centre_y(contacts), r);
    }
    if contacts.len() == 2 && contacts[0].y_um == contacts[1].y_um && contacts[1].x_um
        == contacts[0].x_um + 2 * r && r >= 0 {
        reveal_with_fuel(sum_x, 3);
        reveal_with_fuel(sum_y, 3);
        let one = contacts.drop_last();
        assert(one.len() == 1 && one.last() == contacts[0]);
        assert(one.drop_last().len() == 0);
        assert(sum_x(one) == contacts[0].x_um && sum_y(one) == contacts[0].y_um);
        assert(sum_x(contacts) == 2 * (contacts[0].x_um + r));
        assert(sum_y(contacts) == 2 * contacts[0].y_um);
        let mx = contacts[0].x_um + r;
        let my = contacts[0].y_um as int;
        assert((2 * mx) / n == mx && (2 * my) / n == my) by (nonlinear_arith)
            requires
                n == 2,
        ;
        assert(centre_x(contacts) == contacts[0].x_um + r);
        assert(centre_y(contacts) == contacts[0].y_um);
        assert(r * r + 0 * 0 <= u64::MAX) by (nonlinear_arith)
            requires
                0 <= r,
                2 * r <= 0xffff_ffff,
        ;
        law_a_length_is_a_distance(r, 0);
        assert(length(-r, 0) == r);
        assert forall|i: int| 0 <= i < contacts.len() implies length(
            (#[trigger] contacts[i]).x_um - centre_x(contacts),
            contacts[i].y_um - centre_y(contacts),
        ) == r by {
            assert(i == 0 || i == 1);
        }
        lemma_equal_distances(contacts, centre_x(contacts), centre_y(contacts), r);
    }
}

}
