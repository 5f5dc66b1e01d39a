use vstd::prelude::*;
use rand::rngs::StdRng;
use crate::random::{draw_below, shuffle_stops};

verus! {

/// A square matrix whose rows and columns are indexed by city.
pub open spec fn square(matrix: Seq<Vec<u32>>) -> bool {
    forall|a: int| 0 <= a < matrix.len() ==> (#[trigger] matrix[a])@.len() == matrix.len()
}

/// Every stop of the route names a city of the matrix.
pub open spec fn stops_in(route: Seq<usize>, n: int) -> bool {
    forall|i: int| 0 <= i < route.len() ==> #[trigger] route[i] < n
}

/// Distance from the `i`-th stop to the `i + 1`-th.
pub open spec fn leg(route: Seq<usize>, matrix: Seq<Vec<u32>>, i: int) -> int {
    matrix[route[i] as int]@[route[i + 1] as int] as int
}

/// Length of the path through the first `k + 1` stops.
pub open spec fn path_length(route: Seq<usize>, matrix: Seq<Vec<u32>>, k: int) -> int
    decreases k,
{
    if k <= 0 {
        0
    } else {
        path_length(route, matrix, k - 1) + leg(route, matrix, k - 1)
    }
}

/// Length of the closed tour: through every stop in order, then back from
/// the last stop to the first.
pub open spec fn tour_length(route: Seq<usize>, matrix: Seq<Vec<u32>>) -> int {
    path_length(route, matrix, route.len() - 1) + matrix[route[route.len() - 1] as int]@[route[0] as int]
}

/// The length of the closed tour that visits the route's stops in order and
/// returns to the first.
pub fn route_length(route: &[usize], matrix: &Vec<Vec<u32>>) -> (r: u64)
    requires
        0 < route@.len() <= u32::MAX,
        square(matrix@),
        stops_in(route@, matrix@.len() as int),
    ensures
        r == tour_length(route@, matrix@),
{
    let n = route.len();
    let mut length: u64 = 0;
    let mut i: usize = 0;
    while i < n - 1
        invariant
            n == route@.len(),
            0 < n <= u32::MAX,
            square(matrix@),
            stops_in(route@, matrix@.len() as int),
            i <= n - 1,
            length == path_length(route@, matrix@, i as int),
            length <= i * (u32::MAX as int),
        decreases n - 1 - i,
    {
        let a = route[i];
        let b = route[i + 1];
        assert(matrix@[a as int]@.len() == matrix@.len());
        let d = matrix[a][b];
        assert((i + 1) * (u32::MAX as int) == i * (u32::MAX as int) + u32::MAX) by (nonlinear_arith);
        length = length + d as u64;
        i += 1;
    }
    let last = route[n - 1];
    assert(matrix@[last as int]@.len() == matrix@.len());
    assert((n - 1) * (u32::MAX as int) <= (u32::MAX as int) * (u32::MAX as int)) by (nonlinear_arith)
        requires
            n <= u32::MAX,
    ;
    length + matrix[last][route[0]] as u64
}

/// `after` is `before` with the stops from index `i` to index `j`, both
/// included, in reverse order.
pub open spec fn reversed_between(before: Seq<usize>, after: Seq<usize>, i: int, j: int) -> bool {
    &&& after.len() == before.len()
    &&& forall|k: int| 0 <= k < before.len() ==> #[trigger] after[k] == if i <= k <= j {
        before[i + j - k]
    } else {
        before[k]
    }
}

/// Reverses the stops from index `i` to index `j`, both included, and leaves
/// the others in place.
pub fn reverse_segment(route: &mut Vec<usize>, i: usize, j: usize)
    requires
        i <= j < old(route)@.len(),
    ensures
        reversed_between(old(route)@, final(route)@, i as int, j as int),
        final(route)@.to_multiset() == old(route)@.to_multiset(),
{
    let mut a: usize = i;
    let mut b: usize = j;
    while a < b
        invariant
            i <= a,
            b <= j < route@.len(),
            a + b == i + j,
            a <= b + 1,
            route@.len() == old(route)@.len(),
            route@.to_multiset() == old(route)@.to_multiset(),
            forall|k: int| 0 <= k < route@.len() ==> #[trigger] route@[k] == if (i <= k < a || b < k <= j) {
                old(route)@[i + j - k]
            } else {
                old(route)@[k]
            },
        decreases b + 1 - a,
    {
        let x = route[a];
        let y = route[b];
        let ghost s0 = route@;
        route.set(a, y);
        let ghost s1 = route@;
        route.set(b, x);
        proof {
            broadcast use vstd::seq_lib::group_to_multiset_ensures, vstd::multiset::group_multiset_axioms;
            assert(s1 == s0.update(a as int, y));
            assert(route@ == s1.update(b as int, x));
            assert(s0.contains(x) && s0.contains(y));
            assert(s0.to_multiset().count(x) > 0);
            assert(s0.to_multiset().count(y) > 0);
            assert(route@.to_multiset() =~= s0.to_multiset());
        }
        a += 1;
        b -= 1;
    }
    assert forall|k: int| 0 <= k < old(route)@.len() implies #[trigger] route@[k] == if i <= k <= j {
        old(route)@[i + j - k]
    } else {
        old(route)@[k]
    } by {
        if a == b && k == a {
            assert(i + j - k == k);
        }
    }
}

/// Inversion mutation: reverses the segment between two stops drawn
/// uniformly from the route (the pair ordered so the first is not after the
/// second). The route keeps its stops, some reversed.
pub fn mutate(route: &mut Vec<usize>, rng: &mut StdRng)
    requires
        old(route)@.len() > 0,
    ensures
        final(route)@.len() == old(route)@.len(),
        final(route)@.to_multiset() == old(route)@.to_multiset(),
        exists|i: int, j: int| 0 <= i <= j < old(route)@.len() && #[trigger] reversed_between(
            old(route)@,
            final(route)@,
            i,
            j,
        ),
{
    let n = route.len();
    let mut a = draw_below(rng, n);
    let mut b = draw_below(rng, n);
    if a > b {
        let t = a;
        a = b;
        b = t;
    }
    reverse_segment(route, a, b);
    assert(0 <= a <= b < n);
}

/// Shortest distance between two distinct cities of a generated matrix.
pub const MIN_DIST: u32 = 10;
/// Longest distance between two distinct cities of a generated matrix.
pub const MAX_DIST: u32 = 100;

/// The distance that a generated matrix holds between cities `a` and `b`,
/// given the draws for each city and the cities after it.
pub open spec fn from_upper(upper: Seq<Vec<u32>>, a: int, b: int) -> int {
    if a < b {
        upper[a]@[b - a - 1] as int
    } else if b < a {
        upper[b]@[a - b - 1] as int
    } else {
        0
    }
}

/// A random symmetric distance matrix over `n` cities: zero from a city to
/// itself, and a distance drawn uniformly from `MIN_DIST..=MAX_DIST` for
/// each pair of distinct cities.
pub fn generate_distance_matrix(n: usize, rng: &mut StdRng) -> (m: Vec<Vec<u32>>)
    ensures
        m@.len() == n,
        square(m@),
        forall|a: int, b: int| 0 <= a < n && 0 <= b < n ==> #[trigger] m@[a]@[b] == m@[b]@[a],
        forall|a: int| 0 <= a < n ==> #[trigger] m@[a]@[a] == 0,
        forall|a: int, b: int| 0 <= a < n && 0 <= b < n && a != b ==> MIN_DIST <= #[trigger] m@[a]@[b]
            <= MAX_DIST,
{
    let mut upper: Vec<Vec<u32>> = Vec::new();
    let mut i: usize = 0;
    while i < n
        invariant
            i <= n,
            upper@.len() == i,
            forall|a: int| 0 <= a < i ==> (#[trigger] upper@[a])@.len() == n - a - 1,
            forall|a: int, c: int| 0 <= a < i && 0 <= c < n - a - 1 ==> MIN_DIST <= #[trigger] upper@[a]@[c]
                <= MAX_DIST,
        decreases n - i,
    {
        let mut row: Vec<u32> = Vec::new();
        let mut j: usize = i + 1;
        while j < n
            invariant
                i < n,
                i + 1 <= j <= n,
                row@.len() == j - i - 1,
                forall|c: int| 0 <= c < row@.len() ==> MIN_DIST <= #[trigger] row@[c] <= MAX_DIST,
            decreases n - j,
        {
            let d = MIN_DIST + draw_below(rng, (MAX_DIST - MIN_DIST + 1) as usize) as u32;
            row.push(d);
            j += 1;
        }
        upper.push(row);
        i += 1;
    }
    let mut m: Vec<Vec<u32>> = Vec::new();
    let mut a: usize = 0;
    while a < n
        invariant
            a <= n,
            upper@.len() == n,
            forall|x: int| 0 <= x < n ==> (#[trigger] upper@[x])@.len() == n - x - 1,
            m@.len() == a,
            forall|x: int| 0 <= x < a ==> (#[trigger] m@[x])@.len() == n,
            forall|x: int, y: int| 0 <= x < a && 0 <= y < n ==> #[trigger] m@[x]@[y] == from_upper(upper@, x, y),
        decreases n - a,
    {
        let mut row: Vec<u32> = Vec::new();
        let mut b: usize = 0;
        while b < n
            invariant
                a < n,
                b <= n,
                upper@.len() == n,
                forall|x: int| 0 <= x < n ==> (#[trigger] upper@[x])@.len() == n - x - 1,
                row@.len() == b,
                forall|y: int| 0 <= y < b ==> #[trigger] row@[y] == from_upper(upper@, a as int, y),
            decreases n - b,
        {
            let d = if a < b {
                assert(upper@[a as int]@.len() == n - a - 1);
                upper[a][b - a - 1]
            } else if b < a {
                assert(upper@[b as int]@.len() == n - b - 1);
                upper[b][a - b - 1]
            } else {
                0
            };
            row.push(d);
            b += 1;
        }
        m.push(row);
        a += 1;
    }
    assert forall|x: int, y: int| 0 <= x < n && 0 <= y < n && x != y implies MIN_DIST <= #[trigger] m@[x]@[y]
        <= MAX_DIST by {
        if x < y {
            assert(upper@[x]@.len() == n - x - 1);
        } else {
            assert(upper@[y]@.len() == n - y - 1);
        }
    }
    m
}

/// A route through the cities `0..n`, each once, in a random order.
pub fn random_tour(n: usize, rng: &mut StdRng) -> (r: Vec<usize>)
    ensures
        r@.len() == n,
        r@.to_multiset() == Seq::new(n as nat, |i: int| i as usize).to_multiset(),
        stops_in(r@, n as int),
{
    let mut route: Vec<usize> = Vec::new();
    let mut i: usize = 0;
    while i < n
        invariant
            i <= n,
            route@ == Seq::new(i as nat, |k: int| k as usize),
        decreases n - i,
    {
        route.push(i);
        assert(route@ =~= Seq::new((i + 1) as nat, |k: int| k as usize));
        i += 1;
    }
    let ghost ordered = route@;
    shuffle_stops(&mut route, rng);
    assert forall|k: int| 0 <= k < route@.len() implies #[trigger] route@[k] < n by {
        broadcast use vstd::seq_lib::group_to_multiset_ensures;
        assert(route@.contains(route@[k]));
        assert(route@.to_multiset().count(route@[k]) > 0);
        assert(ordered.contains(route@[k]));
    }
    route
}

/// Copies a route.
fn copy_route(route: &Vec<usize>) -> (r: Vec<usize>)
    ensures
        r@ == route@,
{
    let mut r: Vec<usize> = Vec::new();
    let mut i: usize = 0;
    while i < route.len()
        invariant
            i <= route@.len(),
            r@ == route@.subrange(0, i as int),
        decreases route@.len() - i,
    {
        r.push(route[i]);
        i += 1;
    }
    assert(r@ =~= route@);
    r
}

/// Hill climbing on a tour for `epochs` rounds: each round a copy of the
/// route gets an inversion mutation and replaces the route when its tour is
/// strictly shorter. Returns the final tour length, which is never longer
/// than the starting one.
pub fn improve(route: &mut Vec<usize>, matrix: &Vec<Vec<u32>>, epochs: usize, rng: &mut StdRng) -> (r: u64)
    requires
        0 < old(route)@.len() <= u32::MAX,
        square(matrix@),
        stops_in(old(route)@, matrix@.len() as int),
    ensures
        final(route)@.len() == old(route)@.len(),
        final(route)@.to_multiset() == old(route)@.to_multiset(),
        stops_in(final(route)@, matrix@.len() as int),
        r == tour_length(final(route)@, matrix@),
        r <= tour_length(old(route)@, matrix@),
{
    let mut length = route_length(route.as_slice(), matrix);
    let mut epoch: usize = 0;
    while epoch < epochs
        invariant
            route@.len() == old(route)@.len(),
            route@.to_multiset() == old(route)@.to_multiset(),
            0 < route@.len() <= u32::MAX,
            square(matrix@),
            stops_in(route@, matrix@.len() as int),
            length == tour_length(route@, matrix@),
            length <= tour_length(old(route)@, matrix@),
            epoch <= epochs,
        decreases epochs - epoch,
    {
        let mut child = copy_route(route);
        mutate(&mut child, rng);
        assert forall|k: int| 0 <= k < child@.len() implies #[trigger] child@[k] < matrix@.len() by {
            let (a, b) = choose|a: int, b: int| 0 <= a <= b < route@.len() && #[trigger] reversed_between(
                route@,
                child@,
                a,
                b,
            );
            if a <= k <= b {
                assert(route@[a + b - k] < matrix@.len());
            } else {
                assert(route@[k] < matrix@.len());
            }
        }
        let child_length = route_length(child.as_slice(), matrix);
        if child_length < length {
            *route = child;
            length = child_length;
        }
        epoch += 1;
    }
    length
}

} // verus!
