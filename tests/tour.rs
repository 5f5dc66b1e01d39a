use knapsack_evolutionary::tour::{
    generate_distance_matrix, improve, mutate, random_tour, reverse_segment, route_length, MAX_DIST, MIN_DIST,
};
use rand::rngs::StdRng;
use rand::SeedableRng;

#[test]
fn route_length_closes_the_tour() {
    let m = vec![vec![0, 1, 4], vec![1, 0, 2], vec![4, 2, 0]];
    assert_eq!(route_length(&[0, 1, 2], &m), 7);
    assert_eq!(route_length(&[2, 0], &m), 8);
    assert_eq!(route_length(&[1], &m), 0);
}

#[test]
fn reverse_segment_inverts_inclusive_range() {
    let mut r = vec![0, 1, 2, 3, 4, 5];
    reverse_segment(&mut r, 1, 4);
    assert_eq!(r, vec![0, 4, 3, 2, 1, 5]);
    reverse_segment(&mut r, 2, 2);
    assert_eq!(r, vec![0, 4, 3, 2, 1, 5]);
}

#[test]
fn inversion_keeps_the_cities() {
    let mut rng = StdRng::seed_from_u64(21);
    let mut r: Vec<usize> = (0..20).collect();
    let mut changed = false;
    for _ in 0..10 {
        mutate(&mut r, &mut rng);
        let mut s = r.clone();
        s.sort();
        assert_eq!(s, (0..20).collect::<Vec<usize>>());
        changed |= r != (0..20).collect::<Vec<usize>>();
    }
    assert!(changed);
}

#[test]
fn generated_matrix_is_symmetric_and_bounded() {
    let mut rng = StdRng::seed_from_u64(22);
    let m = generate_distance_matrix(12, &mut rng);
    assert_eq!(m.len(), 12);
    for a in 0..12 {
        assert_eq!(m[a].len(), 12);
        assert_eq!(m[a][a], 0);
        for b in 0..12 {
            assert_eq!(m[a][b], m[b][a]);
            if a != b {
                assert!(MIN_DIST <= m[a][b] && m[a][b] <= MAX_DIST);
            }
        }
    }
}

#[test]
fn random_tour_visits_each_city_once() {
    let mut rng = StdRng::seed_from_u64(23);
    let mut r = random_tour(30, &mut rng);
    assert_eq!(r.len(), 30);
    r.sort();
    assert_eq!(r, (0..30).collect::<Vec<usize>>());
}

#[test]
fn improve_never_lengthens_the_tour() {
    let mut rng = StdRng::seed_from_u64(24);
    let m = generate_distance_matrix(15, &mut rng);
    let mut route = random_tour(15, &mut rng);
    let start = route_length(&route, &m);
    let end = improve(&mut route, &m, 2000, &mut rng);
    assert!(end <= start);
    assert_eq!(end, route_length(&route, &m));
    let mut s = route.clone();
    s.sort();
    assert_eq!(s, (0..15).collect::<Vec<usize>>());
}
