use tower_world::flood::{bubble, group};
use tower_world::id::{TowerId, CHUNK_SIZE};
use tower_world::integer_sqrt;

#[test]
fn distance() {
    assert_eq!(TowerId::new(5, 10).distance(TowerId::new(15, 10)), 49);
    assert_eq!(TowerId::new(5, 10).distance(TowerId::new(15, 11)), 49);
}

#[test]
fn test_integer_sqrt() {
    assert_eq!(integer_sqrt(u64::MAX), u32::MAX);

    fn test_isqrt(i: u64) {
        assert_eq!(integer_sqrt(i), (i as f32).sqrt() as u32);
    }

    for i in 0..100000 {
        test_isqrt(i);
    }

    for i in u32::MAX as u64 - 10000..u32::MAX as u64 - 1000 {
        test_isqrt(i);
    }
}

#[test]
fn integer_sqrt_is_monotone() {
    let mut prev = 0;
    for i in 0..2000u64 {
        let r = integer_sqrt(i);
        assert!(r >= prev);
        prev = r;
        assert!((r as u64) * (r as u64) <= i);
        assert!(i < (r as u64 + 1) * (r as u64 + 1));
    }
}

#[test]
fn neighbors_interior_and_corner() {
    let mid = TowerId::new(100, 100);
    let nbrs = mid.neighbors();
    assert_eq!(nbrs.len(), 8);
    for n in &nbrs {
        assert!(n.distance_squared(mid) <= 2);
        assert!(*n != mid);
    }
    let corner = TowerId::new(0, 0);
    assert_eq!(corner.neighbors().len(), 3);
}

#[test]
fn split_into_chunks() {
    let id = TowerId::new(130, 70);
    let (chunk, rel) = id.split();
    assert_eq!(chunk.x, 2);
    assert_eq!(chunk.y, 1);
    assert_eq!(rel.x, (130 % CHUNK_SIZE) as u8);
    assert_eq!(rel.y, (70 % CHUNK_SIZE) as u8);
}

#[test]
fn connectivity_walks_to_center() {
    let mut id = TowerId::new(500, 520);
    let mut steps = 0;
    while let Some(next) = id.connectivity_id() {
        id = next;
        steps += 1;
        assert!(steps < 100);
    }
    assert_eq!(id, TowerId::new(512, 512));
    assert!(TowerId::new(512, 512).connectivity().is_none());
}

#[test]
fn bubble_visits_exact_disc() {
    let origin = TowerId::new(200, 200);
    let cells = bubble(origin, 2);
    // The full disc of squared radius 4 around an interior cell.
    assert_eq!(cells.len(), 13);
    for c in &cells {
        assert!(c.distance_squared(origin) <= 4);
    }
    for dx in -2i32..=2 {
        for dy in -2i32..=2 {
            if dx * dx + dy * dy <= 4 {
                let id = TowerId::new((200 + dx) as u16, (200 + dy) as u16);
                assert!(cells.contains(&id));
            }
        }
    }
    let mut sorted: Vec<(u16, u16)> = cells.iter().map(|c| (c.x, c.y)).collect();
    sorted.sort();
    sorted.dedup();
    assert_eq!(sorted.len(), cells.len());
}

#[test]
fn group_buckets_by_chunk() {
    let ids = vec![
        TowerId::new(1, 1),
        TowerId::new(2, 1),
        TowerId::new(100, 1),
        TowerId::new(1, 100),
    ];
    let buckets = group(&ids);
    assert_eq!(buckets.len(), 3);
    for (chunk, rels) in &buckets {
        assert!(!rels.is_empty());
        for other in &buckets {
            if other.0 == *chunk {
                assert_eq!(other.1, *rels);
            }
        }
    }
    let total: usize = buckets.iter().map(|(_, rels)| rels.len()).sum();
    assert_eq!(total, 4);
}

#[test]
fn deterministic_cell_types() {
    let a = TowerId::new(123, 456).tower_type();
    let b = TowerId::new(123, 456).tower_type();
    assert_eq!(a, b);
    assert!(a.downgrade().is_none());
}
