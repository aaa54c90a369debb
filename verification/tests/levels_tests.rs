use xmahjong::levels::{face_pool_for_level, tiles_for_level};

#[test]
fn tiles_follow_ten_level_cycle() {
    let expected = [36, 48, 60, 72, 84, 96, 108, 120, 132, 144];
    for level in 1..=50u32 {
        assert_eq!(tiles_for_level(level), expected[((level - 1) % 10) as usize]);
    }
    assert_eq!(tiles_for_level(51), 144);
    assert_eq!(tiles_for_level(1000), 144);
    for level in 1..=1000u32 {
        assert_eq!(tiles_for_level(level) % 4, 0);
    }
}

#[test]
fn face_pool_penguin_phase() {
    let pool = face_pool_for_level(1);
    assert_eq!(pool, (0u8..50).collect::<Vec<u8>>());
    assert_eq!(face_pool_for_level(10), pool);
}

#[test]
fn face_pool_dog_phase() {
    assert_eq!(face_pool_for_level(11).len(), 60);
    assert_eq!(face_pool_for_level(14).len(), 90);
    let pool = face_pool_for_level(15);
    assert_eq!(pool, (0u8..100).collect::<Vec<u8>>());
    assert_eq!(face_pool_for_level(20), pool);
}

#[test]
fn face_pool_space_phase_sizes() {
    let sizes = [(21, 100, 33, 34), (22, 103, 34, 35), (24, 110, 36, 38), (30, 131, 43, 45), (50, 200, 66, 68)];
    for (level, size, per_set, space) in sizes {
        let pool = face_pool_for_level(level);
        assert_eq!(pool.len(), size);
        assert!(pool[..per_set].iter().all(|&f| f < 50));
        assert!(pool[per_set..2 * per_set].iter().all(|&f| (50..100).contains(&f)));
        assert_eq!(pool[2 * per_set..].len(), space);
        assert!(pool[2 * per_set..].iter().all(|&f| (100..150).contains(&f)));
    }
    assert_eq!(face_pool_for_level(50)[49], 49);
    assert_eq!(face_pool_for_level(50)[50], 0);
}

#[test]
fn face_pool_endgame_equals_level_50() {
    let fifty = face_pool_for_level(50);
    for level in 51..=100 {
        assert_eq!(face_pool_for_level(level), fifty);
    }
}

#[test]
fn face_pool_grandmaster_balanced() {
    let pool = face_pool_for_level(101);
    assert_eq!(pool, (0u8..200).collect::<Vec<u8>>());
    assert_eq!(face_pool_for_level(1000), pool);
}
