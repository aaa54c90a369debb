//! Level system: how many tiles a level places and which tile faces it may draw.
//!
//! Face identifiers are grouped in four packs of fifty:
//! penguins (0-49), dogs (50-99), space (100-149) and ocean (150-199).

use vstd::prelude::*;

verus! {

/// Tile count of a level: a ten-level ramp 36, 48, ..., 144 repeated through
/// level 50, then always the full board of 144 tiles.
pub open spec fn spec_tiles_for_level(level: u32) -> int {
    if level >= 51 {
        144
    } else {
        36 + 12 * ((level - 1) % 10)
    }
}

/// Returns the number of tiles to place for a given level (1-1000).
/// Levels 1-50 follow the ten-level cycle 36, 48, 60, ..., 144;
/// levels from 51 on always use 144.
pub fn tiles_for_level(level: u32) -> (tiles: usize)
    requires
        level >= 1,
    ensures
        tiles == spec_tiles_for_level(level),
{
    if level >= 51 {
        return 144;
    }
    let effective = ((level - 1) % 10) + 1;
    match effective {
        1 => 36,
        2 => 48,
        3 => 60,
        4 => 72,
        5 => 84,
        6 => 96,
        7 => 108,
        8 => 120,
        9 => 132,
        _ => 144,
    }
}

/// `n` consecutive faces of the pack that starts at `base`, wrapping within the pack.
pub open spec fn pack_run(base: int, n: int) -> Seq<u8> {
    Seq::new(n as nat, |i: int| (base + i % 50) as u8)
}

/// Number of dog styles (ten faces each) mixed in at a level of the dog phase.
pub open spec fn dog_styles(level: u32) -> int {
    if level - 10 < 5 { level - 10 } else { 5 }
}

/// Pool size in the space and endgame phases: grows linearly from 100 at level 21
/// to 200 at level 50 and stays there.
pub open spec fn space_pool_size(level: u32) -> int {
    let effective: int = if level < 50 { level as int } else { 50 };
    100 + ((effective - 21) * 100) / 29
}

/// The face pool of a level, phase by phase.
pub open spec fn spec_face_pool(level: u32) -> Seq<u8> {
    if level <= 10 {
        pack_run(0, 50)
    } else if level <= 20 {
        pack_run(0, 50) + Seq::new((10 * dog_styles(level)) as nat, |i: int| (50 + i) as u8)
    } else if level <= 100 {
        let size = space_pool_size(level);
        let per_set = size / 3;
        pack_run(0, per_set) + pack_run(50, per_set) + pack_run(100, size - 2 * per_set)
    } else {
        pack_run(0, 50) + pack_run(50, 50) + pack_run(100, 50) + pack_run(150, 50)
    }
}

/// Appends `n` faces of the pack starting at `base` (wrapping within the pack) to `pool`.
fn push_pack_run(pool: &mut Vec<u8>, base: u8, n: usize)
    requires
        base as int + 50 <= 256,
    ensures
        final(pool)@ == old(pool)@ + pack_run(base as int, n as int),
{
    let ghost start = old(pool)@;
    let mut i: usize = 0;
    while i < n
        invariant
            i <= n,
            base as int + 50 <= 256,
            pool@ == start + pack_run(base as int, i as int),
        decreases n - i,
    {
        let face: u8 = base + (i % 50) as u8;
        pool.push(face);
        i = i + 1;
        assert(pool@ =~= start + pack_run(base as int, i as int));
    }
}

/// Returns the face pool for a given level (1-1000).
/// - Levels 1-10: penguin faces 0-49 only.
/// - Levels 11-20: all penguins plus one more dog style (ten faces) per level
///   from level 11, up to all five styles from level 15.
/// - Levels 21-100: penguins, dogs and space faces; the pool grows linearly
///   from 100 (level 21) to 200 (level 50 and after), split as
///   floor(size/3) penguin, floor(size/3) dog and the remainder space.
/// - Levels 101 and up: fifty faces of each of the four packs.
pub fn face_pool_for_level(level: u32) -> (pool: Vec<u8>)
    ensures
        pool@ == spec_face_pool(level),
{
    let mut pool: Vec<u8> = Vec::new();
    if level <= 10 {
        push_pack_run(&mut pool, 0, 50);
        assert(pool@ =~= spec_face_pool(level));
        pool
    } else if level <= 20 {
        let dog_count: usize = if level - 10 < 5 { (level - 10) as usize } else { 5 };
        push_pack_run(&mut pool, 0, 50);
        let ghost penguins = pool@;
        let mut s: usize = 0;
        while s < dog_count
            invariant
                s <= dog_count,
                dog_count <= 5,
                dog_count == dog_styles(level),
                pool@ == penguins + Seq::new((10 * s) as nat, |i: int| (50 + i) as u8),
            decreases dog_count - s,
        {
            let start: u8 = 50 + (s as u8) * 10;
            let end: u8 = start + 10;
            let mut face_id: u8 = start;
            while face_id < end
                invariant
                    start == 50 + 10 * s,
                    end == start + 10,
                    s < dog_count,
                    dog_count <= 5,
                    start <= face_id <= end,
                    pool@ == penguins + Seq::new((face_id - 50) as nat, |i: int| (50 + i) as u8),
                decreases end - face_id,
            {
                pool.push(face_id);
                face_id = face_id + 1;
                assert(pool@ =~= penguins + Seq::new((face_id - 50) as nat, |i: int| (50 + i) as u8));
            }
            s = s + 1;
        }
        assert(pool@ =~= spec_face_pool(level));
        pool
    } else if level <= 100 {
        let effective_level: u32 = if level < 50 { level } else { 50 };
        let pool_size: usize = 100 + ((effective_level - 21) as usize * 100) / 29;
        let per_set: usize = pool_size / 3;
        let remainder: usize = pool_size - per_set * 2;
        assert(pool_size == space_pool_size(level));
        push_pack_run(&mut pool, 0, per_set);
        push_pack_run(&mut pool, 50, per_set);
        push_pack_run(&mut pool, 100, remainder);
        assert(pool@ =~= spec_face_pool(level));
        pool
    } else {
        push_pack_run(&mut pool, 0, 50);
        push_pack_run(&mut pool, 50, 50);
        push_pack_run(&mut pool, 100, 50);
        push_pack_run(&mut pool, 150, 50);
        assert(pool@ =~= spec_face_pool(level));
        pool
    }
}

/// Every level places a whole number of face quadruples (each face appears four
/// times, forming two matchable pairs), between 36 and 144 tiles.
pub proof fn lemma_tiles_multiple_of_four(level: u32)
    requires
        level >= 1,
    ensures
        spec_tiles_for_level(level) % 4 == 0,
        36 <= spec_tiles_for_level(level) <= 144,
{
}

/// Through level 50 the tile count repeats every ten levels, each ten-level
/// block ending on the full board; from level 51 on the board is always full.
pub proof fn lemma_tiles_cycle(level: u32)
    requires
        level >= 1,
    ensures
        level + 10 <= 50 ==> spec_tiles_for_level((level + 10) as u32) == spec_tiles_for_level(level),
        level <= 50 && level % 10 == 0 ==> spec_tiles_for_level(level) == 144,
        level >= 51 ==> spec_tiles_for_level(level) == 144,
        level <= 50 ==> spec_tiles_for_level(level) == 36 + 12 * ((level - 1) % 10),
{
}

/// Faces come from the packs of the level's phase: penguins only through level 10,
/// penguins and dogs through level 20, penguins, dogs and space through level 100,
/// and all four packs (ids below 200) after that.
pub proof fn lemma_face_pool_packs(level: u32, i: int)
    requires
        0 <= i < spec_face_pool(level).len(),
    ensures
        spec_face_pool(level)[i] < 200,
        level <= 10 ==> spec_face_pool(level)[i] < 50,
        level <= 20 ==> spec_face_pool(level)[i] < 100,
        level <= 100 ==> spec_face_pool(level)[i] < 150,
{
    let pool = spec_face_pool(level);
    if level <= 10 {
    } else if level <= 20 {
        let dogs = Seq::new((10 * dog_styles(level)) as nat, |k: int| (50 + k) as u8);
        assert(pool == pack_run(0, 50) + dogs);
        if i >= 50 {
            assert(pool[i] == dogs[i - 50]);
        }
    } else if level <= 100 {
        let size = space_pool_size(level);
        let per_set = size / 3;
        assert(100 <= size <= 200);
        let a = pack_run(0, per_set);
        let b = pack_run(50, per_set);
        let c = pack_run(100, size - 2 * per_set);
        assert(pool == a + b + c);
        if i < per_set {
            assert(pool[i] == a[i]);
        } else if i < 2 * per_set {
            assert(pool[i] == b[i - per_set]);
        } else {
            assert(pool[i] == c[i - 2 * per_set]);
        }
    } else {
        let a = pack_run(0, 50);
        let b = pack_run(50, 50);
        let c = pack_run(100, 50);
        let d = pack_run(150, 50);
        assert(pool == a + b + c + d);
        if i < 50 {
            assert(pool[i] == a[i]);
        } else if i < 100 {
            assert(pool[i] == b[i - 50]);
        } else if i < 150 {
            assert(pool[i] == c[i - 100]);
        } else {
            assert(pool[i] == d[i - 150]);
        }
    }
}

/// The pool holds 50 faces through level 10, ten more per dog style through
/// level 20, grows from 100 (level 21) to 200 (level 50), and holds 200 after that.
pub proof fn lemma_face_pool_size(level: u32)
    ensures
        level <= 10 ==> spec_face_pool(level).len() == 50,
        11 <= level <= 15 ==> spec_face_pool(level).len() == 50 + 10 * (level - 10),
        16 <= level <= 20 ==> spec_face_pool(level).len() == 100,
        level == 21 ==> spec_face_pool(level).len() == 100,
        50 <= level <= 100 ==> spec_face_pool(level).len() == 200,
        21 <= level <= 100 ==> 100 <= spec_face_pool(level).len() <= 200,
        level >= 101 ==> spec_face_pool(level).len() == 200,
{
    if 21 <= level <= 100 {
        let size = space_pool_size(level);
        assert(100 <= size <= 200);
    }
}

/// Levels 51-100 draw from the same pool as level 50.
pub proof fn lemma_endgame_pool_fixed(level: u32)
    requires
        51 <= level <= 100,
    ensures
        spec_face_pool(level) == spec_face_pool(50),
{
}

/// From level 101 on, the pool is balanced over the four packs: each face id
/// 0-199 appears exactly once, at its own position.
pub proof fn lemma_grandmaster_pool_balanced(level: u32)
    requires
        level >= 101,
    ensures
        spec_face_pool(level) == Seq::new(200, |i: int| i as u8),
{
    let pool = spec_face_pool(level);
    let a = pack_run(0, 50);
    let b = pack_run(50, 50);
    let c = pack_run(100, 50);
    let d = pack_run(150, 50);
    assert(pool == a + b + c + d);
    assert forall|i: int| 0 <= i < 200 implies pool[i] == i as u8 by {
        if i < 50 {
            assert(pool[i] == a[i]);
        } else if i < 100 {
            assert(pool[i] == b[i - 50]);
        } else if i < 150 {
            assert(pool[i] == c[i - 100]);
        } else {
            assert(pool[i] == d[i - 150]);
        }
    }
    assert(pool =~= Seq::new(200, |i: int| i as u8));
}

} // verus!
