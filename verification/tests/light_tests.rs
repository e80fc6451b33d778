use std::collections::VecDeque;
use tekutonu::block::Block;
use tekutonu::chunk::Chunk;
use tekutonu::surrounding::{ChunkEmpty, Neighbour, SurroundingChunks};
use tekutonu::grid::{location_of, neighbour};
use tekutonu::light::relax;
use tekutonu::types::PointIntLocal;

fn cell(x: isize, y: isize, z: isize) -> PointIntLocal {
    PointIntLocal::new(x, y, z)
}

fn settled(chunk: &Chunk, sky: bool) -> bool {
    for i in 0..4096usize {
        let p = location_of(i);
        let here = if sky { chunk.get_light_sky(p) } else { chunk.get_light_local(p) };
        for face in 0..6usize {
            let q = neighbour(p, face);
            if !q.is_in_chunk() || !chunk.get_block(q).is_transparent() {
                continue;
            }
            let there = if sky { chunk.get_light_sky(q) } else { chunk.get_light_local(q) };
            let cost = if sky && face == 4 { 0 } else { 1 };
            if (there as i32) < here as i32 - cost {
                return false;
            }
        }
    }
    true
}

#[test]
fn empty_chunk_under_open_sky() {
    let mut chunk = Chunk::default();
    let sky = ChunkEmpty::new(15);
    chunk.recalculate_light(SurroundingChunks::new([Neighbour::Empty(&sky); 6]));
    for i in 0..4096usize {
        let loc = location_of(i);
        assert_eq!(chunk.get_light_sky(loc), 15);
        assert_eq!(chunk.get_light_local(loc), 0);
    }
    assert_eq!(chunk.assemble_faces_with_light().len(), 0);
}

#[test]
fn boundary_light_from_empty_neighbours() {
    let sky = ChunkEmpty::new(15);
    let around = SurroundingChunks::new([Neighbour::Empty(&sky); 6]);
    // Under the upper neighbour sky light arrives undiminished.
    assert_eq!(around.inner_light_sky(cell(5, 15, 5)), 15);
    // From the side and from below it loses one level.
    assert_eq!(around.inner_light_sky(cell(0, 5, 5)), 14);
    assert_eq!(around.inner_light_sky(cell(5, 0, 5)), 14);
    assert_eq!(around.inner_light_sky(cell(15, 0, 15)), 14);
    assert_eq!(around.inner_light_sky(cell(0, 15, 0)), 15);
    // Away from the faces nothing arrives.
    assert_eq!(around.inner_light_sky(cell(5, 5, 5)), 0);
    assert_eq!(around.inner_light_local(cell(5, 5, 5)), 0);
    assert_eq!(around.inner_light_local(cell(0, 0, 0)), 0);
    assert_eq!(around.inner_light_local(cell(15, 15, 15)), 0);
}

#[test]
fn boundary_light_never_goes_below_nothing() {
    let dark = ChunkEmpty::new(0);
    let around = SurroundingChunks::new([Neighbour::Empty(&dark); 6]);
    assert_eq!(around.inner_light_sky(cell(0, 5, 5)), 0);
    assert_eq!(around.inner_light_sky(cell(5, 15, 5)), 0);
    assert_eq!(around.inner_light_local(cell(0, 5, 5)), 0);
}

#[test]
fn boundary_light_takes_the_strongest_side() {
    let sides: Vec<ChunkEmpty> = [3u8, 9, 5, 7, 11, 2].iter().map(|s| ChunkEmpty::new(*s)).collect();
    let around = SurroundingChunks::new([
        Neighbour::Empty(&sides[0]),
        Neighbour::Empty(&sides[1]),
        Neighbour::Empty(&sides[2]),
        Neighbour::Empty(&sides[3]),
        Neighbour::Empty(&sides[4]),
        Neighbour::Empty(&sides[5]),
    ]);
    // Corner towards -X (9), +Y (5, undiminished) and +Z (11).
    assert_eq!(around.inner_light_sky(cell(0, 15, 15)), 10);
    // Corner towards +X (3), +Y (5, undiminished) and -Z (2).
    assert_eq!(around.inner_light_sky(cell(15, 15, 0)), 5);
    // Edge towards +X (3) and -Y (7).
    assert_eq!(around.inner_light_sky(cell(15, 0, 8)), 6);
}

#[test]
fn boundary_local_light_from_a_real_neighbour() {
    let mut beside = Chunk::default();
    beside.set_block(cell(0, 4, 4), Block::light(12));
    let nothing = ChunkEmpty::new(0);
    beside.recalculate_light(SurroundingChunks::new([Neighbour::Empty(&nothing); 6]));
    assert_eq!(beside.get_light_local(cell(0, 4, 4)), 12);
    assert_eq!(beside.get_light_local(cell(0, 4, 6)), 10);
    // `beside` is the +X neighbour: its x = 0 layer touches our x = 15 layer.
    let around = SurroundingChunks::new([
        Neighbour::Real(&beside),
        Neighbour::Empty(&nothing),
        Neighbour::Empty(&nothing),
        Neighbour::Empty(&nothing),
        Neighbour::Empty(&nothing),
        Neighbour::Empty(&nothing),
    ]);
    assert_eq!(around.inner_light_local(cell(15, 4, 4)), 11);
    assert_eq!(around.inner_light_local(cell(15, 4, 6)), 9);
    assert_eq!(around.inner_light_local(cell(0, 4, 4)), 0);
    let mut chunk = Chunk::default();
    chunk.recalculate_light(around);
    assert_eq!(chunk.get_light_local(cell(15, 4, 4)), 11);
    assert_eq!(chunk.get_light_local(cell(10, 4, 4)), 6);
    assert_eq!(chunk.get_light_local(cell(4, 4, 4)), 0);
    assert_eq!(chunk.get_light_local(cell(14, 5, 4)), 9);
}

#[test]
fn single_source_decays_by_one_per_step() {
    let mut chunk = Chunk::default();
    chunk.set_block(cell(1, 1, 1), Block::light_source());
    let nothing = ChunkEmpty::new(0);
    chunk.recalculate_light(SurroundingChunks::new([Neighbour::Empty(&nothing); 6]));
    assert_eq!(chunk.get_light_local(cell(1, 1, 1)), 15);
    for k in 0..15isize {
        let expected = if k > 15 { 0 } else { (15 - k) as u8 };
        if 1 + k < 16 {
            assert_eq!(chunk.get_light_local(cell(1 + k, 1, 1)), expected);
            assert_eq!(chunk.get_light_local(cell(1, 1 + k, 1)), expected);
            assert_eq!(chunk.get_light_local(cell(1, 1, 1 + k)), expected);
        }
    }
    assert_eq!(chunk.get_light_local(cell(0, 1, 1)), 14);
    assert_eq!(chunk.get_light_local(cell(0, 0, 0)), 12);
    assert_eq!(chunk.get_light_local(cell(15, 1, 1)), 1);
    assert_eq!(chunk.get_light_local(cell(15, 2, 1)), 0);
    assert_eq!(chunk.get_light_local(cell(15, 15, 15)), 0);
    // With dark neighbours there is no sky light at all.
    assert_eq!(chunk.get_light_sky(cell(1, 1, 1)), 0);
}

#[test]
fn every_cell_holds_the_source_less_the_distance() {
    let mut chunk = Chunk::default();
    chunk.set_block(cell(7, 8, 9), Block::light(10));
    let nothing = ChunkEmpty::new(0);
    chunk.recalculate_light(SurroundingChunks::new([Neighbour::Empty(&nothing); 6]));
    for i in 0..4096usize {
        let p = location_of(i);
        let distance = (p.x() - 7).abs() + (p.y() - 8).abs() + (p.z() - 9).abs();
        let expected = if distance >= 10 { 0 } else { (10 - distance) as u8 };
        assert_eq!(chunk.get_light_local(p), expected);
    }
}

#[test]
fn light_goes_around_a_wall() {
    let mut chunk = Chunk::default();
    chunk.set_block(cell(4, 4, 4), Block::light_source());
    // A wall in the plane x = 5 with a gap far away at the chunk's edge only.
    for y in 0..16isize {
        for z in 0..15isize {
            chunk.set_block(cell(5, y, z), Block::solid());
        }
    }
    let nothing = ChunkEmpty::new(0);
    chunk.recalculate_light(SurroundingChunks::new([Neighbour::Empty(&nothing); 6]));
    assert_eq!(chunk.get_light_local(cell(5, 4, 4)), 0);
    assert_eq!(chunk.get_light_local(cell(4, 4, 15)), 4);
    assert_eq!(chunk.get_light_local(cell(5, 4, 15)), 3);
    assert_eq!(chunk.get_light_local(cell(6, 4, 15)), 2);
    assert_eq!(chunk.get_light_local(cell(6, 4, 14)), 1);
    assert_eq!(chunk.get_light_local(cell(6, 4, 13)), 0);
    assert_eq!(chunk.get_light_local(cell(6, 4, 4)), 0);
    assert!(settled(&chunk, false));
}

#[test]
fn stronger_source_outshines_a_weaker_one() {
    let mut chunk = Chunk::default();
    chunk.set_block(cell(8, 8, 8), Block::light(15));
    chunk.set_block(cell(9, 8, 8), Block::light(3));
    let nothing = ChunkEmpty::new(0);
    chunk.recalculate_light(SurroundingChunks::new([Neighbour::Empty(&nothing); 6]));
    assert_eq!(chunk.get_light_local(cell(8, 8, 8)), 15);
    assert_eq!(chunk.get_light_local(cell(9, 8, 8)), 14);
    assert_eq!(chunk.get_light_local(cell(10, 8, 8)), 13);
}

#[test]
fn removed_source_gives_no_light() {
    let mut chunk = Chunk::default();
    chunk.set_block(cell(3, 3, 3), Block::light_source());
    chunk.set_block(cell(6, 6, 6), Block::light(5));
    chunk.set_block(cell(3, 3, 3), Block::air());
    let nothing = ChunkEmpty::new(0);
    chunk.recalculate_light(SurroundingChunks::new([Neighbour::Empty(&nothing); 6]));
    assert_eq!(chunk.get_light_local(cell(3, 3, 3)), 0);
    assert_eq!(chunk.get_light_local(cell(6, 6, 6)), 5);
    assert_eq!(chunk.get_light_local(cell(6, 6, 3)), 2);
    // Replacing a source by another keeps one entry for the cell.
    chunk.set_block(cell(6, 6, 6), Block::light(9));
    chunk.set_block(cell(6, 6, 6), Block::light(2));
    chunk.recalculate_light(SurroundingChunks::new([Neighbour::Empty(&nothing); 6]));
    assert_eq!(chunk.get_light_local(cell(6, 6, 6)), 2);
    assert_eq!(chunk.get_light_local(cell(6, 6, 5)), 1);
    assert_eq!(chunk.get_light_local(cell(6, 6, 4)), 0);
}

#[test]
fn sky_light_falls_without_loss_and_spreads_with_loss() {
    let mut chunk = Chunk::default();
    // A roof over the whole chunk at y = 10 with one hole at (8, 10, 8).
    for x in 0..16isize {
        for z in 0..16isize {
            if !(x == 8 && z == 8) {
                chunk.set_block(cell(x, 10, z), Block::solid());
            }
        }
    }
    let sky = ChunkEmpty::new(15);
    let dark = ChunkEmpty::new(0);
    let around = SurroundingChunks::new([
        Neighbour::Empty(&dark),
        Neighbour::Empty(&dark),
        Neighbour::Empty(&sky),
        Neighbour::Empty(&dark),
        Neighbour::Empty(&dark),
        Neighbour::Empty(&dark),
    ]);
    chunk.recalculate_light_sky(around);
    // Above the roof everything is under open sky.
    assert_eq!(chunk.get_light_sky(cell(0, 15, 0)), 15);
    assert_eq!(chunk.get_light_sky(cell(3, 11, 12)), 15);
    // The roof itself is dark.
    assert_eq!(chunk.get_light_sky(cell(3, 10, 12)), 0);
    // Through the hole the light falls to the floor without loss.
    assert_eq!(chunk.get_light_sky(cell(8, 10, 8)), 15);
    assert_eq!(chunk.get_light_sky(cell(8, 9, 8)), 15);
    assert_eq!(chunk.get_light_sky(cell(8, 0, 8)), 15);
    // Sideways it loses one level per step, at every height below the roof.
    assert_eq!(chunk.get_light_sky(cell(9, 9, 8)), 14);
    assert_eq!(chunk.get_light_sky(cell(9, 0, 8)), 14);
    assert_eq!(chunk.get_light_sky(cell(12, 3, 8)), 11);
    assert_eq!(chunk.get_light_sky(cell(12, 3, 10)), 9);
    assert_eq!(chunk.get_light_sky(cell(0, 0, 0)), 0);
    assert_eq!(chunk.get_light_sky(cell(0, 0, 8)), 7);
    assert!(settled(&chunk, true));
}

#[test]
fn relighting_twice_changes_nothing() {
    let mut chunk = Chunk::default();
    chunk.set_block(cell(2, 3, 4), Block::light(13));
    for x in 4..12isize {
        for z in 2..9isize {
            chunk.set_block(cell(x, 7, z), Block::solid());
        }
    }
    chunk.set_block(cell(8, 6, 8), Block::solid());
    let sky = ChunkEmpty::new(15);
    let dim = ChunkEmpty::new(6);
    let around = SurroundingChunks::new([
        Neighbour::Empty(&dim),
        Neighbour::Empty(&dim),
        Neighbour::Empty(&sky),
        Neighbour::Empty(&dim),
        Neighbour::Empty(&dim),
        Neighbour::Empty(&dim),
    ]);
    chunk.recalculate_light(around);
    assert!(settled(&chunk, true));
    assert!(settled(&chunk, false));
    let first = chunk.clone();
    chunk.recalculate_light(around);
    for i in 0..4096usize {
        let loc = location_of(i);
        assert_eq!(chunk.get_light_sky(loc), first.get_light_sky(loc));
        assert_eq!(chunk.get_light_local(loc), first.get_light_local(loc));
    }
    // Under the slab the sky light has come around its edge.
    assert_eq!(chunk.get_light_sky(cell(8, 8, 5)), 15);
    assert_eq!(chunk.get_light_sky(cell(4, 6, 2)), 14);
    assert_eq!(chunk.get_light_sky(cell(3, 6, 2)), 15);
}

#[test]
fn relax_spreads_from_the_queued_cells() {
    let mut blocks = vec![Block::air(); 4096];
    blocks[tekutonu::grid::index_of(&cell(5, 5, 6))] = Block::solid();
    let mut light = vec![0u8; 4096];
    light[tekutonu::grid::index_of(&cell(5, 5, 5))] = 4;
    let mut queue = VecDeque::new();
    queue.push_back(cell(5, 5, 5));
    relax(&blocks, &mut light, &mut queue, false);
    assert!(queue.is_empty());
    let at = |x, y, z| light[tekutonu::grid::index_of(&cell(x, y, z))];
    assert_eq!(at(5, 5, 5), 4);
    assert_eq!(at(5, 5, 4), 3);
    assert_eq!(at(5, 5, 6), 0);
    assert_eq!(at(5, 4, 7), 1);
    assert_eq!(at(5, 5, 7), 0);
    assert_eq!(at(5, 2, 5), 1);
    assert_eq!(at(5, 1, 5), 0);
    let mut falling = vec![0u8; 4096];
    falling[tekutonu::grid::index_of(&cell(5, 5, 5))] = 4;
    queue.push_back(cell(5, 5, 5));
    let open = vec![Block::air(); 4096];
    relax(&open, &mut falling, &mut queue, true);
    let at = |x, y, z| falling[tekutonu::grid::index_of(&cell(x, y, z))];
    assert_eq!(at(5, 0, 5), 4);
    assert_eq!(at(5, 6, 5), 3);
    assert_eq!(at(6, 0, 5), 3);
    assert_eq!(at(5, 9, 5), 0);
}

#[test]
fn no_cell_is_brighter_than_the_brightest_seed() {
    let mut chunk = Chunk::default();
    chunk.set_block(cell(3, 3, 3), Block::light(9));
    chunk.set_block(cell(12, 3, 3), Block::light(4));
    for z in 0..16isize {
        chunk.set_block(cell(8, 8, z), Block::solid());
    }
    let dim = ChunkEmpty::new(7);
    chunk.recalculate_light(SurroundingChunks::new([Neighbour::Empty(&dim); 6]));
    let mut brightest_local = 0;
    let mut brightest_sky = 0;
    for i in 0..4096usize {
        let loc = location_of(i);
        brightest_local = brightest_local.max(chunk.get_light_local(loc));
        brightest_sky = brightest_sky.max(chunk.get_light_sky(loc));
    }
    assert_eq!(brightest_local, 9);
    assert_eq!(brightest_sky, 7);
    assert_eq!(chunk.get_light_sky(cell(8, 15, 8)), 7);
    assert_eq!(chunk.get_light_sky(cell(8, 9, 8)), 7);
    assert_eq!(chunk.get_light_sky(cell(8, 8, 8)), 0);
    assert_eq!(chunk.get_light_sky(cell(8, 7, 8)), 6);
    assert_eq!(chunk.get_light_sky(cell(0, 0, 0)), 7);
}

#[test]
fn light_levels_stay_within_fifteen() {
    let mut chunk = Chunk::default();
    chunk.set_block(cell(0, 0, 0), Block::light(255));
    chunk.set_block(cell(15, 15, 15), Block::light_source());
    let sky = ChunkEmpty::new(15);
    chunk.recalculate_light(SurroundingChunks::new([Neighbour::Empty(&sky); 6]));
    for i in 0..4096usize {
        let loc = location_of(i);
        assert!(chunk.get_light_local(loc) <= 15);
        assert!(chunk.get_light_sky(loc) <= 15);
    }
    assert_eq!(chunk.get_light_local(cell(0, 0, 0)), 15);
    assert_eq!(chunk.get_light_local(cell(15, 15, 15)), 15);
    chunk.set_block(cell(1, 0, 0), Block::solid());
    let (_, lights, _) = chunk.get_render_data([0, 0, 0]);
    assert_eq!(lights.len(), 24);
    assert!(lights.iter().all(|l| *l <= 15));
}
