use tekutonu::block::{Block, BlockKind};
use tekutonu::chunk::Chunk;
use tekutonu::surrounding::{
    AdjacentDirection, ChunkAdjacent, ChunkEmpty, Neighbour, SurroundingChunks,
};
use tekutonu::grid::{adjacency, index_of, location_of, neighbour, scan_location};
use tekutonu::types::{PointGlobal, PointIntLocal};

fn at(x: isize, y: isize, z: isize) -> PointIntLocal {
    PointIntLocal::new(x, y, z)
}

#[test]
fn empty() {
    let chunk = Chunk::default();

    let ts = chunk.assemble_faces_with_light();

    assert_eq!(ts.len(), 0, "there should be zero faces generated");
}

#[test]
fn one() {
    let mut chunk = Chunk::default();
    chunk.set_block(
        PointIntLocal::from([0isize, 0, 0]),
        Block {
            kind: BlockKind::Solid,
        },
    );

    let ts = chunk.assemble_faces_with_light();

    assert_eq!(ts.len(), 6, "there should be 6 faces generated");
}

#[test]
fn two() {
    let mut chunk = Chunk::default();
    chunk.set_block(
        PointIntLocal::from([0isize, 0, 0]),
        Block {
            kind: BlockKind::Solid,
        },
    );
    chunk.set_block(
        PointIntLocal::from([0isize, 0, 1]),
        Block {
            kind: BlockKind::Solid,
        },
    );

    let ts = chunk.assemble_faces_with_light();

    assert_eq!(ts.len(), 10, "the face that the two blocks share is hidden from both sides");
}

#[test]
fn two_blocks_hide_exactly_the_shared_face() {
    let mut chunk = Chunk::default();
    chunk.set_block(at(0, 0, 0), Block::solid());
    chunk.set_block(at(0, 0, 1), Block::solid());
    let faces = chunk.assemble_faces_with_light();
    // The first block loses its back face (z = 1), the second its front face (z = 1).
    let back_of_first = [at(1, 0, 1), at(0, 0, 1), at(0, 1, 1), at(1, 1, 1)];
    let front_of_second = [at(0, 0, 1), at(1, 0, 1), at(1, 1, 1), at(0, 1, 1)];
    for (corners, _) in faces.iter() {
        assert_ne!(*corners, back_of_first);
        assert_ne!(*corners, front_of_second);
    }
    // The first face of the list is the front of the first block.
    assert_eq!(faces[0].0, [at(0, 0, 0), at(1, 0, 0), at(1, 1, 0), at(0, 1, 0)]);
}

#[test]
fn index_and_location_round_trip() {
    for i in 0..4096usize {
        let loc = location_of(i);
        assert!(loc.is_in_chunk());
        assert_eq!(index_of(&loc), i);
        assert_eq!(Chunk::generate_index(loc), i);
    }
    assert_eq!(index_of(&at(1, 2, 3)), 1 + 32 + 768);
    assert_eq!(location_of(4095), at(15, 15, 15));
    assert_eq!(location_of(16), at(0, 1, 0));
    assert_eq!(location_of(1), at(1, 0, 0));
    assert_eq!(location_of(256), at(0, 0, 1));
}

#[test]
fn index_counts_x_fastest_and_z_slowest() {
    assert_eq!(Chunk::generate_index(at(0, 0, 0)), 0);
    assert_eq!(Chunk::generate_index(at(1, 0, 0)), 1);
    assert_eq!(Chunk::generate_index(at(0, 1, 0)), 16);
    assert_eq!(Chunk::generate_index(at(0, 0, 1)), 256);
    assert_eq!(Chunk::generate_index(at(15, 15, 15)), 4095);
    for i in 0..4096usize {
        let loc = at((i % 16) as isize, ((i / 16) % 16) as isize, (i / 256) as isize);
        assert_eq!(Chunk::generate_index(loc), i);
    }
    for x in 0..16isize {
        for y in 0..16isize {
            for z in 0..16isize {
                let i = Chunk::generate_index(at(x, y, z));
                assert!(i < 4096);
                assert_eq!((i % 16) as isize, x);
                assert_eq!(((i / 16) % 16) as isize, y);
                assert_eq!((i / 256) as isize, z);
            }
        }
    }
}

#[test]
fn scan_visits_x_outermost_and_z_innermost() {
    assert_eq!(scan_location(0), at(0, 0, 0));
    assert_eq!(scan_location(1), at(0, 0, 1));
    assert_eq!(scan_location(16), at(0, 1, 0));
    assert_eq!(scan_location(256), at(1, 0, 0));
    assert_eq!(scan_location(4095), at(15, 15, 15));
    let mut turn = 0usize;
    for x in 0..16isize {
        for y in 0..16isize {
            for z in 0..16isize {
                assert_eq!(scan_location(turn), at(x, y, z));
                turn += 1;
            }
        }
    }
}

#[test]
fn mesh_lists_the_blocks_with_x_outermost() {
    let mut chunk = Chunk::default();
    chunk.set_block(at(1, 0, 0), Block::solid());
    chunk.set_block(at(0, 0, 5), Block::solid());
    chunk.set_block(at(0, 3, 0), Block::solid());
    let faces = chunk.assemble_faces_with_light();
    assert_eq!(faces.len(), 18);
    // Front faces start at the block's own corner.
    assert_eq!(faces[0].0[0], at(0, 0, 5));
    assert_eq!(faces[6].0[0], at(0, 3, 0));
    assert_eq!(faces[12].0[0], at(1, 0, 0));
}

#[test]
fn block_kinds_and_transparency() {
    assert_eq!(Block::air().kind, BlockKind::Air);
    assert_eq!(Block::solid().kind, BlockKind::Solid);
    assert_eq!(Block::light_source().kind, BlockKind::Light { brightness: 15 });
    assert_eq!(Block::default().kind, BlockKind::Air);
    assert!(Block::air().is_transparent());
    assert!(!Block::solid().is_transparent());
    assert!(Block::light_source().is_transparent());
}

#[test]
fn light_brightness_is_capped() {
    assert_eq!(Block::light(7).kind, BlockKind::Light { brightness: 7 });
    assert_eq!(Block::light(15).kind, BlockKind::Light { brightness: 15 });
    assert_eq!(Block::light(200).kind, BlockKind::Light { brightness: 15 });
    assert_eq!(Block::light(0).kind, BlockKind::Light { brightness: 0 });
}

#[test]
fn point_accessors() {
    let p = at(3, 0, 15);
    assert_eq!((p.x(), p.y(), p.z()), (3, 0, 15));
    assert_eq!((p.ux(), p.uy(), p.uz()), (3usize, 0usize, 15usize));
    assert!(p.is_in_chunk());
    assert!(p.is_on_chunk_face());
    assert!(!at(1, 1, 1).is_on_chunk_face());
    assert!(at(14, 14, 14).is_in_chunk());
    assert!(!at(16, 0, 0).is_in_chunk());
    assert!(!at(0, -1, 0).is_in_chunk());
    assert_eq!(PointIntLocal::from([1usize, 2, 3]), at(1, 2, 3));
    assert_eq!(PointIntLocal::from([-1isize, 2, 3]), at(-1, 2, 3));
    assert_eq!(at(1, 2, 3) + &at(0, -1, 1), at(1, 1, 4));
    let g = PointGlobal::new(-5, 7, 9);
    assert_eq!((g.x(), g.y(), g.z()), (-5, 7, 9));
    assert_eq!(g.moved(&at(1, 0, 16), 16), PointGlobal::new(-4, 7, 25));
}

#[test]
fn localize_wraps_into_the_neighbour() {
    assert_eq!(at(16, 3, 4).localize(), at(0, 3, 4));
    assert_eq!(at(-1, 3, 4).localize(), at(15, 3, 4));
    assert_eq!(at(5, -1, 16).localize(), at(5, 15, 0));
    assert_eq!(at(5, 6, 7).localize(), at(5, 6, 7));
    assert_eq!(at(-17, 33, -16).localize(), at(15, 1, 0));
}

#[test]
fn adjacency_order_matches_the_faces() {
    assert_eq!(adjacency(0), at(0, 0, -1));
    assert_eq!(adjacency(1), at(-1, 0, 0));
    assert_eq!(adjacency(2), at(0, 0, 1));
    assert_eq!(adjacency(3), at(1, 0, 0));
    assert_eq!(adjacency(4), at(0, -1, 0));
    assert_eq!(adjacency(5), at(0, 1, 0));
    assert_eq!(neighbour(at(0, 0, 0), 1), at(-1, 0, 0));
    assert_eq!(neighbour(at(15, 15, 15), 5), at(15, 16, 15));
}

#[test]
fn direction_of_each_side() {
    assert_eq!(AdjacentDirection::from(at(16, 0, 0)), AdjacentDirection::XPos);
    assert_eq!(AdjacentDirection::from(at(-1, 5, 5)), AdjacentDirection::XNeg);
    assert_eq!(AdjacentDirection::from(at(3, 16, 0)), AdjacentDirection::YPos);
    assert_eq!(AdjacentDirection::from(at(3, -1, 0)), AdjacentDirection::YNeg);
    assert_eq!(AdjacentDirection::from(at(3, 4, 16)), AdjacentDirection::ZPos);
    assert_eq!(AdjacentDirection::from(at(3, 4, -1)), AdjacentDirection::ZNeg);
    assert_eq!(AdjacentDirection::XPos.index(), 0);
    assert_eq!(AdjacentDirection::XNeg.index(), 1);
    assert_eq!(AdjacentDirection::YPos.index(), 2);
    assert_eq!(AdjacentDirection::YNeg.index(), 3);
    assert_eq!(AdjacentDirection::ZPos.index(), 4);
    assert_eq!(AdjacentDirection::ZNeg.index(), 5);
}

#[test]
fn set_block_then_get_block() {
    let mut chunk = Chunk::default();
    assert_eq!(chunk.get_block(at(4, 5, 6)).kind, BlockKind::Air);
    chunk.set_block(at(4, 5, 6), Block::solid());
    assert_eq!(chunk.get_block(at(4, 5, 6)).kind, BlockKind::Solid);
    assert_eq!(chunk.get_block(at(6, 5, 4)).kind, BlockKind::Air);
    chunk.set_block(at(4, 5, 6), Block::light(9));
    assert_eq!(chunk.get_block(at(4, 5, 6)).kind, BlockKind::Light { brightness: 9 });
    // The light grids wait for the next relighting.
    assert_eq!(chunk.get_light_sky(at(4, 5, 6)), 15);
    assert_eq!(chunk.get_light_local(at(4, 5, 6)), 0);
}

#[test]
fn fresh_chunk_is_air_under_full_sky() {
    let chunk = Chunk::default();
    for i in 0..4096usize {
        let loc = location_of(i);
        assert_eq!(chunk.get_block(loc).kind, BlockKind::Air);
        assert_eq!(chunk.get_light_sky(loc), 15);
        assert_eq!(chunk.get_light_local(loc), 0);
    }
}

#[test]
fn clone_keeps_blocks_and_light() {
    let mut chunk = Chunk::default();
    chunk.set_block(at(1, 1, 1), Block::light_source());
    chunk.set_block(at(2, 2, 2), Block::solid());
    let copy = chunk.clone();
    for i in 0..4096usize {
        let loc = location_of(i);
        assert_eq!(copy.get_block(loc).kind, chunk.get_block(loc).kind);
        assert_eq!(copy.get_light_sky(loc), chunk.get_light_sky(loc));
        assert_eq!(copy.get_light_local(loc), chunk.get_light_local(loc));
    }
}

#[test]
fn empty_neighbour_reports_air_and_its_sky() {
    let empty = ChunkEmpty::new(11);
    assert_eq!(ChunkAdjacent::get_block(&empty, at(0, 3, 3)).kind, BlockKind::Air);
    assert_eq!(ChunkAdjacent::get_light_sky(&empty, at(0, 3, 3)), 11);
    assert_eq!(ChunkAdjacent::get_light_local(&empty, at(0, 3, 3)), 0);
    let side = Neighbour::Empty(&empty);
    assert_eq!(side.get_light_sky(at(15, 0, 0)), 11);
    assert_eq!(side.get_light_local(at(15, 0, 0)), 0);
    assert_eq!(side.get_block(at(15, 0, 0)).kind, BlockKind::Air);
}

#[test]
fn real_neighbour_reports_its_own_cells() {
    let mut chunk = Chunk::default();
    chunk.set_block(at(0, 3, 3), Block::solid());
    let side = Neighbour::Real(&chunk);
    assert_eq!(side.get_block(at(0, 3, 3)).kind, BlockKind::Solid);
    assert_eq!(side.get_block(at(0, 3, 4)).kind, BlockKind::Air);
    assert_eq!(side.get_light_sky(at(0, 3, 4)), 15);
    assert_eq!(side.get_light_local(at(0, 3, 4)), 0);
}

#[test]
fn neighbours_are_found_by_direction_and_location() {
    let sky: Vec<ChunkEmpty> = (0..6u8).map(|i| ChunkEmpty::new(10 + i)).collect();
    let around = SurroundingChunks::new([
        Neighbour::Empty(&sky[0]),
        Neighbour::Empty(&sky[1]),
        Neighbour::Empty(&sky[2]),
        Neighbour::Empty(&sky[3]),
        Neighbour::Empty(&sky[4]),
        Neighbour::Empty(&sky[5]),
    ]);
    let probe = at(0, 0, 0);
    assert_eq!(around.get_chunk_for_direction(&AdjacentDirection::XPos).get_light_sky(probe), 10);
    assert_eq!(around.get_chunk_for_direction(&AdjacentDirection::XNeg).get_light_sky(probe), 11);
    assert_eq!(around.get_chunk_for_direction(&AdjacentDirection::YPos).get_light_sky(probe), 12);
    assert_eq!(around.get_chunk_for_direction(&AdjacentDirection::YNeg).get_light_sky(probe), 13);
    assert_eq!(around.get_chunk_for_direction(&AdjacentDirection::ZPos).get_light_sky(probe), 14);
    assert_eq!(around.get_chunk_for_direction(&AdjacentDirection::ZNeg).get_light_sky(probe), 15);
    let (chunk, direction) = around.get_chunk_of_location(at(3, -1, 3));
    assert_eq!(direction, AdjacentDirection::YNeg);
    assert_eq!(chunk.get_light_sky(probe), 13);
    let (chunk, direction) = around.get_chunk_of_location(at(3, 3, 16));
    assert_eq!(direction, AdjacentDirection::ZPos);
    assert_eq!(chunk.get_light_sky(probe), 14);
}

#[test]
fn faces_on_the_chunk_border_are_kept_and_dark() {
    let mut chunk = Chunk::default();
    chunk.set_block(at(0, 0, 0), Block::solid());
    let faces = chunk.assemble_faces_with_light();
    // front (z - 1), left (x - 1) and bottom (y - 1) look out of the chunk.
    let lights: Vec<u8> = faces.iter().map(|f| f.1).collect();
    assert_eq!(lights, vec![0, 0, 15, 15, 0, 15]);
}

#[test]
fn face_light_is_the_stronger_of_sky_and_local() {
    let mut chunk = Chunk::default();
    chunk.set_block(at(5, 5, 5), Block::solid());
    chunk.set_block(at(5, 6, 5), Block::light(9));
    let dark = ChunkEmpty::new(3);
    let around = SurroundingChunks::new([Neighbour::Empty(&dark); 6]);
    chunk.recalculate_light(around);
    let faces = chunk.assemble_faces_with_light();
    assert_eq!(faces.len(), 6);
    // The top face looks at the light source itself: local 9 beats what is left of the sky.
    assert_eq!(faces[5].1, 9);
    assert_eq!(faces[5].0, [at(5, 6, 5), at(6, 6, 5), at(6, 6, 6), at(5, 6, 6)]);
    // The front face looks at (5, 5, 4), two steps from the source.
    assert_eq!(chunk.get_light_local(at(5, 5, 4)), 7);
    assert_eq!(faces[0].1, 7);
}

#[test]
fn render_data_of_one_block() {
    let mut chunk = Chunk::default();
    chunk.set_block(at(1, 2, 3), Block::solid());
    let (vs, ls, is) = chunk.get_render_data([100, -50, 0]);
    assert_eq!(vs.len(), 24);
    assert_eq!(ls.len(), 24);
    assert_eq!(is.len(), 36);
    // Front face: lbn, rbn, rtn, ltn of the block at (1, 2, 3), moved by the offset.
    assert_eq!(vs[0], PointGlobal::new(101, -48, 3));
    assert_eq!(vs[1], PointGlobal::new(102, -48, 3));
    assert_eq!(vs[2], PointGlobal::new(102, -47, 3));
    assert_eq!(vs[3], PointGlobal::new(101, -47, 3));
    // Top face: ltn, rtn, rtf, ltf.
    assert_eq!(vs[20], PointGlobal::new(101, -47, 3));
    assert_eq!(vs[21], PointGlobal::new(102, -47, 3));
    assert_eq!(vs[22], PointGlobal::new(102, -47, 4));
    assert_eq!(vs[23], PointGlobal::new(101, -47, 4));
    assert_eq!(&is[0..6], &[0, 1, 2, 0, 2, 3]);
    assert_eq!(&is[6..12], &[4, 5, 6, 4, 6, 7]);
    assert_eq!(&is[30..36], &[20, 21, 22, 20, 22, 23]);
    assert!(ls.iter().all(|l| *l == 15));
}

#[test]
fn render_data_of_an_empty_chunk_is_empty() {
    let chunk = Chunk::default();
    let (vs, ls, is) = chunk.get_render_data([0, 0, 0]);
    assert!(vs.is_empty());
    assert!(ls.is_empty());
    assert!(is.is_empty());
}

#[test]
fn render_data_at_the_far_ends_of_the_offsets() {
    let mut chunk = Chunk::default();
    chunk.set_block(at(15, 15, 15), Block::solid());
    let (vs, ls, is) = chunk.get_render_data([i32::MAX, i32::MIN, 0]);
    assert_eq!(vs.len(), 24);
    assert_eq!(ls.len(), 24);
    assert_eq!(is.len(), 36);
    // Front face: lbn, rbn of the block at (15, 15, 15).
    assert_eq!(vs[0], PointGlobal::new(i32::MAX as i64 + 15, i32::MIN as i64 + 15, 15));
    assert_eq!(vs[1], PointGlobal::new(i32::MAX as i64 + 16, i32::MIN as i64 + 15, 15));
    assert_eq!(PointGlobal::from_offset([7, -8, 9]), PointGlobal::new(7, -8, 9));
    let (at_origin, _, _) = chunk.get_render_data_at(PointGlobal::new(1 << 40, 0, 0));
    assert_eq!(at_origin[0], PointGlobal::new((1 << 40) + 15, 15, 15));
}

#[test]
fn registry_follows_every_change_of_a_cell() {
    let mut chunk = Chunk::default();
    let dark = ChunkEmpty::new(0);
    let around = SurroundingChunks::new([Neighbour::Empty(&dark); 6]);
    chunk.set_block(at(2, 2, 2), Block::light(6));
    chunk.set_block(at(2, 2, 2), Block::light(6));
    chunk.set_block(at(9, 9, 9), Block::light(4));
    chunk.set_block(at(2, 2, 2), Block::solid());
    chunk.recalculate_light(around);
    assert_eq!(chunk.get_light_local(at(2, 2, 2)), 0);
    assert_eq!(chunk.get_light_local(at(2, 2, 3)), 0);
    assert_eq!(chunk.get_light_local(at(9, 9, 9)), 4);
    let copy = chunk.clone();
    chunk.set_block(at(9, 9, 9), Block::air());
    chunk.recalculate_light(around);
    assert_eq!(chunk.get_light_local(at(9, 9, 9)), 0);
    // The copy keeps its own registry.
    let mut copy = copy;
    copy.recalculate_light(around);
    assert_eq!(copy.get_light_local(at(9, 9, 9)), 4);
    assert_eq!(copy.get_light_local(at(9, 9, 8)), 3);
}
