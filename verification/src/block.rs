//! The atomic voxel value.

use vstd::prelude::*;
use crate::consts::LIGHT_MAX;

verus! {

/// A light level, from 0 (dark) to 15 (brightest).
pub type LightLevel = u8;

/// What a block is made of. The brightness of a light source lies
/// between 0 and 15.
#[derive(Clone, Copy, PartialEq, Eq, Debug, Structural)]
pub enum BlockKind {
    Air,
    Solid,
    Light { brightness: LightLevel },
}

/// One voxel.
#[derive(Clone, Copy, Debug)]
pub struct Block {
    pub kind: BlockKind,
}

impl Block {
    /// Whether the block lets light and sight through: everything but `Solid`.
    pub open spec fn transparent(self) -> bool {
        !(self.kind is Solid)
    }

    /// A light source is no brighter than the brightest light level.
    pub open spec fn wf(self) -> bool {
        match self.kind {
            BlockKind::Light { brightness } => brightness <= 15,
            _ => true,
        }
    }

    /// The light the block gives off: its brightness for `Light`, nothing otherwise.
    pub open spec fn emission(self) -> Option<u8> {
        match self.kind {
            BlockKind::Light { brightness } => Some(brightness),
            _ => None,
        }
    }

    /// A block of air.
    pub fn air() -> (block: Self)
        ensures
            block.kind == BlockKind::Air,
            block.wf(),
    {
        Self { kind: BlockKind::Air }
    }

    /// A solid block.
    pub fn solid() -> (block: Self)
        ensures
            block.kind == BlockKind::Solid,
            block.wf(),
    {
        Self { kind: BlockKind::Solid }
    }

    /// A light source of full brightness.
    pub fn light_source() -> (block: Self)
        ensures
            block.kind == (BlockKind::Light { brightness: 15 }),
            block.wf(),
    {
        Self { kind: BlockKind::Light { brightness: LIGHT_MAX as u8 } }
    }

    /// A light source of the given brightness, capped at the brightest level.
    pub fn light(brightness: LightLevel) -> (block: Self)
        ensures
            block.kind == (BlockKind::Light {
                brightness: if brightness > 15 { 15u8 } else { brightness },
            }),
            block.wf(),
    {
        let capped: u8 = if brightness > LIGHT_MAX as u8 { LIGHT_MAX as u8 } else { brightness };
        Self { kind: BlockKind::Light { brightness: capped } }
    }

    /// Whether the block lets light and sight through.
    pub fn is_transparent(&self) -> (transparent: bool)
        ensures
            transparent == self.transparent(),
    {
        match self.kind {
            BlockKind::Air => true,
            BlockKind::Solid => false,
            BlockKind::Light { .. } => true,
        }
    }
}

impl Default for Block {
    fn default() -> (block: Self)
        ensures
            block.kind == BlockKind::Air,
            block.wf(),
    {
        Self::air()
    }
}

} // verus!
