use vstd::prelude::*;

use crate::bits::Bits16;

verus! {

/// Number of voxel kinds, one texture row each.
pub const NUM_VOXELS: usize = 43;

/// Number of kinds in each of the nine voxel groups, indexed by group.
pub const SUBSET_SIZES: [usize; 9] = [8, 1, 16, 2, 2, 2, 2, 2, 4];

/// Number of slots in the hotbar.
pub const HOTBAR_SIZE: usize = 9;

/// Number of slots in the inventory grid.
pub const INVENTORY_SIZE: usize = 16;

/// The size of group `g`: the number of sub-kinds it holds.
pub open spec fn subset_size(g: int) -> int {
    if g == 0 {
        8
    } else if g == 1 {
        1
    } else if g == 2 {
        16
    } else if g == 8 {
        4
    } else if 3 <= g <= 7 {
        2
    } else {
        0
    }
}

/// Reads entry `g` of [`SUBSET_SIZES`].
pub fn subset_size_of(g: usize) -> (r: usize)
    requires
        g < 9,
    ensures
        r == subset_size(g as int),
{
    let sizes = SUBSET_SIZES;
    let r = sizes[g];
    assert(sizes@ =~= seq![8usize, 1, 16, 2, 2, 2, 2, 2, 4]);
    r
}

/// An integer grid position.
#[derive(Clone, Copy, Debug, PartialEq, Eq, Hash, Structural)]
pub struct IVec3 {
    pub x: i32,
    pub y: i32,
    pub z: i32,
}

/// Component-wise sum of two positions, wrapping at the ends of `i32`.
pub open spec fn vplus(a: IVec3, b: IVec3) -> IVec3 {
    IVec3 { x: a.x.wrapping_add(b.x), y: a.y.wrapping_add(b.y), z: a.z.wrapping_add(b.z) }
}

/// Component-wise difference of two positions, wrapping at the ends of `i32`.
pub open spec fn vminus(a: IVec3, b: IVec3) -> IVec3 {
    IVec3 { x: a.x.wrapping_sub(b.x), y: a.y.wrapping_sub(b.y), z: a.z.wrapping_sub(b.z) }
}

/// The zero vector.
pub open spec fn vzero() -> IVec3 {
    IVec3 { x: 0, y: 0, z: 0 }
}

impl IVec3 {
    pub fn new(x: i32, y: i32, z: i32) -> (r: IVec3)
        ensures
            r == (IVec3 { x, y, z }),
    {
        IVec3 { x, y, z }
    }

    /// Component-wise sum, wrapping at the ends of `i32`.
    pub fn plus(self, o: IVec3) -> (r: IVec3)
        ensures
            r == vplus(self, o),
    {
        IVec3 { x: self.x.wrapping_add(o.x), y: self.y.wrapping_add(o.y), z: self.z.wrapping_add(o.z) }
    }

    /// Component-wise difference, wrapping at the ends of `i32`.
    pub fn minus(self, o: IVec3) -> (r: IVec3)
        ensures
            r == vminus(self, o),
    {
        IVec3 { x: self.x.wrapping_sub(o.x), y: self.y.wrapping_sub(o.y), z: self.z.wrapping_sub(o.z) }
    }
}

#[derive(Clone, Copy, Debug, PartialEq, Eq, Hash, Structural)]
pub enum StructuralVariants {
    BrownBrick,
    RedBrick,
    SandstoneBrick,
    StoneBrick,
    RedTile,
    GreenTile,
    BlueTile,
    WhiteTile,
}

#[derive(Clone, Copy, Debug, PartialEq, Eq, Hash, Structural)]
pub enum NotVariants {
    NotGate,
    BufferGate,
}

#[derive(Clone, Copy, Debug, PartialEq, Eq, Hash, Structural)]
pub enum AndVariants {
    AndGate,
    NandGate,
}

#[derive(Clone, Copy, Debug, PartialEq, Eq, Hash, Structural)]
pub enum OrVariants {
    OrGate,
    NorGate,
}

#[derive(Clone, Copy, Debug, PartialEq, Eq, Hash, Structural)]
pub enum XorVariants {
    XorGate,
    XnorGate,
}

#[derive(Clone, Copy, Debug, PartialEq, Eq, Hash, Structural)]
pub enum LatchVariants {
    DFlipFlop,
    SRLatch,
}

#[derive(Clone, Copy, Debug, PartialEq, Eq, Hash, Structural)]
pub enum ComponentVariants {
    Light,
    Switch,
    Button,
    Clock,
}

/// The kind of a voxel: a building block, a cable, a gate or a component.
#[derive(Clone, Copy, Debug, PartialEq, Eq, Hash, Structural)]
pub enum VoxelType {
    Structure(StructuralVariants),
    BundledWire,
    /// A single-channel wire; the payload is the channel.
    Wire(u8),
    Not(NotVariants),
    And(AndVariants),
    Or(OrVariants),
    Xor(XorVariants),
    Latch(LatchVariants),
    Component(ComponentVariants),
}

/// A placed voxel: its kind, where it stands, which way it faces (1 to 4) and
/// the signal word it holds.
#[derive(Clone, Copy, Debug, PartialEq, Eq, Structural)]
pub struct Voxel {
    pub kind: VoxelType,
    pub position: IVec3,
    pub direction: usize,
    pub state: Bits16,
}

/// The group number of a kind (its row in the inventory).
pub open spec fn group_of(k: VoxelType) -> usize {
    match k {
        VoxelType::Structure(_) => 0,
        VoxelType::BundledWire => 1,
        VoxelType::Wire(_) => 2,
        VoxelType::Not(_) => 3,
        VoxelType::And(_) => 4,
        VoxelType::Or(_) => 5,
        VoxelType::Xor(_) => 6,
        VoxelType::Latch(_) => 7,
        VoxelType::Component(_) => 8,
    }
}

/// The index of a kind within its group.
pub open spec fn sub_group_of(k: VoxelType) -> usize {
    match k {
        VoxelType::Structure(v) => match v {
            StructuralVariants::BrownBrick => 0,
            StructuralVariants::RedBrick => 1,
            StructuralVariants::SandstoneBrick => 2,
            StructuralVariants::StoneBrick => 3,
            StructuralVariants::RedTile => 4,
            StructuralVariants::GreenTile => 5,
            StructuralVariants::BlueTile => 6,
            StructuralVariants::WhiteTile => 7,
        },
        VoxelType::BundledWire => 0,
        VoxelType::Wire(x) => x as usize,
        VoxelType::Not(v) => match v {
            NotVariants::NotGate => 0,
            NotVariants::BufferGate => 1,
        },
        VoxelType::And(v) => match v {
            AndVariants::AndGate => 0,
            AndVariants::NandGate => 1,
        },
        VoxelType::Or(v) => match v {
            OrVariants::OrGate => 0,
            OrVariants::NorGate => 1,
        },
        VoxelType::Xor(v) => match v {
            XorVariants::XorGate => 0,
            XorVariants::XnorGate => 1,
        },
        VoxelType::Latch(v) => match v {
            LatchVariants::DFlipFlop => 0,
            LatchVariants::SRLatch => 1,
        },
        VoxelType::Component(v) => match v {
            ComponentVariants::Clock => 0,
            ComponentVariants::Switch => 1,
            ComponentVariants::Button => 2,
            ComponentVariants::Light => 3,
        },
    }
}

/// The kind named by a `(group, index)` pair, if any.
pub open spec fn kind_of_pair(g: usize, s: usize) -> Option<VoxelType> {
    if g == 0 && s == 0 {
        Some(VoxelType::Structure(StructuralVariants::BrownBrick))
    } else if g == 0 && s == 1 {
        Some(VoxelType::Structure(StructuralVariants::RedBrick))
    } else if g == 0 && s == 2 {
        Some(VoxelType::Structure(StructuralVariants::SandstoneBrick))
    } else if g == 0 && s == 3 {
        Some(VoxelType::Structure(StructuralVariants::StoneBrick))
    } else if g == 0 && s == 4 {
        Some(VoxelType::Structure(StructuralVariants::RedTile))
    } else if g == 0 && s == 5 {
        Some(VoxelType::Structure(StructuralVariants::GreenTile))
    } else if g == 0 && s == 6 {
        Some(VoxelType::Structure(StructuralVariants::BlueTile))
    } else if g == 0 && s == 7 {
        Some(VoxelType::Structure(StructuralVariants::WhiteTile))
    } else if g == 1 && s == 0 {
        Some(VoxelType::BundledWire)
    } else if g == 2 && s <= 15 {
        Some(VoxelType::Wire(s as u8))
    } else if g == 3 && s == 0 {
        Some(VoxelType::Not(NotVariants::NotGate))
    } else if g == 3 && s == 1 {
        Some(VoxelType::Not(NotVariants::BufferGate))
    } else if g == 4 && s == 0 {
        Some(VoxelType::And(AndVariants::AndGate))
    } else if g == 4 && s == 1 {
        Some(VoxelType::And(AndVariants::NandGate))
    } else if g == 5 && s == 0 {
        Some(VoxelType::Or(OrVariants::OrGate))
    } else if g == 5 && s == 1 {
        Some(VoxelType::Or(OrVariants::NorGate))
    } else if g == 6 && s == 0 {
        Some(VoxelType::Xor(XorVariants::XorGate))
    } else if g == 6 && s == 1 {
        Some(VoxelType::Xor(XorVariants::XnorGate))
    } else if g == 7 && s == 0 {
        Some(VoxelType::Latch(LatchVariants::DFlipFlop))
    } else if g == 7 && s == 1 {
        Some(VoxelType::Latch(LatchVariants::SRLatch))
    } else if g == 8 && s == 0 {
        Some(VoxelType::Component(ComponentVariants::Clock))
    } else if g == 8 && s == 1 {
        Some(VoxelType::Component(ComponentVariants::Switch))
    } else if g == 8 && s == 2 {
        Some(VoxelType::Component(ComponentVariants::Button))
    } else if g == 8 && s == 3 {
        Some(VoxelType::Component(ComponentVariants::Light))
    } else {
        None
    }
}

/// A kind that has a `(group, index)` pair: every kind except a wire on a
/// channel that does not exist.
pub open spec fn is_listed_kind(k: VoxelType) -> bool {
    match k {
        VoxelType::Wire(c) => c < 16,
        _ => true,
    }
}

impl VoxelType {
    /// The group number of this kind.
    pub fn group(self) -> (r: usize)
        ensures
            r == group_of(self),
    {
        match self {
            VoxelType::Structure(_) => 0,
            VoxelType::BundledWire => 1,
            VoxelType::Wire(_) => 2,
            VoxelType::Not(_) => 3,
            VoxelType::And(_) => 4,
            VoxelType::Or(_) => 5,
            VoxelType::Xor(_) => 6,
            VoxelType::Latch(_) => 7,
            VoxelType::Component(_) => 8,
        }
    }

    /// The index of this kind within its group.
    pub fn sub_group(self) -> (r: usize)
        ensures
            r == sub_group_of(self),
    {
        match self {
            VoxelType::Structure(v) => match v {
                StructuralVariants::BrownBrick => 0,
                StructuralVariants::RedBrick => 1,
                StructuralVariants::SandstoneBrick => 2,
                StructuralVariants::StoneBrick => 3,
                StructuralVariants::RedTile => 4,
                StructuralVariants::GreenTile => 5,
                StructuralVariants::BlueTile => 6,
                StructuralVariants::WhiteTile => 7,
            },
            VoxelType::BundledWire => 0,
            VoxelType::Wire(x) => x as usize,
            VoxelType::Not(v) => match v {
                NotVariants::NotGate => 0,
                NotVariants::BufferGate => 1,
            },
            VoxelType::And(v) => match v {
                AndVariants::AndGate => 0,
                AndVariants::NandGate => 1,
            },
            VoxelType::Or(v) => match v {
                OrVariants::OrGate => 0,
                OrVariants::NorGate => 1,
            },
            VoxelType::Xor(v) => match v {
                XorVariants::XorGate => 0,
                XorVariants::XnorGate => 1,
            },
            VoxelType::Latch(v) => match v {
                LatchVariants::DFlipFlop => 0,
                LatchVariants::SRLatch => 1,
            },
            VoxelType::Component(v) => match v {
                ComponentVariants::Clock => 0,
                ComponentVariants::Switch => 1,
                ComponentVariants::Button => 2,
                ComponentVariants::Light => 3,
            },
        }
    }

    /// The `(group, index)` pair of this kind.
    pub fn as_pair(self) -> (r: (usize, usize))
        ensures
            r == (group_of(self), sub_group_of(self)),
    {
        (self.group(), self.sub_group())
    }

    /// The kind named by a `(group, index)` pair; an unknown pair is refused.
    pub fn try_from(pair: (usize, usize)) -> (r: Result<VoxelType, &'static str>)
        ensures
            match kind_of_pair(pair.0, pair.1) {
                Some(k) => r == Ok::<VoxelType, &'static str>(k),
                None => r == Err::<VoxelType, &'static str>("Unknown voxel_id"),
            },
    {
        let (g, s) = pair;
        if g == 0 {
            if s == 0 {
                Ok(VoxelType::Structure(StructuralVariants::BrownBrick))
            } else if s == 1 {
                Ok(VoxelType::Structure(StructuralVariants::RedBrick))
            } else if s == 2 {
                Ok(VoxelType::Structure(StructuralVariants::SandstoneBrick))
            } else if s == 3 {
                Ok(VoxelType::Structure(StructuralVariants::StoneBrick))
            } else if s == 4 {
                Ok(VoxelType::Structure(StructuralVariants::RedTile))
            } else if s == 5 {
                Ok(VoxelType::Structure(StructuralVariants::GreenTile))
            } else if s == 6 {
                Ok(VoxelType::Structure(StructuralVariants::BlueTile))
            } else if s == 7 {
                Ok(VoxelType::Structure(StructuralVariants::WhiteTile))
            } else {
                Err("Unknown voxel_id")
            }
        } else if g == 1 && s == 0 {
            Ok(VoxelType::BundledWire)
        } else if g == 2 && s <= 15 {
            Ok(VoxelType::Wire(s as u8))
        } else if g >= 3 && g <= 7 && s <= 1 {
            if g == 3 {
                Ok(VoxelType::Not(if s == 0 { NotVariants::NotGate } else { NotVariants::BufferGate }))
            } else if g == 4 {
                Ok(VoxelType::And(if s == 0 { AndVariants::AndGate } else { AndVariants::NandGate }))
            } else if g == 5 {
                Ok(VoxelType::Or(if s == 0 { OrVariants::OrGate } else { OrVariants::NorGate }))
            } else if g == 6 {
                Ok(VoxelType::Xor(if s == 0 { XorVariants::XorGate } else { XorVariants::XnorGate }))
            } else {
                Ok(VoxelType::Latch(if s == 0 { LatchVariants::DFlipFlop } else { LatchVariants::SRLatch }))
            }
        } else if g == 8 && s <= 3 {
            if s == 0 {
                Ok(VoxelType::Component(ComponentVariants::Clock))
            } else if s == 1 {
                Ok(VoxelType::Component(ComponentVariants::Switch))
            } else if s == 2 {
                Ok(VoxelType::Component(ComponentVariants::Button))
            } else {
                Ok(VoxelType::Component(ComponentVariants::Light))
            }
        } else {
            Err("Unknown voxel_id")
        }
    }
}

/// Every kind with a `(group, index)` pair is named by that pair: converting
/// a kind to its pair and back gives the kind again.
pub proof fn lemma_pair_round_trip(k: VoxelType)
    requires
        is_listed_kind(k),
    ensures
        kind_of_pair(group_of(k), sub_group_of(k)) == Some(k),
{
    match k {
        VoxelType::Wire(c) => {
            assert((c as usize) as u8 == c);
        },
        _ => {},
    }
}

/// A pair that names a kind is that kind's pair: converting a pair to a kind
/// and back gives the pair again.
pub proof fn lemma_kind_round_trip(g: usize, s: usize)
    requires
        kind_of_pair(g, s) is Some,
    ensures
        group_of(kind_of_pair(g, s)->0) == g,
        sub_group_of(kind_of_pair(g, s)->0) == s,
        is_listed_kind(kind_of_pair(g, s)->0),
{
}

/// Every pair that names a kind lies inside the group table: its group is
/// below nine and its index below that group's size.
pub proof fn lemma_pair_within_subsets(g: usize, s: usize)
    ensures
        kind_of_pair(g, s) is Some <==> (g < 9 && s < subset_size(g as int)),
{
}

} // verus!
