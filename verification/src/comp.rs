//! Small components of game entities: the state of a pet, the shape of a
//! shockwave, the cells of a figure and the attributes of a sprite.

use vstd::prelude::*;
use std::convert::Infallible;

verus! {

/// Identity of an entity across the network.
#[derive(Clone, Copy, Debug, Hash, PartialEq, Eq, Structural)]
pub struct Uid(pub u64);

/// What a pet is told to do.
#[derive(Clone, Copy, Debug, PartialEq, Eq, Structural)]
pub enum StayFollow {
    Stay,
    Follow,
}

/// Whether a pet stays where it is.
#[derive(Clone, Copy, Debug, PartialEq, Eq, Structural)]
pub struct PetState {
    pub stay: bool,
}

impl Default for PetState {
    fn default() -> (s: Self)
        ensures
            !s.stay,
    {
        PetState { stay: false }
    }
}

impl PetState {
    pub fn get_state(&self) -> (stay: bool)
        ensures
            stay == self.stay,
    {
        self.stay
    }
}

/// How a shockwave can be dodged.
#[derive(Clone, Copy, Debug, PartialEq, Eq, Structural)]
pub enum ShockwaveDodgeable {
    Roll,
    Jump,
    No,
}

/// Where an attack comes from, as far as shockwaves go.
#[derive(Clone, Copy, Debug, PartialEq, Eq, Structural)]
pub enum AttackSource {
    AirShockwave,
    GroundShockwave,
    UndodgeableShockwave,
}

impl ShockwaveDodgeable {
    /// The source that an attack by the shockwave has: one in the air where
    /// it is dodged by rolling, one on the ground where by jumping.
    pub fn to_attack_source(&self) -> (source: AttackSource)
        ensures
            source == match *self {
                ShockwaveDodgeable::Roll => AttackSource::AirShockwave,
                ShockwaveDodgeable::Jump => AttackSource::GroundShockwave,
                ShockwaveDodgeable::No => AttackSource::UndodgeableShockwave,
            },
    {
        match self {
            ShockwaveDodgeable::Roll => AttackSource::AirShockwave,
            ShockwaveDodgeable::Jump => AttackSource::GroundShockwave,
            ShockwaveDodgeable::No => AttackSource::UndodgeableShockwave,
        }
    }
}

/// The entities that a shockwave has hit.
pub struct ShockwaveHitEntities {
    pub hit_entities: Vec<Uid>,
}

/// What a shockwave looks like.
#[derive(Clone, Copy, Debug, PartialEq, Eq, Structural)]
pub enum FrontendSpecifier {
    Ground,
    Fire,
    Water,
    Ice,
    IceSpikes,
    Steam,
    Poison,
    Ink,
    Lightning,
}

/// The materials of a figure that take their colour from the character.
#[derive(Clone, Copy, Debug, PartialEq, Eq, Structural)]
pub enum Material {
    Skin,
    SkinDark,
    SkinLight,
    Hair,
    EyeDark,
    EyeLight,
    EyeWhite,
}

/// A cell with a colour of its own.
#[derive(Clone, Copy, Debug, PartialEq, Eq, Structural)]
pub struct CellData {
    pub r: u8,
    pub g: u8,
    pub b: u8,
    pub attr: u8,
}

/// A cell of a figure.
#[derive(Clone, Copy, Debug, PartialEq, Eq, Structural)]
pub enum MatCell {
    Empty,
    Mat(Material),
    Normal(CellData),
}

impl MatCell {
    /// The cell that holds nothing.
    pub fn default_non_filled() -> (c: Self)
        ensures
            c == MatCell::Empty,
    {
        MatCell::Empty
    }

    /// Whether the cell holds something.
    pub fn is_filled(&self) -> (b: bool)
        ensures
            b == (*self != MatCell::Empty),
    {
        !matches!(self, MatCell::Empty)
    }
}

/// Why an attribute could not be read from the data of a block.
#[derive(Debug)]
pub enum AttributeError<E> {
    /// The attribute was not present for the given block data's category.
    NotPresent,
    /// An attribute-specific error occurred when performing extraction.
    Attribute(E),
}

/// An attribute of a sprite, kept in some bits of the data of its block.
pub trait Attribute: Sized {
    /// The error that might occur when decoding the attribute from bits.
    type Error;

    /// The number of bits required to represent this attribute.
    spec fn bit_count() -> u8;

    /// The bits that stand for the attribute.
    spec fn bits_spec(self) -> u16;

    /// The number of bits required to represent this attribute.
    fn bits() -> (n: u8)
        ensures
            n == Self::bit_count(),
    ;

    /// The attribute that `bits` stand for. The bits that an attribute is
    /// turned into stand for it.
    fn from_bits(bits: u16) -> (r: Result<Self, Self::Error>)
        ensures
            forall|a: Self| a.bits_spec() == bits ==> r == Ok::<Self, Self::Error>(a),
    ;

    /// The bits that stand for the attribute.
    fn into_bits(self) -> (bits: u16)
        ensures
            bits == self.bits_spec(),
    ;
}

/// Whether a sprite is mirrored.
#[derive(Clone, Copy, Debug, PartialEq, Eq, Structural)]
pub struct MirrorX(pub bool);

impl Attribute for MirrorX {
    type Error = Infallible;

    open spec fn bit_count() -> u8 {
        1
    }

    open spec fn bits_spec(self) -> u16 {
        if self.0 {
            1
        } else {
            0
        }
    }

    fn bits() -> (n: u8) {
        1
    }

    fn from_bits(bits: u16) -> (r: Result<Self, Self::Error>)
        ensures
            r == Ok::<Self, Infallible>(MirrorX(bits == 1)),
    {
        Ok(MirrorX(bits == 1))
    }

    fn into_bits(self) -> (bits: u16) {
        if self.0 {
            1
        } else {
            0
        }
    }
}

} // verus!
