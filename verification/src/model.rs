//! Block-model description types and their texture-variable bindings.
//!
//! Geometry is carried in fixed-point model subunits: 16 subunits per
//! model unit, so the full 0-16 model cube spans `0..=256` (see
//! [`FULL_EXTENT`]). This keeps every coordinate the baker produces exact
//! integer arithmetic; the embedding renderer divides by [`FULL_EXTENT`]
//! to obtain normalized floating-point positions.

use vstd::prelude::*;

verus! {

/// Subunits per model unit.
pub const COORD_SCALE: u16 = 16;

/// The extent of the full model cube in subunits (16 model units).
pub const FULL_EXTENT: u16 = 256;

/// A corner of a cuboid element, in model subunits.
///
/// A full cube spans `(0, 0, 0)` to
/// `(FULL_EXTENT, FULL_EXTENT, FULL_EXTENT)`.
#[derive(Clone, Copy, PartialEq, Eq, Structural, Debug)]
pub struct ModelPoint {
    pub x: u16,
    pub y: u16,
    pub z: u16,
}

/// The value bound to a texture variable: either a concrete texture id,
/// or a reference to another texture variable of the same model, kept
/// structurally so that no string convention has to be re-parsed.
#[derive(PartialEq, Eq, Debug)]
pub enum TextureValue {
    /// A concrete texture id, resolvable against the atlas.
    Concrete(String),
    /// A reference to another texture variable by name.
    Reference(String),
}

impl TextureValue {
    /// An exact copy of the value.
    pub fn copy_of(&self) -> (r: TextureValue)
        ensures
            r == *self,
    {
        match self {
            TextureValue::Concrete(s) => TextureValue::Concrete(s.clone()),
            TextureValue::Reference(s) => TextureValue::Reference(s.clone()),
        }
    }

    /// True exactly when the value is a concrete texture id.
    pub fn is_concrete(&self) -> (r: bool)
        ensures
            r == (*self is Concrete),
    {
        match self {
            TextureValue::Concrete(_) => true,
            TextureValue::Reference(_) => false,
        }
    }
}

/// One entry of a model's texture mapping: a variable name and its value.
#[derive(PartialEq, Eq, Debug)]
pub struct TextureBinding {
    pub name: String,
    pub value: TextureValue,
}

impl TextureBinding {
    /// An exact copy of the binding.
    pub fn copy_of(&self) -> (r: TextureBinding)
        ensures
            r == *self,
    {
        TextureBinding { name: self.name.clone(), value: self.value.copy_of() }
    }
}

/// The texture id or variable name a value carries.
pub open spec fn spec_value_str(v: TextureValue) -> Seq<char> {
    match v {
        TextureValue::Concrete(s) => s@,
        TextureValue::Reference(s) => s@,
    }
}

/// The value the mapping binds to `name`: the first binding with that
/// name wins.
pub open spec fn spec_texture_lookup(bindings: Seq<TextureBinding>, name: Seq<char>) -> Option<
    TextureValue,
>
    decreases bindings.len(),
{
    if bindings.len() == 0 {
        None
    } else if bindings[0].name@ == name {
        Some(bindings[0].value)
    } else {
        spec_texture_lookup(bindings.subrange(1, bindings.len() as int), name)
    }
}

/// Appending a binding leaves every bound name at its old value and
/// binds the new name only where it was absent.
pub proof fn lemma_texture_lookup_push(
    bindings: Seq<TextureBinding>,
    b: TextureBinding,
    name: Seq<char>,
)
    ensures
        spec_texture_lookup(bindings.push(b), name) == (match spec_texture_lookup(bindings, name) {
            Some(v) => Some(v),
            None => if b.name@ == name {
                Some(b.value)
            } else {
                None
            },
        }),
    decreases bindings.len(),
{
    let pushed = bindings.push(b);
    assert(pushed.len() == bindings.len() + 1);
    if bindings.len() == 0 {
        assert(pushed[0] == b);
        assert(pushed.subrange(1, pushed.len() as int) =~= Seq::<TextureBinding>::empty());
        assert(spec_texture_lookup(pushed.subrange(1, pushed.len() as int), name) is None);
    } else {
        assert(pushed[0] == bindings[0]);
        lemma_texture_lookup_push(bindings.subrange(1, bindings.len() as int), b, name);
        assert(pushed.subrange(1, pushed.len() as int) =~= bindings.subrange(
            1,
            bindings.len() as int,
        ).push(b));
    }
}

/// Every binding's value is a concrete texture id.
pub open spec fn spec_all_concrete(bindings: Seq<TextureBinding>) -> bool {
    forall|i: int| 0 <= i < bindings.len() ==> bindings[i].value is Concrete
}

/// Looks `name` up in a texture mapping; the first binding wins.
pub fn texture_lookup(bindings: &Vec<TextureBinding>, name: &String) -> (r: Option<TextureValue>)
    ensures
        r == spec_texture_lookup(bindings@, name@),
{
    let mut i: usize = 0;
    proof {
        assert(bindings@.subrange(0, bindings@.len() as int) =~= bindings@);
    }
    while i < bindings.len()
        invariant
            0 <= i <= bindings@.len(),
            spec_texture_lookup(bindings@, name@) == spec_texture_lookup(
                bindings@.subrange(i as int, bindings@.len() as int),
                name@,
            ),
        decreases bindings@.len() - i,
    {
        proof {
            assert(bindings@.subrange(i as int, bindings@.len() as int)[0] == bindings@[i as int]);
        }
        if bindings[i].name == *name {
            return Some(bindings[i].value.copy_of());
        }
        proof {
            assert(bindings@.subrange(i as int, bindings@.len() as int).subrange(
                1,
                bindings@.len() - i,
            ) =~= bindings@.subrange(i + 1, bindings@.len() as int));
        }
        i = i + 1;
    }
    None
}

/// One face of a cuboid element.
#[derive(PartialEq, Eq, Debug)]
pub struct ElementFace {
    /// What the face is textured with, usually a reference to one of the
    /// model's texture variables.
    pub texture: TextureValue,
    /// Texture rotation on the face in degrees, one of 0, 90, 180, 270.
    pub rotation: u32,
}

impl ElementFace {
    /// An exact copy of the face.
    pub fn copy_of(&self) -> (r: ElementFace)
        ensures
            r == *self,
    {
        ElementFace { texture: self.texture.copy_of(), rotation: self.rotation }
    }
}

/// One axis-aligned cuboid of a model, with an optional face per
/// direction; a direction without a face renders nothing there.
#[derive(PartialEq, Eq, Debug)]
pub struct Element {
    /// Low corner of the cuboid, in model subunits.
    pub from: ModelPoint,
    /// High corner of the cuboid, in model subunits.
    pub to: ModelPoint,
    pub north: Option<ElementFace>,
    pub east: Option<ElementFace>,
    pub south: Option<ElementFace>,
    pub west: Option<ElementFace>,
    pub up: Option<ElementFace>,
    pub down: Option<ElementFace>,
}

/// A block-model document: an optional parent model id, the texture
/// mapping, and the cuboid elements (absent when inherited).
#[derive(PartialEq, Eq, Debug)]
pub struct Model {
    /// Id of the parent model this one inherits from, if any.
    pub parent: Option<String>,
    /// Texture-variable bindings.
    pub textures: Vec<TextureBinding>,
    /// The cuboids, or `None` when the parent chain supplies them.
    pub elements: Option<Vec<Element>>,
}

/// The elements of a model as a sequence, `None` when the model defines
/// none of its own.
pub open spec fn spec_elements(m: Model) -> Option<Seq<Element>> {
    match m.elements {
        Some(es) => Some(es@),
        None => None,
    }
}

/// One model reference of a blockstate variant: the model id and the
/// rotation about the vertical axis, in degrees (a multiple of 90).
#[derive(PartialEq, Eq, Debug)]
pub struct VariantModel {
    /// Model id, e.g. `block/furnace`.
    pub model: String,
    /// Rotation about the vertical axis in degrees; a multiple of 90.
    pub y: u32,
}

/// A blockstate variant: the model references it selects.
#[derive(PartialEq, Eq, Debug)]
pub struct Variant {
    pub models: Vec<VariantModel>,
}

} // verus!
