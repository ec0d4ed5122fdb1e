//! The mesh baker: turns resolved models and the atlas into the fixed
//! 24-vertex-per-element layout the chunk mesher consumes.
//!
//! Positions are emitted in cube subunits: the full block spans
//! `0..=FULL_EXTENT` on each axis, model space is mirrored on the first
//! axis, and the variant's rotation about the vertical axis is applied as
//! an exact quarter turn about the cube center.

use vstd::prelude::*;

use crate::atlas::{missing_textures, spec_assoc, Atlas, TexturePacker, TextureUpload, UvRect};
use crate::error::MeshBakeError;
use crate::model::{
    Element, ElementFace, Model, ModelPoint, TextureBinding, TextureValue, Variant,
    FULL_EXTENT,
};
use crate::resolver::{model_resource_path, resolve_model};
use crate::resource::{ModelFetch, ResourcePath, ResourceProvider};

verus! {

/// A point of the baked mesh (or an axis-aligned normal), in cube
/// subunits: the full block spans `0..=FULL_EXTENT` per axis.
#[derive(Clone, Copy, PartialEq, Eq, Structural, Debug)]
pub struct MeshPoint {
    pub x: i32,
    pub y: i32,
    pub z: i32,
}

/// The atlas texel position of a vertex.
#[derive(Clone, Copy, PartialEq, Eq, Structural, Debug)]
pub struct TexCoords {
    pub u: u16,
    pub v: u16,
}

/// One vertex of a baked block mesh: position, atlas texel coordinates,
/// face normal, and the face texture's animation offset.
#[derive(Clone, Copy, PartialEq, Eq, Structural, Debug)]
pub struct BlockMeshVertex {
    pub position: MeshPoint,
    pub tex_coords: TexCoords,
    pub normal: MeshPoint,
    pub animation_uv_offset: u32,
}

/// The baked output of one element: exactly 24 vertices (4 per face, in
/// the fixed order south, west, north, east, up, down) and one index
/// list per face that has a texture (`None` marks a face that is not
/// rendered and not culled against).
#[derive(PartialEq, Eq, Debug)]
pub struct BlockModelFaces {
    pub vertices: Vec<BlockMeshVertex>,
    pub north: Option<Vec<u32>>,
    pub east: Option<Vec<u32>>,
    pub south: Option<Vec<u32>>,
    pub west: Option<Vec<u32>>,
    pub up: Option<Vec<u32>>,
    pub down: Option<Vec<u32>>,
}

/// Whether a baked model is a single full cube (eligible for
/// neighbor-face culling) or anything else.
#[derive(PartialEq, Eq, Debug)]
pub enum CubeOrComplexMesh {
    /// A single element spanning the full block.
    Cube(Box<BlockModelFaces>),
    /// Any other element configuration.
    Complex(Vec<BlockModelFaces>),
}

/// A block model baked into mesh form: one entry per model reference of
/// the input variants, each with `should_render_neighbors`, true whenever
/// the model does not fully obscure its neighbors' faces.
#[derive(PartialEq, Eq, Debug)]
pub struct ModelMesh {
    pub models: Vec<(CubeOrComplexMesh, bool)>,
}

/// The atlas data of one face: its UV rectangle and animation offset.
#[derive(Clone, Copy, PartialEq, Eq, Structural, Debug)]
pub struct FaceTexture {
    pub uv: UvRect,
    pub animation_offset: u32,
}

/// The atlas data of the six faces of one element, `None` for a face
/// without a texture (or whose texture the atlas does not hold).
#[derive(Clone, Copy, PartialEq, Eq, Debug)]
pub struct FaceTextures {
    pub south: Option<FaceTexture>,
    pub west: Option<FaceTexture>,
    pub north: Option<FaceTexture>,
    pub east: Option<FaceTexture>,
    pub up: Option<FaceTexture>,
    pub down: Option<FaceTexture>,
}

/// How many quarter turns a rotation in degrees amounts to.
pub open spec fn spec_quarter_turns(y: int) -> int {
    (y % 360) / 90
}

/// The number of quarter turns `y` degrees amount to.
pub fn quarter_turns(y: u32) -> (r: u32)
    ensures
        r == spec_quarter_turns(y as int),
        r < 4,
{
    (y % 360) / 90
}

/// A full extra turn changes nothing: the quarter-turn count is periodic
/// in 360 degrees.
pub proof fn lemma_quarter_turns_periodic(y: int)
    ensures
        spec_quarter_turns(y + 360) == spec_quarter_turns(y),
{
    assert((y + 360) % 360 == y % 360) by (nonlinear_arith);
}

/// Baking is periodic in full turns: rotating an element's variant by
/// 360 more degrees reproduces the original baked vertices exactly.
pub proof fn lemma_bake_periodic(e: Element, ft: FaceTextures, y: int)
    ensures
        spec_baked_vertices(e, spec_quarter_turns(y + 360), ft) == spec_baked_vertices(
            e,
            spec_quarter_turns(y),
            ft,
        ),
{
    lemma_quarter_turns_periodic(y);
}

/// The point `q` quarter turns about the vertical axis through the cube
/// center take `p` to.
pub open spec fn spec_rotate_quarter(p: MeshPoint, q: int) -> MeshPoint {
    if q == 1 {
        MeshPoint { x: p.z, y: p.y, z: (FULL_EXTENT - p.x) as i32 }
    } else if q == 2 {
        MeshPoint { x: (FULL_EXTENT - p.x) as i32, y: p.y, z: (FULL_EXTENT - p.z) as i32 }
    } else if q == 3 {
        MeshPoint { x: (FULL_EXTENT - p.z) as i32, y: p.y, z: p.x }
    } else {
        p
    }
}

/// Rotates `p` by `q` quarter turns about the vertical axis through the
/// cube center.
pub fn rotate_quarter(p: MeshPoint, q: u32) -> (r: MeshPoint)
    requires
        q < 4,
        -0x10000 <= p.x <= 0x10000,
        -0x10000 <= p.z <= 0x10000,
    ensures
        r == spec_rotate_quarter(p, q as int),
{
    let extent: i32 = FULL_EXTENT as i32;
    if q == 1 {
        MeshPoint { x: p.z, y: p.y, z: extent - p.x }
    } else if q == 2 {
        MeshPoint { x: extent - p.x, y: p.y, z: extent - p.z }
    } else if q == 3 {
        MeshPoint { x: extent - p.z, y: p.y, z: p.x }
    } else {
        p
    }
}

/// A corner of the element in mesh space, before rotation: each flag
/// picks the `to` extent of its axis instead of `from`, and the first
/// axis is mirrored.
pub open spec fn spec_corner(e: Element, to_x: bool, to_y: bool, to_z: bool) -> MeshPoint {
    MeshPoint {
        x: (FULL_EXTENT - (if to_x {
            e.to.x
        } else {
            e.from.x
        })) as i32,
        y: (if to_y {
            e.to.y
        } else {
            e.from.y
        }) as i32,
        z: (if to_z {
            e.to.z
        } else {
            e.from.z
        }) as i32,
    }
}

/// The corner after the variant rotation.
fn corner(e: &Element, to_x: bool, to_y: bool, to_z: bool, q: u32) -> (r: MeshPoint)
    requires
        q < 4,
    ensures
        r == spec_rotate_quarter(spec_corner(*e, to_x, to_y, to_z), q as int),
{
    let x: i32 = (FULL_EXTENT as i32) - (if to_x {
        e.to.x
    } else {
        e.from.x
    }) as i32;
    let y: i32 = (if to_y {
        e.to.y
    } else {
        e.from.y
    }) as i32;
    let z: i32 = (if to_z {
        e.to.z
    } else {
        e.from.z
    }) as i32;
    rotate_quarter(MeshPoint { x, y, z }, q)
}

/// The placeholder for a face without a texture: zero UV, no animation.
/// Its vertices stay in the output but no index list refers to them.
pub open spec fn spec_face_or_default(f: Option<FaceTexture>) -> FaceTexture {
    match f {
        Some(t) => t,
        None => FaceTexture { uv: UvRect { u0: 0, v0: 0, u1: 0, v1: 0 }, animation_offset: 0 },
    }
}

/// Exec twin of [`spec_face_or_default`].
fn face_or_default(f: Option<FaceTexture>) -> (r: FaceTexture)
    ensures
        r == spec_face_or_default(f),
{
    match f {
        Some(t) => t,
        None => FaceTexture { uv: UvRect { u0: 0, v0: 0, u1: 0, v1: 0 }, animation_offset: 0 },
    }
}

/// One baked vertex.
pub open spec fn spec_vertex(
    p: MeshPoint,
    u: u16,
    v: u16,
    nx: int,
    ny: int,
    nz: int,
    off: u32,
) -> BlockMeshVertex {
    BlockMeshVertex {
        position: p,
        tex_coords: TexCoords { u, v },
        normal: MeshPoint { x: nx as i32, y: ny as i32, z: nz as i32 },
        animation_uv_offset: off,
    }
}

/// The 24 vertices one element bakes to, grouped 4 per face in the order
/// south, west, north, east, up, down, with the corners of each face
/// ordered so its two triangles wind consistently.
pub open spec fn spec_baked_vertices(e: Element, q: int, ft: FaceTextures) -> Seq<
    BlockMeshVertex,
> {
    let pa = spec_rotate_quarter(spec_corner(e, false, false, false), q);
    let pb = spec_rotate_quarter(spec_corner(e, true, false, false), q);
    let pc = spec_rotate_quarter(spec_corner(e, true, true, false), q);
    let pd = spec_rotate_quarter(spec_corner(e, false, true, false), q);
    let pe = spec_rotate_quarter(spec_corner(e, false, false, true), q);
    let pf = spec_rotate_quarter(spec_corner(e, true, false, true), q);
    let pg = spec_rotate_quarter(spec_corner(e, true, true, true), q);
    let ph = spec_rotate_quarter(spec_corner(e, false, true, true), q);
    let ts = spec_face_or_default(ft.south);
    let tw = spec_face_or_default(ft.west);
    let tn = spec_face_or_default(ft.north);
    let te = spec_face_or_default(ft.east);
    let tu = spec_face_or_default(ft.up);
    let td = spec_face_or_default(ft.down);
    seq![
        spec_vertex(pe, ts.uv.u1, ts.uv.v1, 0, 0, 1, ts.animation_offset),
        spec_vertex(pf, ts.uv.u0, ts.uv.v1, 0, 0, 1, ts.animation_offset),
        spec_vertex(pg, ts.uv.u0, ts.uv.v0, 0, 0, 1, ts.animation_offset),
        spec_vertex(ph, ts.uv.u1, ts.uv.v0, 0, 0, 1, ts.animation_offset),
        spec_vertex(pb, tw.uv.u0, tw.uv.v1, -1, 0, 0, tw.animation_offset),
        spec_vertex(pc, tw.uv.u0, tw.uv.v0, -1, 0, 0, tw.animation_offset),
        spec_vertex(pg, tw.uv.u1, tw.uv.v0, -1, 0, 0, tw.animation_offset),
        spec_vertex(pf, tw.uv.u1, tw.uv.v1, -1, 0, 0, tw.animation_offset),
        spec_vertex(pa, tn.uv.u0, tn.uv.v1, 0, 0, -1, tn.animation_offset),
        spec_vertex(pb, tn.uv.u1, tn.uv.v1, 0, 0, -1, tn.animation_offset),
        spec_vertex(pc, tn.uv.u1, tn.uv.v0, 0, 0, -1, tn.animation_offset),
        spec_vertex(pd, tn.uv.u0, tn.uv.v0, 0, 0, -1, tn.animation_offset),
        spec_vertex(ph, te.uv.u0, te.uv.v0, 1, 0, 0, te.animation_offset),
        spec_vertex(pe, te.uv.u0, te.uv.v1, 1, 0, 0, te.animation_offset),
        spec_vertex(pa, te.uv.u1, te.uv.v1, 1, 0, 0, te.animation_offset),
        spec_vertex(pd, te.uv.u1, te.uv.v0, 1, 0, 0, te.animation_offset),
        spec_vertex(pd, tu.uv.u0, tu.uv.v1, 0, 1, 0, tu.animation_offset),
        spec_vertex(pc, tu.uv.u1, tu.uv.v1, 0, 1, 0, tu.animation_offset),
        spec_vertex(pg, tu.uv.u1, tu.uv.v0, 0, 1, 0, tu.animation_offset),
        spec_vertex(ph, tu.uv.u0, tu.uv.v0, 0, 1, 0, tu.animation_offset),
        spec_vertex(pb, td.uv.u0, td.uv.v0, 0, -1, 0, td.animation_offset),
        spec_vertex(pe, td.uv.u1, td.uv.v1, 0, -1, 0, td.animation_offset),
        spec_vertex(pa, td.uv.u1, td.uv.v0, 0, -1, 0, td.animation_offset),
        spec_vertex(pf, td.uv.u0, td.uv.v1, 0, -1, 0, td.animation_offset),
    ]
}

/// A face's index list is present exactly when the face has a texture,
/// and then holds the fixed six indices of its two triangles.
pub open spec fn spec_face_indices_match(
    ix: Option<Vec<u32>>,
    ft: Option<FaceTexture>,
    want: Seq<u32>,
) -> bool {
    match ix {
        Some(v) => ft is Some && v@ == want,
        None => ft is None,
    }
}

/// The baked faces `b` are exactly what element `e` bakes to under
/// rotation `q` and face textures `ft`.
pub open spec fn spec_faces_match(b: BlockModelFaces, e: Element, q: int, ft: FaceTextures) -> bool {
    &&& b.vertices@ == spec_baked_vertices(e, q, ft)
    &&& spec_face_indices_match(b.south, ft.south, seq![0u32, 3, 1, 1, 3, 2])
    &&& spec_face_indices_match(b.west, ft.west, seq![4u32, 7, 5, 5, 7, 6])
    &&& spec_face_indices_match(b.north, ft.north, seq![9u32, 11, 8, 10, 11, 9])
    &&& spec_face_indices_match(b.east, ft.east, seq![13u32, 15, 12, 14, 15, 13])
    &&& spec_face_indices_match(b.up, ft.up, seq![16u32, 17, 18, 16, 18, 19])
    &&& spec_face_indices_match(b.down, ft.down, seq![22u32, 21, 20, 20, 21, 23])
}

/// Well-formedness of baked faces: exactly 24 vertices, and every
/// present index list holds exactly 6 indices, each into the 24.
pub open spec fn spec_faces_wf(b: BlockModelFaces) -> bool {
    &&& b.vertices@.len() == 24
    &&& (b.south matches Some(v) ==> v@.len() == 6 && forall|i: int|
        0 <= i < 6 ==> #[trigger] v@[i] < 24)
    &&& (b.west matches Some(v) ==> v@.len() == 6 && forall|i: int|
        0 <= i < 6 ==> #[trigger] v@[i] < 24)
    &&& (b.north matches Some(v) ==> v@.len() == 6 && forall|i: int|
        0 <= i < 6 ==> #[trigger] v@[i] < 24)
    &&& (b.east matches Some(v) ==> v@.len() == 6 && forall|i: int|
        0 <= i < 6 ==> #[trigger] v@[i] < 24)
    &&& (b.up matches Some(v) ==> v@.len() == 6 && forall|i: int|
        0 <= i < 6 ==> #[trigger] v@[i] < 24)
    &&& (b.down matches Some(v) ==> v@.len() == 6 && forall|i: int|
        0 <= i < 6 ==> #[trigger] v@[i] < 24)
}

/// A six-entry index list.
fn indices6(i0: u32, i1: u32, i2: u32, i3: u32, i4: u32, i5: u32) -> (r: Vec<u32>)
    ensures
        r@ == seq![i0, i1, i2, i3, i4, i5],
{
    let mut v: Vec<u32> = Vec::new();
    v.push(i0);
    v.push(i1);
    v.push(i2);
    v.push(i3);
    v.push(i4);
    v.push(i5);
    proof {
        assert(v@ =~= seq![i0, i1, i2, i3, i4, i5]);
    }
    v
}

/// Bakes one element: emits the fixed 24-vertex layout and the per-face
/// triangle indices for every face that has a texture.
pub fn bake_element(e: &Element, q: u32, ft: FaceTextures) -> (r: BlockModelFaces)
    requires
        q < 4,
    ensures
        spec_faces_match(r, *e, q as int, ft),
        spec_faces_wf(r),
{
    let pa = corner(e, false, false, false, q);
    let pb = corner(e, true, false, false, q);
    let pc = corner(e, true, true, false, q);
    let pd = corner(e, false, true, false, q);
    let pe = corner(e, false, false, true, q);
    let pf = corner(e, true, false, true, q);
    let pg = corner(e, true, true, true, q);
    let ph = corner(e, false, true, true, q);
    let ts = face_or_default(ft.south);
    let tw = face_or_default(ft.west);
    let tn = face_or_default(ft.north);
    let te = face_or_default(ft.east);
    let tu = face_or_default(ft.up);
    let td = face_or_default(ft.down);
    let mut vertices: Vec<BlockMeshVertex> = Vec::new();
    vertices.push(BlockMeshVertex { position: pe, tex_coords: TexCoords { u: ts.uv.u1, v: ts.uv.v1 }, normal: MeshPoint { x: 0, y: 0, z: 1 }, animation_uv_offset: ts.animation_offset });
    vertices.push(BlockMeshVertex { position: pf, tex_coords: TexCoords { u: ts.uv.u0, v: ts.uv.v1 }, normal: MeshPoint { x: 0, y: 0, z: 1 }, animation_uv_offset: ts.animation_offset });
    vertices.push(BlockMeshVertex { position: pg, tex_coords: TexCoords { u: ts.uv.u0, v: ts.uv.v0 }, normal: MeshPoint { x: 0, y: 0, z: 1 }, animation_uv_offset: ts.animation_offset });
    vertices.push(BlockMeshVertex { position: ph, tex_coords: TexCoords { u: ts.uv.u1, v: ts.uv.v0 }, normal: MeshPoint { x: 0, y: 0, z: 1 }, animation_uv_offset: ts.animation_offset });
    vertices.push(BlockMeshVertex { position: pb, tex_coords: TexCoords { u: tw.uv.u0, v: tw.uv.v1 }, normal: MeshPoint { x: -1, y: 0, z: 0 }, animation_uv_offset: tw.animation_offset });
    vertices.push(BlockMeshVertex { position: pc, tex_coords: TexCoords { u: tw.uv.u0, v: tw.uv.v0 }, normal: MeshPoint { x: -1, y: 0, z: 0 }, animation_uv_offset: tw.animation_offset });
    vertices.push(BlockMeshVertex { position: pg, tex_coords: TexCoords { u: tw.uv.u1, v: tw.uv.v0 }, normal: MeshPoint { x: -1, y: 0, z: 0 }, animation_uv_offset: tw.animation_offset });
    vertices.push(BlockMeshVertex { position: pf, tex_coords: TexCoords { u: tw.uv.u1, v: tw.uv.v1 }, normal: MeshPoint { x: -1, y: 0, z: 0 }, animation_uv_offset: tw.animation_offset });
    vertices.push(BlockMeshVertex { position: pa, tex_coords: TexCoords { u: tn.uv.u0, v: tn.uv.v1 }, normal: MeshPoint { x: 0, y: 0, z: -1 }, animation_uv_offset: tn.animation_offset });
    vertices.push(BlockMeshVertex { position: pb, tex_coords: TexCoords { u: tn.uv.u1, v: tn.uv.v1 }, normal: MeshPoint { x: 0, y: 0, z: -1 }, animation_uv_offset: tn.animation_offset });
    vertices.push(BlockMeshVertex { position: pc, tex_coords: TexCoords { u: tn.uv.u1, v: tn.uv.v0 }, normal: MeshPoint { x: 0, y: 0, z: -1 }, animation_uv_offset: tn.animation_offset });
    vertices.push(BlockMeshVertex { position: pd, tex_coords: TexCoords { u: tn.uv.u0, v: tn.uv.v0 }, normal: MeshPoint { x: 0, y: 0, z: -1 }, animation_uv_offset: tn.animation_offset });
    vertices.push(BlockMeshVertex { position: ph, tex_coords: TexCoords { u: te.uv.u0, v: te.uv.v0 }, normal: MeshPoint { x: 1, y: 0, z: 0 }, animation_uv_offset: te.animation_offset });
    vertices.push(BlockMeshVertex { position: pe, tex_coords: TexCoords { u: te.uv.u0, v: te.uv.v1 }, normal: MeshPoint { x: 1, y: 0, z: 0 }, animation_uv_offset: te.animation_offset });
    vertices.push(BlockMeshVertex { position: pa, tex_coords: TexCoords { u: te.uv.u1, v: te.uv.v1 }, normal: MeshPoint { x: 1, y: 0, z: 0 }, animation_uv_offset: te.animation_offset });
    vertices.push(BlockMeshVertex { position: pd, tex_coords: TexCoords { u: te.uv.u1, v: te.uv.v0 }, normal: MeshPoint { x: 1, y: 0, z: 0 }, animation_uv_offset: te.animation_offset });
    vertices.push(BlockMeshVertex { position: pd, tex_coords: TexCoords { u: tu.uv.u0, v: tu.uv.v1 }, normal: MeshPoint { x: 0, y: 1, z: 0 }, animation_uv_offset: tu.animation_offset });
    vertices.push(BlockMeshVertex { position: pc, tex_coords: TexCoords { u: tu.uv.u1, v: tu.uv.v1 }, normal: MeshPoint { x: 0, y: 1, z: 0 }, animation_uv_offset: tu.animation_offset });
    vertices.push(BlockMeshVertex { position: pg, tex_coords: TexCoords { u: tu.uv.u1, v: tu.uv.v0 }, normal: MeshPoint { x: 0, y: 1, z: 0 }, animation_uv_offset: tu.animation_offset });
    vertices.push(BlockMeshVertex { position: ph, tex_coords: TexCoords { u: tu.uv.u0, v: tu.uv.v0 }, normal: MeshPoint { x: 0, y: 1, z: 0 }, animation_uv_offset: tu.animation_offset });
    vertices.push(BlockMeshVertex { position: pb, tex_coords: TexCoords { u: td.uv.u0, v: td.uv.v0 }, normal: MeshPoint { x: 0, y: -1, z: 0 }, animation_uv_offset: td.animation_offset });
    vertices.push(BlockMeshVertex { position: pe, tex_coords: TexCoords { u: td.uv.u1, v: td.uv.v1 }, normal: MeshPoint { x: 0, y: -1, z: 0 }, animation_uv_offset: td.animation_offset });
    vertices.push(BlockMeshVertex { position: pa, tex_coords: TexCoords { u: td.uv.u1, v: td.uv.v0 }, normal: MeshPoint { x: 0, y: -1, z: 0 }, animation_uv_offset: td.animation_offset });
    vertices.push(BlockMeshVertex { position: pf, tex_coords: TexCoords { u: td.uv.u0, v: td.uv.v1 }, normal: MeshPoint { x: 0, y: -1, z: 0 }, animation_uv_offset: td.animation_offset });
    proof {
        assert(vertices@ =~= spec_baked_vertices(*e, q as int, ft));
    }
    let south = if ft.south.is_some() {
        Some(indices6(0, 3, 1, 1, 3, 2))
    } else {
        None
    };
    let west = if ft.west.is_some() {
        Some(indices6(4, 7, 5, 5, 7, 6))
    } else {
        None
    };
    let north = if ft.north.is_some() {
        Some(indices6(9, 11, 8, 10, 11, 9))
    } else {
        None
    };
    let east = if ft.east.is_some() {
        Some(indices6(13, 15, 12, 14, 15, 13))
    } else {
        None
    };
    let up = if ft.up.is_some() {
        Some(indices6(16, 17, 18, 16, 18, 19))
    } else {
        None
    };
    let down = if ft.down.is_some() {
        Some(indices6(22, 21, 20, 20, 21, 23))
    } else {
        None
    };
    BlockModelFaces { vertices, north, east, south, west, up, down }
}

/// The atlas data of one optional face: `None` for a face the element
/// does not define, whose texture is still a variable reference, or
/// whose texture id the atlas has no UV rectangle for.
pub open spec fn spec_face_texture(face: Option<ElementFace>, atlas: Atlas) -> Option<FaceTexture> {
    match face {
        None => None,
        Some(f) => match f.texture {
            TextureValue::Reference(_) => None,
            TextureValue::Concrete(id) => match atlas.spec_uv(id@) {
                None => None,
                Some(uv) => Some(
                    FaceTexture { uv, animation_offset: atlas.spec_animation_offset(id@) },
                ),
            },
        },
    }
}

/// The atlas data of all six faces of an element.
pub open spec fn spec_face_textures(e: Element, atlas: Atlas) -> FaceTextures {
    FaceTextures {
        south: spec_face_texture(e.south, atlas),
        west: spec_face_texture(e.west, atlas),
        north: spec_face_texture(e.north, atlas),
        east: spec_face_texture(e.east, atlas),
        up: spec_face_texture(e.up, atlas),
        down: spec_face_texture(e.down, atlas),
    }
}

/// Looks one face's texture up in the atlas.
fn face_texture(face: &Option<ElementFace>, atlas: &Atlas) -> (r: Option<FaceTexture>)
    ensures
        r == spec_face_texture(*face, *atlas),
{
    match face {
        None => None,
        Some(f) => match &f.texture {
            TextureValue::Reference(_) => None,
            TextureValue::Concrete(id) => {
                let path = ResourcePath::new(id.as_str());
                match atlas.uv(&path) {
                    None => None,
                    Some(uv) => Some(
                        FaceTexture { uv, animation_offset: atlas.animation_offset(&path) },
                    ),
                }
            },
        },
    }
}

/// Looks all six faces of an element up in the atlas.
pub fn atlas_face_textures(e: &Element, atlas: &Atlas) -> (r: FaceTextures)
    ensures
        r == spec_face_textures(*e, *atlas),
{
    FaceTextures {
        south: face_texture(&e.south, atlas),
        west: face_texture(&e.west, atlas),
        north: face_texture(&e.north, atlas),
        east: face_texture(&e.east, atlas),
        up: face_texture(&e.up, atlas),
        down: face_texture(&e.down, atlas),
    }
}

/// A model is a cube exactly when it consists of one single element
/// spanning the full block.
pub open spec fn spec_is_full_cube(m: Model) -> bool {
    &&& m.elements matches Some(es)
    &&& es@.len() == 1
    &&& es@[0].from == (ModelPoint { x: 0, y: 0, z: 0 })
    &&& es@[0].to == (ModelPoint { x: FULL_EXTENT, y: FULL_EXTENT, z: FULL_EXTENT })
}

/// How many elements a model has.
pub open spec fn spec_element_count(m: Model) -> int {
    match m.elements {
        Some(es) => es@.len() as int,
        None => 0,
    }
}

/// An entry of a baked mesh is well-formed: its flag says "render the
/// neighbors" exactly when the entry is not a cube, and all its baked
/// faces are well-formed.
pub open spec fn spec_mesh_entry_wf(entry: (CubeOrComplexMesh, bool)) -> bool {
    &&& entry.1 == !(entry.0 is Cube)
    &&& match entry.0 {
        CubeOrComplexMesh::Cube(b) => spec_faces_wf(*b),
        CubeOrComplexMesh::Complex(v) => forall|i: int|
            0 <= i < v@.len() ==> spec_faces_wf(#[trigger] v@[i]),
    }
}

/// Whether the element spans the full block.
fn is_full_extent(e: &Element) -> (r: bool)
    ensures
        r == (e.from == (ModelPoint { x: 0, y: 0, z: 0 }) && e.to == (ModelPoint {
            x: FULL_EXTENT,
            y: FULL_EXTENT,
            z: FULL_EXTENT,
        })),
{
    e.from.x == 0 && e.from.y == 0 && e.from.z == 0 && e.to.x == FULL_EXTENT && e.to.y
        == FULL_EXTENT && e.to.z == FULL_EXTENT
}

/// Bakes one resolved model under the variant rotation `y` (degrees):
/// classifies it as a full cube or complex, bakes every element against
/// the atlas, and reports whether neighbors must still be rendered (true
/// exactly when the model is not a full cube).
pub fn bake_model(model: &Model, y: u32, atlas: &Atlas) -> (r: (CubeOrComplexMesh, bool))
    ensures
        r.1 == !spec_is_full_cube(*model),
        spec_mesh_entry_wf(r),
        spec_is_full_cube(*model) ==> (r.0 matches CubeOrComplexMesh::Cube(b) && (
        model.elements matches Some(es) && spec_faces_match(
            *b,
            es@[0],
            spec_quarter_turns(y as int),
            spec_face_textures(es@[0], *atlas),
        ))),
        !spec_is_full_cube(*model) ==> (r.0 matches CubeOrComplexMesh::Complex(v) && v@.len()
            == spec_element_count(*model) && (model.elements matches Some(es) ==> forall|i: int|
            0 <= i < v@.len() ==> spec_faces_match(
                #[trigger] v@[i],
                es@[i],
                spec_quarter_turns(y as int),
                spec_face_textures(es@[i], *atlas),
            ))),
{
    let q = quarter_turns(y);
    let is_cube = match &model.elements {
        Some(es) => es.len() == 1 && is_full_extent(&es[0]),
        None => false,
    };
    if is_cube {
        match &model.elements {
            Some(es) => {
                let ft = atlas_face_textures(&es[0], atlas);
                let faces = bake_element(&es[0], q, ft);
                (CubeOrComplexMesh::Cube(Box::new(faces)), false)
            },
            None => {
                proof {
                    assert(false);
                }
                (CubeOrComplexMesh::Complex(Vec::new()), true)
            },
        }
    } else {
        let mut baked: Vec<BlockModelFaces> = Vec::new();
        match &model.elements {
            Some(es) => {
                let mut i: usize = 0;
                while i < es.len()
                    invariant
                        0 <= i <= es@.len(),
                        baked@.len() == i,
                        q < 4,
                        q == spec_quarter_turns(y as int),
                        model.elements matches Some(ms) && ms@ == es@,
                        forall|j: int|
                            0 <= j < i ==> spec_faces_match(
                                #[trigger] baked@[j],
                                es@[j],
                                spec_quarter_turns(y as int),
                                spec_face_textures(es@[j], *atlas),
                            ),
                        forall|j: int| 0 <= j < i ==> spec_faces_wf(#[trigger] baked@[j]),
                    decreases es@.len() - i,
                {
                    let ft = atlas_face_textures(&es[i], atlas);
                    baked.push(bake_element(&es[i], q, ft));
                    i = i + 1;
                }
            },
            None => {},
        }
        (CubeOrComplexMesh::Complex(baked), true)
    }
}

/// How many model references the variants select in total; the baked
/// mesh holds one entry per reference, in input order.
pub open spec fn spec_model_ref_count(variants: Seq<Variant>) -> int
    decreases variants.len(),
{
    if variants.len() == 0 {
        0
    } else {
        variants[0].models@.len() + spec_model_ref_count(variants.subrange(1, variants.len() as int))
    }
}

/// Counting distributes over extending the variant list by one.
proof fn lemma_ref_count_snoc(variants: Seq<Variant>, v: Variant)
    ensures
        spec_model_ref_count(variants.push(v)) == spec_model_ref_count(variants)
            + v.models@.len(),
    decreases variants.len(),
{
    let pushed = variants.push(v);
    assert(pushed.len() == variants.len() + 1);
    assert(spec_model_ref_count(pushed) == pushed[0].models@.len() + spec_model_ref_count(
        pushed.subrange(1, pushed.len() as int),
    ));
    if variants.len() == 0 {
        assert(pushed[0] == v);
        assert(spec_model_ref_count(variants) == 0);
        assert(pushed.subrange(1, pushed.len() as int) =~= Seq::<Variant>::empty());
        assert(spec_model_ref_count(pushed.subrange(1, pushed.len() as int)) == 0);
    } else {
        assert(pushed[0] == variants[0]);
        lemma_ref_count_snoc(variants.subrange(1, variants.len() as int), v);
        assert(pushed.subrange(1, pushed.len() as int) =~= variants.subrange(
            1,
            variants.len() as int,
        ).push(v));
        assert(spec_model_ref_count(variants) == variants[0].models@.len()
            + spec_model_ref_count(variants.subrange(1, variants.len() as int)));
    }
}

/// The reference count is never negative.
proof fn lemma_ref_count_nonneg(variants: Seq<Variant>)
    ensures
        spec_model_ref_count(variants) >= 0,
    decreases variants.len(),
{
    if variants.len() > 0 {
        lemma_ref_count_nonneg(variants.subrange(1, variants.len() as int));
    }
}

/// A variant that selects at least one model reference makes the total
/// reference count positive.
proof fn lemma_ref_count_positive(variants: Seq<Variant>, i: int)
    requires
        0 <= i < variants.len(),
        variants[i].models@.len() > 0,
    ensures
        spec_model_ref_count(variants) > 0,
    decreases i,
{
    let tail = variants.subrange(1, variants.len() as int);
    if i == 0 {
        lemma_ref_count_nonneg(tail);
    } else {
        assert(tail[i - 1] == variants[i]);
        lemma_ref_count_positive(tail, i - 1);
    }
}

/// Finds the first texture binding whose value is still a variable
/// reference.
fn find_reference(bindings: &Vec<TextureBinding>) -> (r: Option<usize>)
    ensures
        r is None <==> crate::model::spec_all_concrete(bindings@),
        r matches Some(i) ==> 0 <= i < bindings@.len() && bindings@[i as int].value is Reference,
{
    let mut i: usize = 0;
    while i < bindings.len()
        invariant
            0 <= i <= bindings@.len(),
            forall|j: int| 0 <= j < i ==> (#[trigger] bindings@[j].value) is Concrete,
        decreases bindings@.len() - i,
    {
        if !bindings[i].value.is_concrete() {
            return Some(i);
        }
        i = i + 1;
    }
    None
}

impl ModelMesh {
    /// Bakes every model reference of the given blockstate variants into
    /// mesh form, in input order: fetches and resolves each referenced
    /// model through the provider, validates that its textures are
    /// concrete, batches any texture the atlas does not hold yet into one
    /// allocation, and bakes the geometry. Any failure aborts the whole
    /// bake; the atlas only ever grows, and entries it already holds are
    /// never changed.
    pub fn bake<R: ResourceProvider, K: TexturePacker>(
        variants: &Vec<Variant>,
        resource_provider: &R,
        block_atlas: &mut Atlas,
        packer: &mut K,
    ) -> (r: Result<ModelMesh, MeshBakeError>)
        ensures
            r matches Ok(mm) ==> mm.models@.len() == spec_model_ref_count(variants@) && forall|
                k: int,
            | 0 <= k < mm.models@.len() ==> spec_mesh_entry_wf(#[trigger] mm.models@[k]),
            spec_model_ref_count(variants@) == 0 ==> r is Ok,
            forall|id: Seq<char>|
                old(block_atlas).spec_uv(id) is Some ==> final(block_atlas).spec_uv(id) == old(
                    block_atlas,
                ).spec_uv(id),
            forall|id: Seq<char>|
                spec_assoc(old(block_atlas).animated_texture_offsets@, id) is Some ==> spec_assoc(
                    final(block_atlas).animated_texture_offsets@,
                    id,
                ) == spec_assoc(old(block_atlas).animated_texture_offsets@, id),
    {
        let mut models: Vec<(CubeOrComplexMesh, bool)> = Vec::new();
        let mut vi: usize = 0;
        proof {
            assert(variants@.subrange(0, 0) =~= Seq::<Variant>::empty());
        }
        while vi < variants.len()
            invariant
                0 <= vi <= variants@.len(),
                models@.len() == spec_model_ref_count(variants@.subrange(0, vi as int)),
                forall|k: int|
                    0 <= k < models@.len() ==> spec_mesh_entry_wf(#[trigger] models@[k]),
                forall|id: Seq<char>|
                    old(block_atlas).spec_uv(id) is Some ==> block_atlas.spec_uv(id) == old(
                        block_atlas,
                    ).spec_uv(id),
                forall|id: Seq<char>|
                    spec_assoc(old(block_atlas).animated_texture_offsets@, id) is Some
                        ==> spec_assoc(block_atlas.animated_texture_offsets@, id) == spec_assoc(
                        old(block_atlas).animated_texture_offsets@,
                        id,
                    ),
            decreases variants@.len() - vi,
        {
            let variant = &variants[vi];
            let mut mj: usize = 0;
            while mj < variant.models.len()
                invariant
                    0 <= vi < variants@.len(),
                    0 <= mj <= variant.models@.len(),
                    *variant == variants@[vi as int],
                    models@.len() == spec_model_ref_count(variants@.subrange(0, vi as int))
                        + mj,
                    forall|k: int|
                        0 <= k < models@.len() ==> spec_mesh_entry_wf(#[trigger] models@[k]),
                    forall|id: Seq<char>|
                        old(block_atlas).spec_uv(id) is Some ==> block_atlas.spec_uv(id) == old(
                            block_atlas,
                        ).spec_uv(id),
                    forall|id: Seq<char>|
                        spec_assoc(old(block_atlas).animated_texture_offsets@, id) is Some
                            ==> spec_assoc(block_atlas.animated_texture_offsets@, id) == spec_assoc(
                            old(block_atlas).animated_texture_offsets@,
                            id,
                        ),
                decreases variant.models@.len() - mj,
            {
                proof {
                    lemma_ref_count_positive(variants@, vi as int);
                }
                let vm = &variant.models[mj];
                let path = model_resource_path(vm.model.as_str());
                let fetched = match resource_provider.get_model(&path) {
                    ModelFetch::Found(m) => m,
                    ModelFetch::Missing => {
                        return Err(MeshBakeError::UnresolvedResourcePath(path));
                    },
                    ModelFetch::Malformed(message) => {
                        return Err(MeshBakeError::JsonShapeError(message));
                    },
                };
                let resolved = match resolve_model(fetched, resource_provider) {
                    Ok(m) => m,
                    Err(e) => {
                        return Err(e);
                    },
                };
                match find_reference(&resolved.textures) {
                    Some(ri) => {
                        return Err(
                            MeshBakeError::UnresolvedTextureReference {
                                key: resolved.textures[ri].name.clone(),
                                value: resolved.textures[ri].value.copy_of(),
                            },
                        );
                    },
                    None => {},
                }
                let missing = missing_textures(&resolved.textures, block_atlas);
                if missing.len() > 0 {
                    let mut uploads: Vec<TextureUpload> = Vec::new();
                    let mut ui: usize = 0;
                    while ui < missing.len()
                        invariant
                            0 <= ui <= missing@.len(),
                            spec_model_ref_count(variants@) > 0,
                            forall|id: Seq<char>|
                                old(block_atlas).spec_uv(id) is Some ==> block_atlas.spec_uv(id)
                                    == old(block_atlas).spec_uv(id),
                            forall|id: Seq<char>|
                                spec_assoc(old(block_atlas).animated_texture_offsets@, id) is Some
                                    ==> spec_assoc(block_atlas.animated_texture_offsets@, id)
                                    == spec_assoc(
                                    old(block_atlas).animated_texture_offsets@,
                                    id,
                                ),
                        decreases missing@.len() - ui,
                    {
                        let png_path = missing[ui].prepend("textures/").append(".png");
                        match resource_provider.get_bytes(&png_path) {
                            Some(bytes) => {
                                uploads.push(TextureUpload { id: missing[ui].copy_of(), bytes });
                            },
                            None => {
                                return Err(MeshBakeError::UnresolvedResourcePath(png_path));
                            },
                        }
                        ui = ui + 1;
                    }
                    let ghost pre: Atlas = *block_atlas;
                    block_atlas.allocate(uploads, packer);
                    proof {
                        assert forall|id: Seq<char>|
                            old(block_atlas).spec_uv(id) is Some implies block_atlas.spec_uv(id)
                            == old(block_atlas).spec_uv(id) by {
                            assert(pre.spec_uv(id) == old(block_atlas).spec_uv(id));
                        }
                        assert forall|id: Seq<char>|
                            spec_assoc(
                                old(block_atlas).animated_texture_offsets@,
                                id,
                            ) is Some implies spec_assoc(block_atlas.animated_texture_offsets@, id)
                            == spec_assoc(old(block_atlas).animated_texture_offsets@, id) by {
                            assert(spec_assoc(pre.animated_texture_offsets@, id) == spec_assoc(
                                old(block_atlas).animated_texture_offsets@,
                                id,
                            ));
                        }
                    }
                }
                let (mesh, render_neighbors) = bake_model(&resolved, vm.y, block_atlas);
                models.push((mesh, render_neighbors));
                mj = mj + 1;
            }
            proof {
                assert(variants@.subrange(0, vi as int + 1) =~= variants@.subrange(
                    0,
                    vi as int,
                ).push(variants@[vi as int]));
                lemma_ref_count_snoc(variants@.subrange(0, vi as int), variants@[vi as int]);
            }
            vi = vi + 1;
        }
        proof {
            assert(variants@.subrange(0, variants@.len() as int) =~= variants@);
        }
        Ok(ModelMesh { models })
    }
}

} // verus!
