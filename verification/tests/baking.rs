#![allow(dead_code)]

use block_mesh::atlas::{Atlas, TexturePacker, TexturePlacement, TextureUpload, UvRect};
use block_mesh::error::MeshBakeError;
use block_mesh::mesh::{
    bake_element, bake_model, quarter_turns, CubeOrComplexMesh, FaceTexture, FaceTextures,
    ModelMesh,
};
use block_mesh::model::{
    Element, ElementFace, Model, ModelPoint, TextureBinding, TextureValue, Variant, VariantModel,
};
use block_mesh::resource::{ModelFetch, ResourcePath, ResourceProvider};

struct FnProvider<F, G> {
    model_fn: F,
    bytes_fn: G,
}

impl<F, G> ResourceProvider for FnProvider<F, G>
where
    F: Fn(&str) -> ModelFetch,
    G: Fn(&str) -> Option<Vec<u8>>,
{
    fn get_model(&self, path: &ResourcePath) -> ModelFetch {
        (self.model_fn)(path.0.as_str())
    }

    fn get_bytes(&self, path: &ResourcePath) -> Option<Vec<u8>> {
        (self.bytes_fn)(path.0.as_str())
    }
}

/// Records every batch it is asked to place and places everything at one
/// fixed rectangle.
struct RecordingPacker {
    calls: Vec<Vec<String>>,
    uv: UvRect,
}

impl RecordingPacker {
    fn new() -> Self {
        RecordingPacker {
            calls: Vec::new(),
            uv: UvRect {
                u0: 0,
                v0: 0,
                u1: 16,
                v1: 16,
            },
        }
    }
}

impl TexturePacker for RecordingPacker {
    fn place(&mut self, uploads: &Vec<TextureUpload>) -> Vec<TexturePlacement> {
        self.calls
            .push(uploads.iter().map(|u| u.id.0.clone()).collect());
        uploads
            .iter()
            .map(|u| TexturePlacement {
                id: ResourcePath(u.id.0.clone()),
                uv: self.uv,
                animation_offset: None,
            })
            .collect()
    }
}

fn concrete(id: &str) -> TextureValue {
    TextureValue::Concrete(id.to_string())
}

fn face(id: &str) -> Option<ElementFace> {
    Some(ElementFace {
        texture: concrete(id),
        rotation: 0,
    })
}

fn binding(name: &str, id: &str) -> TextureBinding {
    TextureBinding {
        name: name.to_string(),
        value: concrete(id),
    }
}

fn element(from: (u16, u16, u16), to: (u16, u16, u16)) -> Element {
    Element {
        from: ModelPoint {
            x: from.0,
            y: from.1,
            z: from.2,
        },
        to: ModelPoint {
            x: to.0,
            y: to.1,
            z: to.2,
        },
        north: None,
        east: None,
        south: None,
        west: None,
        up: None,
        down: None,
    }
}

fn full_cube_all_faces() -> Element {
    let mut e = element((0, 0, 0), (256, 256, 256));
    e.north = face("block/n");
    e.east = face("block/e");
    e.south = face("block/s");
    e.west = face("block/w");
    e.up = face("block/u");
    e.down = face("block/d");
    e
}

fn atlas_with_all_faces() -> Atlas {
    let mut atlas = Atlas::new();
    let uv = UvRect {
        u0: 0,
        v0: 0,
        u1: 16,
        v1: 16,
    };
    for id in ["block/n", "block/e", "block/s", "block/w", "block/u", "block/d"] {
        atlas.insert_uv(ResourcePath::new(id), uv);
    }
    atlas
}

fn no_face_textures() -> FaceTextures {
    FaceTextures {
        south: None,
        west: None,
        north: None,
        east: None,
        up: None,
        down: None,
    }
}

#[test]
fn every_bake_emits_exactly_24_vertices() {
    let faces = bake_element(&element((0, 0, 0), (256, 256, 256)), 0, no_face_textures());
    assert_eq!(faces.vertices.len(), 24);
    let mut ft = no_face_textures();
    ft.up = Some(FaceTexture {
        uv: UvRect {
            u0: 0,
            v0: 0,
            u1: 16,
            v1: 16,
        },
        animation_offset: 0,
    });
    let faces = bake_element(&element((0, 0, 0), (128, 256, 256)), 3, ft);
    assert_eq!(faces.vertices.len(), 24);
}

#[test]
fn faces_without_texture_have_no_indices_and_textured_faces_have_six() {
    let mut ft = no_face_textures();
    ft.up = Some(FaceTexture {
        uv: UvRect {
            u0: 0,
            v0: 0,
            u1: 16,
            v1: 16,
        },
        animation_offset: 0,
    });
    let faces = bake_element(&element((0, 0, 0), (256, 256, 256)), 0, ft);
    assert_eq!(faces.up.as_ref().map(Vec::len), Some(6));
    assert_eq!(faces.north, None);
    assert_eq!(faces.east, None);
    assert_eq!(faces.south, None);
    assert_eq!(faces.west, None);
    assert_eq!(faces.down, None);
    // Two triangles for the one textured face, none for the others.
    let triangles: usize = [
        &faces.north,
        &faces.east,
        &faces.south,
        &faces.west,
        &faces.up,
        &faces.down,
    ]
    .iter()
    .map(|ix| ix.as_ref().map_or(0, |v| v.len() / 3))
    .sum();
    assert_eq!(triangles, 2);
}

#[test]
fn a_full_turn_reproduces_the_vertex_positions() {
    // An asymmetric element, so an actual rotation would show.
    let e = element((16, 0, 32), (240, 128, 256));
    for y in [0u32, 90, 180, 270] {
        let base = bake_element(&e, quarter_turns(y), no_face_textures());
        let turned = bake_element(&e, quarter_turns(y + 360), no_face_textures());
        for (a, b) in base.vertices.iter().zip(turned.vertices.iter()) {
            assert_eq!(a.position, b.position);
        }
    }
    // A quarter turn, by contrast, moves the vertices.
    let base = bake_element(&e, quarter_turns(0), no_face_textures());
    let turned = bake_element(&e, quarter_turns(90), no_face_textures());
    assert!(base
        .vertices
        .iter()
        .zip(turned.vertices.iter())
        .any(|(a, b)| a.position != b.position));
}

#[test]
fn baked_positions_are_exact_in_subunits() {
    // Unrotated full cube: the first "up" vertex sits at the mirrored
    // low corner of the top face.
    let faces = bake_element(
        &element((0, 0, 0), (256, 256, 256)),
        quarter_turns(0),
        no_face_textures(),
    );
    let p = |i: usize| {
        let v = &faces.vertices[i];
        (v.position.x, v.position.y, v.position.z)
    };
    assert_eq!(p(16), (256, 256, 0));
    assert_eq!(p(17), (0, 256, 0));
    assert_eq!(p(18), (0, 256, 256));
    assert_eq!(p(19), (256, 256, 256));
    // The same corners after a quarter turn about the cube center.
    let turned = bake_element(
        &element((0, 0, 0), (256, 256, 256)),
        quarter_turns(90),
        no_face_textures(),
    );
    let q = |i: usize| {
        let v = &turned.vertices[i];
        (v.position.x, v.position.y, v.position.z)
    };
    assert_eq!(q(16), (0, 256, 0));
    assert_eq!(q(17), (0, 256, 256));
    assert_eq!(q(18), (256, 256, 256));
    assert_eq!(q(19), (256, 256, 0));
    // Normals are the fixed per-face axis directions.
    let up_normal = &faces.vertices[16].normal;
    assert_eq!((up_normal.x, up_normal.y, up_normal.z), (0, 1, 0));
    let south_normal = &faces.vertices[0].normal;
    assert_eq!((south_normal.x, south_normal.y, south_normal.z), (0, 0, 1));
}

#[test]
fn single_full_cube_classifies_as_cube() {
    let model = Model {
        parent: None,
        textures: vec![],
        elements: Some(vec![element((0, 0, 0), (256, 256, 256))]),
    };
    let (mesh, render_neighbors) = bake_model(&model, 0, &Atlas::new());
    assert!(matches!(mesh, CubeOrComplexMesh::Cube(_)));
    assert!(!render_neighbors);
}

#[test]
fn other_configurations_classify_as_complex() {
    // A partial element.
    let slab = Model {
        parent: None,
        textures: vec![],
        elements: Some(vec![element((0, 0, 0), (256, 128, 256))]),
    };
    let (mesh, render_neighbors) = bake_model(&slab, 0, &Atlas::new());
    assert!(matches!(mesh, CubeOrComplexMesh::Complex(_)));
    assert!(render_neighbors);

    // Two elements, even though the first spans the full block.
    let pair = Model {
        parent: None,
        textures: vec![],
        elements: Some(vec![
            element((0, 0, 0), (256, 256, 256)),
            element((0, 0, 0), (128, 128, 128)),
        ]),
    };
    let (mesh, render_neighbors) = bake_model(&pair, 0, &Atlas::new());
    match &mesh {
        CubeOrComplexMesh::Complex(list) => assert_eq!(list.len(), 2),
        CubeOrComplexMesh::Cube(_) => panic!("two elements must not classify as a cube"),
    }
    assert!(render_neighbors);

    // No elements at all.
    let empty = Model {
        parent: None,
        textures: vec![],
        elements: None,
    };
    let (mesh, render_neighbors) = bake_model(&empty, 0, &Atlas::new());
    match &mesh {
        CubeOrComplexMesh::Complex(list) => assert_eq!(list.len(), 0),
        CubeOrComplexMesh::Cube(_) => panic!("an empty model must not classify as a cube"),
    }
    assert!(render_neighbors);
}

#[test]
fn present_texture_triggers_no_allocation() {
    let model_name = "block/cube_present";
    let provider = FnProvider {
        model_fn: move |path: &str| {
            if path == "models/block/cube_present.json" {
                let mut e = element((0, 0, 0), (256, 256, 256));
                e.up = face("block/u");
                ModelFetch::Found(Model {
                    parent: None,
                    textures: vec![binding("top", "block/u")],
                    elements: Some(vec![e]),
                })
            } else {
                ModelFetch::Missing
            }
        },
        bytes_fn: |_path: &str| None,
    };
    let mut atlas = atlas_with_all_faces();
    let mut packer = RecordingPacker::new();
    let variants = vec![Variant {
        models: vec![VariantModel {
            model: model_name.to_string(),
            y: 0,
        }],
    }];
    let mesh = ModelMesh::bake(&variants, &provider, &mut atlas, &mut packer).unwrap();
    assert_eq!(mesh.models.len(), 1);
    assert_eq!(packer.calls.len(), 0);
}

#[test]
fn absent_texture_triggers_one_batched_allocation() {
    let provider = FnProvider {
        model_fn: move |path: &str| {
            if path == "models/block/cube_new.json" {
                let mut e = element((0, 0, 0), (256, 256, 256));
                e.up = face("block/brand_new");
                ModelFetch::Found(Model {
                    parent: None,
                    textures: vec![binding("top", "block/brand_new")],
                    elements: Some(vec![e]),
                })
            } else {
                ModelFetch::Missing
            }
        },
        bytes_fn: |path: &str| {
            if path == "textures/block/brand_new.png" {
                Some(vec![1, 2, 3])
            } else {
                None
            }
        },
    };
    let mut atlas = atlas_with_all_faces();
    let mut packer = RecordingPacker::new();
    let variants = vec![Variant {
        models: vec![VariantModel {
            model: "block/cube_new".to_string(),
            y: 0,
        }],
    }];
    ModelMesh::bake(&variants, &provider, &mut atlas, &mut packer).unwrap();
    assert_eq!(packer.calls, vec![vec!["block/brand_new".to_string()]]);
    assert!(atlas.uv(&ResourcePath::new("block/brand_new")).is_some());
}

#[test]
fn missing_texture_bytes_abort_the_bake() {
    let provider = FnProvider {
        model_fn: move |path: &str| {
            if path == "models/block/cube_ghost.json" {
                ModelFetch::Found(Model {
                    parent: None,
                    textures: vec![binding("top", "block/ghost")],
                    elements: Some(vec![element((0, 0, 0), (256, 256, 256))]),
                })
            } else {
                ModelFetch::Missing
            }
        },
        bytes_fn: |_path: &str| None,
    };
    let mut atlas = Atlas::new();
    let mut packer = RecordingPacker::new();
    let variants = vec![Variant {
        models: vec![VariantModel {
            model: "block/cube_ghost".to_string(),
            y: 0,
        }],
    }];
    let err = ModelMesh::bake(&variants, &provider, &mut atlas, &mut packer).unwrap_err();
    assert_eq!(
        err,
        MeshBakeError::UnresolvedResourcePath(ResourcePath::new("textures/block/ghost.png"))
    );
}

#[test]
fn missing_model_aborts_the_bake() {
    let provider = FnProvider {
        model_fn: |_path: &str| ModelFetch::Missing,
        bytes_fn: |_path: &str| None,
    };
    let mut atlas = Atlas::new();
    let mut packer = RecordingPacker::new();
    let variants = vec![Variant {
        models: vec![VariantModel {
            model: "block/nope".to_string(),
            y: 0,
        }],
    }];
    let err = ModelMesh::bake(&variants, &provider, &mut atlas, &mut packer).unwrap_err();
    assert_eq!(
        err,
        MeshBakeError::UnresolvedResourcePath(ResourcePath::new("models/block/nope.json"))
    );
}

#[test]
fn dangling_reference_aborts_the_bake() {
    let provider = FnProvider {
        model_fn: |path: &str| {
            if path == "models/block/dangling.json" {
                ModelFetch::Found(Model {
                    parent: None,
                    textures: vec![TextureBinding {
                        name: "top".to_string(),
                        value: TextureValue::Reference("bottom".to_string()),
                    }],
                    elements: None,
                })
            } else {
                ModelFetch::Missing
            }
        },
        bytes_fn: |_path: &str| None,
    };
    let mut atlas = Atlas::new();
    let mut packer = RecordingPacker::new();
    let variants = vec![Variant {
        models: vec![VariantModel {
            model: "block/dangling".to_string(),
            y: 0,
        }],
    }];
    let err = ModelMesh::bake(&variants, &provider, &mut atlas, &mut packer).unwrap_err();
    assert_eq!(
        err,
        MeshBakeError::UnresolvedTextureReference {
            key: "top".to_string(),
            value: TextureValue::Reference("bottom".to_string()),
        }
    );
}

#[test]
fn baked_entries_keep_the_input_order() {
    let provider = FnProvider {
        model_fn: |path: &str| match path {
            "models/block/whole.json" => ModelFetch::Found(Model {
                parent: None,
                textures: vec![],
                elements: Some(vec![element((0, 0, 0), (256, 256, 256))]),
            }),
            "models/block/half.json" => ModelFetch::Found(Model {
                parent: None,
                textures: vec![],
                elements: Some(vec![element((0, 0, 0), (256, 128, 256))]),
            }),
            _ => ModelFetch::Missing,
        },
        bytes_fn: |_path: &str| None,
    };
    let mut atlas = Atlas::new();
    let mut packer = RecordingPacker::new();
    let variants = vec![
        Variant {
            models: vec![
                VariantModel {
                    model: "block/whole".to_string(),
                    y: 0,
                },
                VariantModel {
                    model: "block/half".to_string(),
                    y: 90,
                },
            ],
        },
        Variant {
            models: vec![VariantModel {
                model: "block/whole".to_string(),
                y: 180,
            }],
        },
    ];
    let mesh = ModelMesh::bake(&variants, &provider, &mut atlas, &mut packer).unwrap();
    assert_eq!(mesh.models.len(), 3);
    assert!(matches!(mesh.models[0].0, CubeOrComplexMesh::Cube(_)));
    assert!(!mesh.models[0].1);
    assert!(matches!(mesh.models[1].0, CubeOrComplexMesh::Complex(_)));
    assert!(mesh.models[1].1);
    assert!(matches!(mesh.models[2].0, CubeOrComplexMesh::Cube(_)));
    assert!(!mesh.models[2].1);
}

#[test]
fn referenced_faces_bake_with_indices() {
    // Geometry inherited from a parent whose faces are variable
    // references, bound by the child: after resolution the baker finds
    // the concrete ids in the atlas and every face gets its indices.
    let provider = FnProvider {
        model_fn: |path: &str| match path {
            "models/block/bound.json" => ModelFetch::Found(Model {
                parent: Some("block/referenced_cube".to_string()),
                textures: vec![
                    binding("top", "block/u"),
                    binding("side", "block/s"),
                ],
                elements: None,
            }),
            "models/block/referenced_cube.json" => {
                let reference_face = |name: &str| {
                    Some(ElementFace {
                        texture: TextureValue::Reference(name.to_string()),
                        rotation: 0,
                    })
                };
                let mut e = element((0, 0, 0), (256, 256, 256));
                e.up = reference_face("top");
                e.down = reference_face("top");
                e.north = reference_face("side");
                e.east = reference_face("side");
                e.south = reference_face("side");
                e.west = reference_face("side");
                ModelFetch::Found(Model {
                    parent: None,
                    textures: vec![],
                    elements: Some(vec![e]),
                })
            },
            _ => ModelFetch::Missing,
        },
        bytes_fn: |_path: &str| None,
    };
    let mut atlas = atlas_with_all_faces();
    let mut packer = RecordingPacker::new();
    let variants = vec![Variant {
        models: vec![VariantModel {
            model: "block/bound".to_string(),
            y: 0,
        }],
    }];
    let mesh = ModelMesh::bake(&variants, &provider, &mut atlas, &mut packer).unwrap();
    let faces = match &mesh.models[0].0 {
        CubeOrComplexMesh::Cube(b) => b,
        CubeOrComplexMesh::Complex(_) => panic!("the inherited full cube must classify as a cube"),
    };
    assert!(!mesh.models[0].1);
    for ix in [
        &faces.north,
        &faces.east,
        &faces.south,
        &faces.west,
        &faces.up,
        &faces.down,
    ] {
        assert_eq!(ix.as_ref().map(Vec::len), Some(6));
    }
    // The up face carries the bound texture's rectangle, not zeros.
    assert_eq!(
        (faces.vertices[17].tex_coords.u, faces.vertices[17].tex_coords.v),
        (16, 16)
    );
}

#[test]
fn empty_variant_lists_bake_to_an_empty_mesh() {
    // No model references: nothing is fetched or allocated, and the
    // bake must succeed with an empty mesh.
    let provider = FnProvider {
        model_fn: |_path: &str| ModelFetch::Missing,
        bytes_fn: |_path: &str| None,
    };
    let mut atlas = Atlas::new();
    let mut packer = RecordingPacker::new();
    let no_variants: Vec<Variant> = Vec::new();
    let mesh = ModelMesh::bake(&no_variants, &provider, &mut atlas, &mut packer).unwrap();
    assert_eq!(mesh.models.len(), 0);
    let empty_variant = vec![Variant { models: Vec::new() }];
    let mesh = ModelMesh::bake(&empty_variant, &provider, &mut atlas, &mut packer).unwrap();
    assert_eq!(mesh.models.len(), 0);
    assert_eq!(packer.calls.len(), 0);
}

#[test]
fn end_to_end_full_cube_uv_and_indices() {
    let provider = FnProvider {
        model_fn: |path: &str| {
            if path == "models/block/furnace.json" {
                ModelFetch::Found(Model {
                    parent: None,
                    textures: vec![
                        binding("north", "block/n"),
                        binding("east", "block/e"),
                        binding("south", "block/s"),
                        binding("west", "block/w"),
                        binding("up", "block/u"),
                        binding("down", "block/d"),
                    ],
                    elements: Some(vec![full_cube_all_faces()]),
                })
            } else {
                ModelFetch::Missing
            }
        },
        bytes_fn: |_path: &str| None,
    };
    // All six textures sit in the atlas at ((0,0),(16,16)); dimensions
    // 256x256, so normalized coordinates are texel / 256.
    let mut atlas = atlas_with_all_faces();
    let mut packer = RecordingPacker::new();
    let variants = vec![Variant {
        models: vec![VariantModel {
            model: "block/furnace".to_string(),
            y: 0,
        }],
    }];
    let mesh = ModelMesh::bake(&variants, &provider, &mut atlas, &mut packer).unwrap();
    assert_eq!(packer.calls.len(), 0);
    assert_eq!(mesh.models.len(), 1);
    let (baked, render_neighbors) = &mesh.models[0];
    assert!(!render_neighbors);
    let faces = match baked {
        CubeOrComplexMesh::Cube(b) => b,
        CubeOrComplexMesh::Complex(_) => panic!("a full cube must classify as a cube"),
    };
    assert_eq!(faces.vertices.len(), 24);
    assert_eq!(faces.up, Some(vec![16, 17, 18, 16, 18, 19]));
    assert_eq!(faces.down, Some(vec![22, 21, 20, 20, 21, 23]));
    // The "up" face vertices carry the rectangle's texels unconverted.
    let up_texels: Vec<(u16, u16)> = faces.vertices[16..20]
        .iter()
        .map(|v| (v.tex_coords.u, v.tex_coords.v))
        .collect();
    assert_eq!(up_texels, vec![(0, 16), (16, 16), (16, 0), (0, 0)]);
    // Consistent with ((0,0),(16,16)) under a 256x256 atlas.
    const ATLAS_DIMENSION: f32 = 256.0;
    for (u, v) in up_texels {
        let nu = u as f32 / ATLAS_DIMENSION;
        let nv = v as f32 / ATLAS_DIMENSION;
        assert!(nu == 0.0 || nu == 16.0 / ATLAS_DIMENSION);
        assert!(nv == 0.0 || nv == 16.0 / ATLAS_DIMENSION);
    }
    // Every face of the cube is textured: 12 triangles in all.
    let triangles: usize = [
        &faces.north,
        &faces.east,
        &faces.south,
        &faces.west,
        &faces.up,
        &faces.down,
    ]
    .iter()
    .map(|ix| ix.as_ref().map_or(0, |v| v.len() / 3))
    .sum();
    assert_eq!(triangles, 12);
}
