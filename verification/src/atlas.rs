//! The texture atlas as the baker sees it: a UV-rectangle map and an
//! animation-offset map, both keyed by texture id and only ever growing.
//!
//! Where a new texture is placed inside the atlas surface is decided by a
//! [`TexturePacker`] the embedding renderer supplies; the engine records
//! the placements and guarantees that recorded entries never change.
//!
//! A host that bakes on several worker threads wraps the atlas in its own
//! reader/writer lock. Within the engine every lookup takes the atlas
//! immutably and only [`Atlas::allocate`] takes it mutably, so a bake
//! never needs to hold a read borrow across an allocation.

use vstd::prelude::*;

use crate::model::TextureBinding;
use crate::resource::ResourcePath;

verus! {

/// The sub-region of the atlas surface one texture occupies: two corner
/// points, in atlas pixel (or normalized-pixel) units. The baker stores
/// these values into vertices unconverted.
#[derive(Clone, Copy, PartialEq, Eq, Structural, Debug)]
pub struct UvRect {
    pub u0: u16,
    pub v0: u16,
    pub u1: u16,
    pub v1: u16,
}

/// The value an entry list associates with `id`: the first entry with
/// that id wins.
pub open spec fn spec_assoc<V>(entries: Seq<(ResourcePath, V)>, id: Seq<char>) -> Option<V>
    decreases entries.len(),
{
    if entries.len() == 0 {
        None
    } else if entries[0].0@ == id {
        Some(entries[0].1)
    } else {
        spec_assoc(entries.subrange(1, entries.len() as int), id)
    }
}

/// Appending an entry leaves every present id at its old value and binds
/// the new id only where it was absent.
pub proof fn lemma_assoc_push<V>(entries: Seq<(ResourcePath, V)>, e: (ResourcePath, V), id: Seq<char>)
    ensures
        spec_assoc(entries.push(e), id) == (match spec_assoc(entries, id) {
            Some(v) => Some(v),
            None => if e.0@ == id {
                Some(e.1)
            } else {
                None
            },
        }),
    decreases entries.len(),
{
    let pushed = entries.push(e);
    assert(pushed.len() == entries.len() + 1);
    if entries.len() == 0 {
        assert(pushed[0] == e);
        assert(pushed.subrange(1, pushed.len() as int) =~= Seq::<(ResourcePath, V)>::empty());
        assert(spec_assoc(pushed.subrange(1, pushed.len() as int), id) is None);
    } else {
        assert(pushed[0] == entries[0]);
        lemma_assoc_push(entries.subrange(1, entries.len() as int), e, id);
        assert(pushed.subrange(1, pushed.len() as int) =~= entries.subrange(
            1,
            entries.len() as int,
        ).push(e));
    }
}

/// A raw texture handed to the packer: the texture id and its undecoded
/// image bytes.
#[derive(Debug)]
pub struct TextureUpload {
    pub id: ResourcePath,
    pub bytes: Vec<u8>,
}

/// Where the packer placed one texture: its UV rectangle and, for a
/// texture detected as an animation strip, the per-frame offset.
#[derive(Debug)]
pub struct TexturePlacement {
    pub id: ResourcePath,
    pub uv: UvRect,
    pub animation_offset: Option<u32>,
}

/// Decides where textures go on the atlas surface. Implemented by the
/// embedding renderer (it decodes the image bytes and repacks the GPU
/// texture); the engine assumes nothing about the placements returned.
pub trait TexturePacker {
    /// Places each uploaded texture on the atlas surface.
    fn place(&mut self, uploads: &Vec<TextureUpload>) -> Vec<TexturePlacement>;
}

/// The atlas bookkeeping the baker reads: texture id to UV rectangle, and
/// texture id to animation offset. Entries are only ever added, never
/// removed or replaced.
#[derive(Debug)]
pub struct Atlas {
    /// UV rectangle per placed texture id; the first entry for an id wins.
    pub uv_map: Vec<(ResourcePath, UvRect)>,
    /// Animation offset per animated texture id; absence means the
    /// texture is not animated.
    pub animated_texture_offsets: Vec<(ResourcePath, u32)>,
}

impl Atlas {
    /// The UV rectangle recorded for `id`, if any.
    pub open spec fn spec_uv(self, id: Seq<char>) -> Option<UvRect> {
        spec_assoc(self.uv_map@, id)
    }

    /// The animation offset of `id`: the recorded offset, or 0 for a
    /// texture that is not animated.
    pub open spec fn spec_animation_offset(self, id: Seq<char>) -> u32 {
        match spec_assoc(self.animated_texture_offsets@, id) {
            Some(o) => o,
            None => 0,
        }
    }

    /// An atlas with nothing placed.
    pub fn new() -> (r: Atlas)
        ensures
            forall|id: Seq<char>| r.spec_uv(id) is None,
            forall|id: Seq<char>| r.spec_animation_offset(id) == 0,
    {
        Atlas { uv_map: Vec::new(), animated_texture_offsets: Vec::new() }
    }

    /// Looks up the UV rectangle of `id`.
    pub fn uv(&self, id: &ResourcePath) -> (r: Option<UvRect>)
        ensures
            r == self.spec_uv(id@),
    {
        lookup_assoc(&self.uv_map, id)
    }

    /// Looks up the animation offset of `id`, 0 when not animated.
    pub fn animation_offset(&self, id: &ResourcePath) -> (r: u32)
        ensures
            r == self.spec_animation_offset(id@),
    {
        match lookup_assoc(&self.animated_texture_offsets, id) {
            Some(o) => o,
            None => 0,
        }
    }

    /// Records a UV rectangle for `id` unless `id` already has one:
    /// recorded entries never change.
    pub fn insert_uv(&mut self, id: ResourcePath, uv: UvRect)
        ensures
            forall|k: Seq<char>|
                final(self).spec_uv(k) == (if old(self).spec_uv(k) is Some {
                    old(self).spec_uv(k)
                } else if k == id@ {
                    Some(uv)
                } else {
                    None
                }),
            final(self).animated_texture_offsets == old(self).animated_texture_offsets,
    {
        if lookup_assoc(&self.uv_map, &id).is_none() {
            let ghost entries = self.uv_map@;
            self.uv_map.push((id, uv));
            proof {
                assert forall|k: Seq<char>| true implies #[trigger] self.spec_uv(k) == (
                if spec_assoc(entries, k) is Some {
                    spec_assoc(entries, k)
                } else if k == self.uv_map@.last().0@ {
                    Some(uv)
                } else {
                    None
                }) by {
                    lemma_assoc_push(entries, self.uv_map@.last(), k);
                }
            }
        }
    }

    /// Records an animation offset for `id` unless `id` already has one.
    pub fn insert_animation_offset(&mut self, id: ResourcePath, offset: u32)
        ensures
            forall|k: Seq<char>|
                spec_assoc(final(self).animated_texture_offsets@, k) == (if spec_assoc(
                    old(self).animated_texture_offsets@,
                    k,
                ) is Some {
                    spec_assoc(old(self).animated_texture_offsets@, k)
                } else if k == id@ {
                    Some(offset)
                } else {
                    None
                }),
            final(self).uv_map == old(self).uv_map,
    {
        if lookup_assoc(&self.animated_texture_offsets, &id).is_none() {
            let ghost entries = self.animated_texture_offsets@;
            self.animated_texture_offsets.push((id, offset));
            proof {
                assert forall|k: Seq<char>| true implies #[trigger] spec_assoc(
                    self.animated_texture_offsets@,
                    k,
                ) == (if spec_assoc(entries, k) is Some {
                    spec_assoc(entries, k)
                } else if k == self.animated_texture_offsets@.last().0@ {
                    Some(offset)
                } else {
                    None
                }) by {
                    lemma_assoc_push(entries, self.animated_texture_offsets@.last(), k);
                }
            }
        }
    }

    /// Lets the packer place the uploaded textures and records every
    /// placement. Entries already recorded keep their values, whatever
    /// the packer returns: the maps grow monotonically.
    pub fn allocate<K: TexturePacker>(&mut self, uploads: Vec<TextureUpload>, packer: &mut K)
        ensures
            forall|k: Seq<char>|
                old(self).spec_uv(k) is Some ==> final(self).spec_uv(k) == old(self).spec_uv(k),
            forall|k: Seq<char>|
                spec_assoc(old(self).animated_texture_offsets@, k) is Some ==> spec_assoc(
                    final(self).animated_texture_offsets@,
                    k,
                ) == spec_assoc(old(self).animated_texture_offsets@, k),
    {
        let placements = packer.place(&uploads);
        let mut i: usize = 0;
        while i < placements.len()
            invariant
                forall|k: Seq<char>|
                    old(self).spec_uv(k) is Some ==> self.spec_uv(k) == old(self).spec_uv(k),
                forall|k: Seq<char>|
                    spec_assoc(old(self).animated_texture_offsets@, k) is Some ==> spec_assoc(
                        self.animated_texture_offsets@,
                        k,
                    ) == spec_assoc(old(self).animated_texture_offsets@, k),
            decreases placements@.len() - i,
        {
            let ghost pre: Atlas = *self;
            let placement = &placements[i];
            self.insert_uv(placement.id.copy_of(), placement.uv);
            let ghost mid: Atlas = *self;
            match placement.animation_offset {
                Some(offset) => self.insert_animation_offset(placement.id.copy_of(), offset),
                None => {},
            }
            proof {
                assert forall|k: Seq<char>| old(self).spec_uv(k) is Some implies self.spec_uv(k)
                    == old(self).spec_uv(k) by {
                    assert(pre.spec_uv(k) == old(self).spec_uv(k));
                    assert(mid.spec_uv(k) == pre.spec_uv(k));
                    assert(self.uv_map == mid.uv_map);
                }
                assert forall|k: Seq<char>|
                    spec_assoc(old(self).animated_texture_offsets@, k) is Some implies spec_assoc(
                    self.animated_texture_offsets@,
                    k,
                ) == spec_assoc(old(self).animated_texture_offsets@, k) by {
                    assert(spec_assoc(pre.animated_texture_offsets@, k) == spec_assoc(
                        old(self).animated_texture_offsets@,
                        k,
                    ));
                    assert(mid.animated_texture_offsets == pre.animated_texture_offsets);
                }
            }
            i = i + 1;
        }
    }
}

/// Looks `id` up in an entry list; the first entry wins.
fn lookup_assoc<V: Copy>(entries: &Vec<(ResourcePath, V)>, id: &ResourcePath) -> (r: Option<V>)
    ensures
        r == spec_assoc(entries@, id@),
{
    let mut i: usize = 0;
    proof {
        assert(entries@.subrange(0, entries@.len() as int) =~= entries@);
    }
    while i < entries.len()
        invariant
            0 <= i <= entries@.len(),
            spec_assoc(entries@, id@) == spec_assoc(
                entries@.subrange(i as int, entries@.len() as int),
                id@,
            ),
        decreases entries@.len() - i,
    {
        proof {
            assert(entries@.subrange(i as int, entries@.len() as int)[0] == entries@[i as int]);
        }
        if entries[i].0.0 == id.0 {
            return Some(entries[i].1);
        }
        proof {
            assert(entries@.subrange(i as int, entries@.len() as int).subrange(
                1,
                entries@.len() - i,
            ) =~= entries@.subrange(i + 1, entries@.len() as int));
        }
        i = i + 1;
    }
    None
}

/// The texture ids the resolved model references that the atlas has not
/// placed yet: exactly the concrete texture values absent from the UV
/// map, each id listed once.
/// Some binding's value is the concrete texture id `id`.
pub open spec fn spec_references_texture(bindings: Seq<TextureBinding>, id: Seq<char>) -> bool {
    exists|i: int|
        0 <= i < bindings.len() && (#[trigger] bindings[i].value) is Concrete
            && crate::model::spec_value_str(bindings[i].value) == id
}

/// The id `id` occurs among `paths`.
pub open spec fn spec_lists_path(paths: Seq<ResourcePath>, id: Seq<char>) -> bool {
    exists|j: int| 0 <= j < paths.len() && #[trigger] paths[j]@ == id
}

pub fn missing_textures(bindings: &Vec<TextureBinding>, atlas: &Atlas) -> (r: Vec<ResourcePath>)
    ensures
        forall|j: int| 0 <= j < r@.len() ==> atlas.spec_uv(#[trigger] r@[j]@) is None,
        forall|j: int| 0 <= j < r@.len() ==> spec_references_texture(bindings@, #[trigger] r@[j]@),
        forall|i: int|
            0 <= i < bindings@.len() && (#[trigger] bindings@[i].value) is Concrete
                && atlas.spec_uv(crate::model::spec_value_str(bindings@[i].value)) is None
                ==> spec_lists_path(r@, crate::model::spec_value_str(bindings@[i].value)),
        forall|j1: int, j2: int| 0 <= j1 < j2 < r@.len() ==> r@[j1]@ != r@[j2]@,
{
    let mut r: Vec<ResourcePath> = Vec::new();
    let mut i: usize = 0;
    while i < bindings.len()
        invariant
            0 <= i <= bindings@.len(),
            forall|j: int| 0 <= j < r@.len() ==> atlas.spec_uv(#[trigger] r@[j]@) is None,
            forall|j: int|
                0 <= j < r@.len() ==> spec_references_texture(bindings@, #[trigger] r@[j]@),
            forall|bi: int|
                0 <= bi < i && (#[trigger] bindings@[bi].value) is Concrete && atlas.spec_uv(
                    crate::model::spec_value_str(bindings@[bi].value),
                ) is None ==> spec_lists_path(r@, crate::model::spec_value_str(bindings@[bi].value)),
            forall|j1: int, j2: int| 0 <= j1 < j2 < r@.len() ==> r@[j1]@ != r@[j2]@,
        decreases bindings@.len() - i,
    {
        match &bindings[i].value {
            crate::model::TextureValue::Concrete(s) => {
                let id = ResourcePath::new(s.as_str());
                proof {
                    assert(id@ == crate::model::spec_value_str(bindings@[i as int].value));
                }
                let absent = atlas.uv(&id).is_none();
                let listed = contains_path(&r, &id);
                if absent && !listed {
                    let ghost prev = r@;
                    let ghost idv = id@;
                    r.push(id);
                    proof {
                        assert(r@[prev.len() as int]@ == idv);
                        assert(spec_references_texture(bindings@, idv)) by {
                            assert((bindings@[i as int].value) is Concrete
                                && crate::model::spec_value_str(bindings@[i as int].value) == idv);
                        }
                        assert forall|k: Seq<char>| spec_lists_path(prev, k) implies spec_lists_path(
                            r@,
                            k,
                        ) by {
                            let j = choose|j: int| 0 <= j < prev.len() && #[trigger] prev[j]@ == k;
                            assert(r@[j]@ == k);
                        }
                        assert(spec_lists_path(r@, idv));
                        assert forall|j1: int| 0 <= j1 < prev.len() implies r@[j1]@ != idv by {
                            assert(prev[j1]@ != idv);
                        }
                    }
                }
            },
            crate::model::TextureValue::Reference(_) => {},
        }
        i = i + 1;
    }
    r
}

/// Whether some path in `paths` has the same id as `p`.
fn contains_path(paths: &Vec<ResourcePath>, p: &ResourcePath) -> (r: bool)
    ensures
        r == spec_lists_path(paths@, p@),
{
    let mut i: usize = 0;
    while i < paths.len()
        invariant
            0 <= i <= paths@.len(),
            forall|j: int| 0 <= j < i ==> #[trigger] paths@[j]@ != p@,
        decreases paths@.len() - i,
    {
        if paths[i].0 == p.0 {
            proof {
                assert(paths@[i as int]@ == p@);
            }
            return true;
        }
        i = i + 1;
    }
    false
}

} // verus!
