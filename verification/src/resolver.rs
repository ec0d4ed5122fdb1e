//! Parent-chain resolution: walks a model's ancestry through the
//! resource provider, merges the chain with closest-wins inheritance,
//! and closes texture-variable references to concrete texture ids.

use vstd::prelude::*;

use crate::error::MeshBakeError;
use crate::model::{
    lemma_texture_lookup_push, spec_elements, spec_texture_lookup, spec_value_str, texture_lookup,
    Element, ElementFace, Model, TextureBinding, TextureValue,
};
use crate::resource::{ModelFetch, ResourcePath, ResourceProvider};

verus! {

/// The deepest parent chain the resolver follows before reporting the
/// chain unbounded.
pub const MAX_PARENT_DEPTH: usize = 512;

/// The value the chain binds to `name`: the chain is ordered
/// nearest-first, and the nearest model that binds the name wins.
pub open spec fn spec_chain_texture_lookup(models: Seq<Model>, name: Seq<char>) -> Option<
    TextureValue,
>
    decreases models.len(),
{
    if models.len() == 0 {
        None
    } else {
        match spec_texture_lookup(models[0].textures@, name) {
            Some(v) => Some(v),
            None => spec_chain_texture_lookup(models.subrange(1, models.len() as int), name),
        }
    }
}

/// The elements the chain supplies: those of the nearest model that
/// defines any.
pub open spec fn spec_first_elements(models: Seq<Model>) -> Option<Seq<Element>>
    decreases models.len(),
{
    if models.len() == 0 {
        None
    } else if models[0].elements is Some {
        spec_elements(models[0])
    } else {
        spec_first_elements(models.subrange(1, models.len() as int))
    }
}

/// Extending a chain by a farther ancestor changes a lookup only for
/// names the nearer part of the chain leaves unbound.
pub proof fn lemma_chain_lookup_snoc(models: Seq<Model>, m: Model, name: Seq<char>)
    ensures
        spec_chain_texture_lookup(models.push(m), name) == (match spec_chain_texture_lookup(
            models,
            name,
        ) {
            Some(v) => Some(v),
            None => spec_texture_lookup(m.textures@, name),
        }),
    decreases models.len(),
{
    let pushed = models.push(m);
    assert(pushed.len() == models.len() + 1);
    if models.len() == 0 {
        assert(pushed[0] == m);
        assert(pushed.subrange(1, pushed.len() as int) =~= Seq::<Model>::empty());
        assert(spec_chain_texture_lookup(pushed.subrange(1, pushed.len() as int), name) is None);
    } else {
        assert(pushed[0] == models[0]);
        lemma_chain_lookup_snoc(models.subrange(1, models.len() as int), m, name);
        assert(pushed.subrange(1, pushed.len() as int) =~= models.subrange(
            1,
            models.len() as int,
        ).push(m));
    }
}

/// Merges a nonempty nearest-first model chain: a nearer model's texture
/// bindings override a farther model's bindings of the same name, the
/// elements are those of the nearest model that defines any, and the
/// merged model no longer has a parent.
pub fn merge_models(chain: Vec<Model>) -> (r: Model)
    requires
        chain@.len() >= 1,
    ensures
        r.parent is None,
        forall|name: Seq<char>| #[trigger]
            spec_texture_lookup(r.textures@, name) == spec_chain_texture_lookup(chain@, name),
        spec_elements(r) == spec_first_elements(chain@),
{
    let ghost orig = chain@;
    let mut chain = chain;
    let mut merged: Vec<TextureBinding> = Vec::new();
    let mut mi: usize = 0;
    proof {
        assert(orig.subrange(0, 0) =~= Seq::<Model>::empty());
    }
    while mi < chain.len()
        invariant
            0 <= mi <= orig.len(),
            chain@ == orig,
            forall|name: Seq<char>| #[trigger]
                spec_texture_lookup(merged@, name) == spec_chain_texture_lookup(
                    orig.subrange(0, mi as int),
                    name,
                ),
        decreases orig.len() - mi,
    {
        let bindings = &chain[mi].textures;
        let mut ti: usize = 0;
        proof {
            assert(orig[mi as int].textures@.subrange(0, 0) =~= Seq::<TextureBinding>::empty());
        }
        while ti < bindings.len()
            invariant
                0 <= ti <= bindings@.len(),
                0 <= mi < orig.len(),
                bindings@ == orig[mi as int].textures@,
                forall|name: Seq<char>| #[trigger]
                    spec_texture_lookup(merged@, name) == (match spec_chain_texture_lookup(
                        orig.subrange(0, mi as int),
                        name,
                    ) {
                        Some(v) => Some(v),
                        None => spec_texture_lookup(
                            orig[mi as int].textures@.subrange(0, ti as int),
                            name,
                        ),
                    }),
            decreases bindings@.len() - ti,
        {
            let b = &bindings[ti];
            let ghost prem = merged@;
            let ghost bv: TextureBinding = orig[mi as int].textures@[ti as int];
            let pushed: bool = texture_lookup(&merged, &b.name).is_none();
            if pushed {
                merged.push(b.copy_of());
            }
            proof {
                let texs = orig[mi as int].textures@;
                assert(texs.subrange(0, ti as int + 1) =~= texs.subrange(0, ti as int).push(
                    texs[ti as int],
                ));
                assert forall|name: Seq<char>| #[trigger]
                    spec_texture_lookup(merged@, name) == (match spec_chain_texture_lookup(
                        orig.subrange(0, mi as int),
                        name,
                    ) {
                        Some(v) => Some(v),
                        None => spec_texture_lookup(texs.subrange(0, ti as int + 1), name),
                    }) by {
                    lemma_texture_lookup_push(texs.subrange(0, ti as int), texs[ti as int], name);
                    if pushed {
                        lemma_texture_lookup_push(prem, bv, name);
                    }
                }
            }
            ti = ti + 1;
        }
        proof {
            assert(orig.subrange(0, mi as int + 1) =~= orig.subrange(0, mi as int).push(
                orig[mi as int],
            ));
            assert(orig[mi as int].textures@.subrange(0, orig[mi as int].textures@.len() as int)
                =~= orig[mi as int].textures@);
            assert forall|name: Seq<char>| #[trigger]
                spec_texture_lookup(merged@, name) == spec_chain_texture_lookup(
                    orig.subrange(0, mi as int + 1),
                    name,
                ) by {
                lemma_chain_lookup_snoc(orig.subrange(0, mi as int), orig[mi as int], name);
            }
        }
        mi = mi + 1;
    }
    proof {
        assert(orig.subrange(0, orig.len() as int) =~= orig);
    }
    let mut elements: Option<Vec<Element>> = None;
    let mut ei: usize = 0;
    proof {
        assert(orig.subrange(0, orig.len() as int) =~= orig);
    }
    while ei < chain.len()
        invariant_except_break
            0 <= ei <= orig.len(),
            chain@ == orig,
            elements is None,
            spec_first_elements(orig) == spec_first_elements(
                orig.subrange(ei as int, orig.len() as int),
            ),
        ensures
            elements matches Some(es) ==> spec_first_elements(orig) == Some(es@),
            elements is None ==> spec_first_elements(orig) is None,
        decreases orig.len() - ei,
    {
        proof {
            assert(orig.subrange(ei as int, orig.len() as int)[0] == orig[ei as int]);
        }
        if chain[ei].elements.is_some() {
            let m = chain.remove(ei);
            elements = m.elements;
            break ;
        }
        proof {
            assert(orig.subrange(ei as int, orig.len() as int).subrange(1, orig.len() - ei)
                =~= orig.subrange(ei as int + 1, orig.len() as int));
        }
        ei = ei + 1;
    }
    Model { parent: None, textures: merged, elements }
}

/// Closest wins across a three-level parent chain: when the most-derived
/// model binds a texture name itself, the merged mapping's value for
/// that name is exactly the most-derived binding, whatever the parent
/// and grandparent bind it to.
pub proof fn lemma_closest_override(
    base: Model,
    parent: Model,
    grandparent: Model,
    name: Seq<char>,
)
    requires
        spec_texture_lookup(base.textures@, name) is Some,
    ensures
        spec_chain_texture_lookup(seq![base, parent, grandparent], name) == spec_texture_lookup(
            base.textures@,
            name,
        ),
{
    assert(seq![base, parent, grandparent][0] == base);
}

/// The concrete texture id `v` closes to by following references through
/// `bindings`, with at most `fuel` reference hops. A chain that cannot
/// close within the number of bindings never closes at all, since a
/// longer chain must revisit a name and therefore cycles.
pub open spec fn spec_chase(bindings: Seq<TextureBinding>, v: TextureValue, fuel: nat) -> Option<
    Seq<char>,
>
    decreases fuel,
{
    match v {
        TextureValue::Concrete(s) => Some(s@),
        TextureValue::Reference(r) => {
            if fuel == 0 {
                None
            } else {
                match spec_texture_lookup(bindings, r@) {
                    Some(v2) => spec_chase(bindings, v2, (fuel - 1) as nat),
                    None => None,
                }
            }
        },
    }
}

/// A value that is already a concrete texture id closes to itself,
/// whatever the mapping binds: substitution never rewrites a concrete
/// override. Together with [`lemma_closest_override`] this pins the
/// resolved value of a texture key the most-derived model overrides.
pub proof fn lemma_chase_concrete(bindings: Seq<TextureBinding>, id: String, fuel: nat)
    ensures
        spec_chase(bindings, TextureValue::Concrete(id), fuel) == Some(id@),
{
}

/// The concrete id the mapping's binding at position `i` closes to, if
/// it closes.
pub open spec fn spec_closed_value(bindings: Seq<TextureBinding>, i: int) -> Option<Seq<char>> {
    spec_chase(bindings, bindings[i].value, bindings.len())
}

/// Every binding of the mapping closes to a concrete id.
pub open spec fn spec_all_closable(bindings: Seq<TextureBinding>) -> bool {
    forall|i: int| 0 <= i < bindings.len() ==> #[trigger] spec_closed_value(bindings, i) is Some
}

/// Some binding with the given name and value fails to close.
pub open spec fn spec_failing_binding(
    bindings: Seq<TextureBinding>,
    key: Seq<char>,
    value: TextureValue,
) -> bool {
    exists|i: int|
        0 <= i < bindings.len() && #[trigger] bindings[i].name@ == key && bindings[i].value == value
            && spec_closed_value(bindings, i) is None
}

/// Follows `v` through the mapping for at most `fuel` reference hops.
fn chase_value(bindings: &Vec<TextureBinding>, v: &TextureValue, fuel: usize) -> (r: Option<String>)
    ensures
        r is Some <==> spec_chase(bindings@, *v, fuel as nat) is Some,
        r matches Some(s) ==> spec_chase(bindings@, *v, fuel as nat) == Some(s@),
    decreases fuel,
{
    match v {
        TextureValue::Concrete(s) => Some(s.clone()),
        TextureValue::Reference(name) => {
            if fuel == 0 {
                None
            } else {
                match texture_lookup(bindings, name) {
                    Some(v2) => chase_value(bindings, &v2, fuel - 1),
                    None => None,
                }
            }
        },
    }
}

/// Substitutes every texture-variable reference in the mapping with the
/// concrete id it closes to, reporting the first binding that cannot be
/// closed. The substitution is a fixed point: on success no reference
/// remains.
pub fn close_textures(bindings: &Vec<TextureBinding>) -> (r: Result<
    Vec<TextureBinding>,
    MeshBakeError,
>)
    ensures
        r is Ok <==> spec_all_closable(bindings@),
        r matches Ok(out) ==> {
            &&& out@.len() == bindings@.len()
            &&& forall|i: int|
                0 <= i < out@.len() ==> (#[trigger] out@[i]).name@ == bindings@[i].name@
                    && out@[i].value is Concrete && Some(spec_value_str(out@[i].value))
                    == spec_closed_value(bindings@, i)
        },
        r matches Err(e) ==> (e matches MeshBakeError::UnresolvedTextureReference { key, value }
            && spec_failing_binding(bindings@, key@, value)),
{
    let mut out: Vec<TextureBinding> = Vec::new();
    let mut i: usize = 0;
    while i < bindings.len()
        invariant
            0 <= i <= bindings@.len(),
            out@.len() == i,
            forall|j: int|
                0 <= j < i ==> (#[trigger] out@[j]).name@ == bindings@[j].name@
                    && out@[j].value is Concrete && Some(spec_value_str(out@[j].value))
                    == spec_closed_value(bindings@, j),
        decreases bindings@.len() - i,
    {
        match chase_value(bindings, &bindings[i].value, bindings.len()) {
            Some(concrete) => {
                out.push(
                    TextureBinding {
                        name: bindings[i].name.clone(),
                        value: TextureValue::Concrete(concrete),
                    },
                );
            },
            None => {
                proof {
                    assert(spec_closed_value(bindings@, i as int) is None);
                }
                return Err(
                    MeshBakeError::UnresolvedTextureReference {
                        key: bindings[i].name.clone(),
                        value: bindings[i].value.copy_of(),
                    },
                );
            },
        }
        i = i + 1;
    }
    proof {
        assert forall|j: int| 0 <= j < bindings@.len() implies #[trigger] spec_closed_value(
            bindings@,
            j,
        ) is Some by {
            assert(out@[j].name@ == bindings@[j].name@);
        }
    }
    Ok(out)
}

/// The texture value of an element face after substitution: a variable
/// reference becomes the mapping's value for that name; a reference the
/// mapping does not bind, and a value already concrete, stay as they are.
pub open spec fn spec_substitute_value(
    bindings: Seq<TextureBinding>,
    v: TextureValue,
) -> TextureValue {
    match v {
        TextureValue::Concrete(_) => v,
        TextureValue::Reference(name) => match spec_texture_lookup(bindings, name@) {
            Some(bound) => bound,
            None => v,
        },
    }
}

/// One optional element face after substitution.
pub open spec fn spec_substitute_face(
    bindings: Seq<TextureBinding>,
    f: Option<ElementFace>,
) -> Option<ElementFace> {
    match f {
        None => None,
        Some(face) => Some(
            ElementFace {
                texture: spec_substitute_value(bindings, face.texture),
                rotation: face.rotation,
            },
        ),
    }
}

/// An element with every face substituted; the geometry is untouched.
pub open spec fn spec_substitute_element(bindings: Seq<TextureBinding>, e: Element) -> Element {
    Element {
        from: e.from,
        to: e.to,
        north: spec_substitute_face(bindings, e.north),
        east: spec_substitute_face(bindings, e.east),
        south: spec_substitute_face(bindings, e.south),
        west: spec_substitute_face(bindings, e.west),
        up: spec_substitute_face(bindings, e.up),
        down: spec_substitute_face(bindings, e.down),
    }
}

/// A face is closed under the mapping: any variable reference it still
/// carries is one the mapping does not bind (such a face bakes as
/// absent).
pub open spec fn spec_face_closed(bindings: Seq<TextureBinding>, f: Option<ElementFace>) -> bool {
    f matches Some(face) ==> (face.texture matches TextureValue::Reference(name)
        ==> spec_texture_lookup(bindings, name@) is None)
}

/// All six faces of the element are closed under the mapping.
pub open spec fn spec_element_closed(bindings: Seq<TextureBinding>, e: Element) -> bool {
    &&& spec_face_closed(bindings, e.north)
    &&& spec_face_closed(bindings, e.east)
    &&& spec_face_closed(bindings, e.south)
    &&& spec_face_closed(bindings, e.west)
    &&& spec_face_closed(bindings, e.up)
    &&& spec_face_closed(bindings, e.down)
}

/// A successful lookup returns the value of some binding with that name.
proof fn lemma_texture_lookup_is_binding(bindings: Seq<TextureBinding>, name: Seq<char>)
    ensures
        spec_texture_lookup(bindings, name) matches Some(v) ==> exists|i: int|
            0 <= i < bindings.len() && (#[trigger] bindings[i]).value == v && bindings[i].name@
                == name,
    decreases bindings.len(),
{
    if bindings.len() == 0 {
    } else if bindings[0].name@ == name {
        assert(bindings[0].value == bindings[0].value);
    } else {
        let tail = bindings.subrange(1, bindings.len() as int);
        lemma_texture_lookup_is_binding(tail, name);
        match spec_texture_lookup(bindings, name) {
            Some(v) => {
                let j = choose|j: int|
                    0 <= j < tail.len() && (#[trigger] tail[j]).value == v && tail[j].name@
                        == name;
                assert(bindings[j + 1] == tail[j]);
            },
            None => {},
        }
    }
}

/// Substituting against an all-concrete mapping closes a face: no bound
/// reference survives.
proof fn lemma_substitution_closes_face(bindings: Seq<TextureBinding>, f: Option<ElementFace>)
    requires
        crate::model::spec_all_concrete(bindings),
    ensures
        spec_face_closed(bindings, spec_substitute_face(bindings, f)),
{
    match f {
        None => {},
        Some(face) => match face.texture {
            TextureValue::Concrete(_) => {},
            TextureValue::Reference(name) => {
                lemma_texture_lookup_is_binding(bindings, name@);
                match spec_texture_lookup(bindings, name@) {
                    Some(v) => {
                        let i = choose|i: int|
                            0 <= i < bindings.len() && (#[trigger] bindings[i]).value == v
                                && bindings[i].name@ == name@;
                        assert(bindings[i].value is Concrete);
                    },
                    None => {},
                }
            },
        },
    }
}

/// Exec twin of [`spec_substitute_value`].
fn substitute_value(bindings: &Vec<TextureBinding>, v: &TextureValue) -> (r: TextureValue)
    ensures
        r == spec_substitute_value(bindings@, *v),
{
    match v {
        TextureValue::Concrete(_) => v.copy_of(),
        TextureValue::Reference(name) => match texture_lookup(bindings, name) {
            Some(bound) => bound,
            None => v.copy_of(),
        },
    }
}

/// Exec twin of [`spec_substitute_face`].
fn substitute_face(bindings: &Vec<TextureBinding>, f: &Option<ElementFace>) -> (r: Option<
    ElementFace,
>)
    ensures
        r == spec_substitute_face(bindings@, *f),
{
    match f {
        None => None,
        Some(face) => Some(
            ElementFace { texture: substitute_value(bindings, &face.texture), rotation: face.rotation },
        ),
    }
}

/// Substitutes every element face's texture-variable reference with the
/// mapping's value, the last step of resolution; a reference the mapping
/// does not bind stays, and under an all-concrete mapping every element
/// comes out closed.
pub fn substitute_element_textures(elements: &Vec<Element>, bindings: &Vec<TextureBinding>) -> (r:
    Vec<Element>)
    ensures
        r@.len() == elements@.len(),
        forall|i: int|
            0 <= i < r@.len() ==> r@[i] == spec_substitute_element(
                bindings@,
                #[trigger] elements@[i],
            ),
        crate::model::spec_all_concrete(bindings@) ==> forall|i: int|
            0 <= i < r@.len() ==> spec_element_closed(bindings@, #[trigger] r@[i]),
{
    let mut r: Vec<Element> = Vec::new();
    let mut i: usize = 0;
    while i < elements.len()
        invariant
            0 <= i <= elements@.len(),
            r@.len() == i,
            forall|j: int|
                0 <= j < i ==> r@[j] == spec_substitute_element(
                    bindings@,
                    #[trigger] elements@[j],
                ),
            crate::model::spec_all_concrete(bindings@) ==> forall|j: int|
                0 <= j < i ==> spec_element_closed(bindings@, #[trigger] r@[j]),
        decreases elements@.len() - i,
    {
        let e = &elements[i];
        r.push(
            Element {
                from: e.from,
                to: e.to,
                north: substitute_face(bindings, &e.north),
                east: substitute_face(bindings, &e.east),
                south: substitute_face(bindings, &e.south),
                west: substitute_face(bindings, &e.west),
                up: substitute_face(bindings, &e.up),
                down: substitute_face(bindings, &e.down),
            },
        );
        proof {
            if crate::model::spec_all_concrete(bindings@) {
                lemma_substitution_closes_face(bindings@, elements@[i as int].north);
                lemma_substitution_closes_face(bindings@, elements@[i as int].east);
                lemma_substitution_closes_face(bindings@, elements@[i as int].south);
                lemma_substitution_closes_face(bindings@, elements@[i as int].west);
                lemma_substitution_closes_face(bindings@, elements@[i as int].up);
                lemma_substitution_closes_face(bindings@, elements@[i as int].down);
            }
        }
        i = i + 1;
    }
    r
}

/// The id `s` occurs among the visited ids.
spec fn spec_lists_string(v: Seq<String>, s: Seq<char>) -> bool {
    exists|j: int| 0 <= j < v.len() && #[trigger] v[j]@ == s
}

/// Whether `s` was already visited.
fn contains_string(visited: &Vec<String>, s: &String) -> (r: bool)
    ensures
        r == spec_lists_string(visited@, s@),
{
    let mut i: usize = 0;
    while i < visited.len()
        invariant
            0 <= i <= visited@.len(),
            forall|j: int| 0 <= j < i ==> #[trigger] visited@[j]@ != s@,
        decreases visited@.len() - i,
    {
        if visited[i] == *s {
            proof {
                assert(visited@[i as int]@ == s@);
            }
            return true;
        }
        i = i + 1;
    }
    false
}

/// The resource path of the model document for a model id: the id
/// prefixed with `models/` and suffixed with `.json`.
pub fn model_resource_path(model_id: &str) -> (r: ResourcePath)
    ensures
        r@ == "models/"@ + model_id@ + ".json"@,
{
    ResourcePath::new(model_id).prepend("models/").append(".json")
}

/// Walks the parent chain of `model` upward, fetching each ancestor
/// through the provider, and returns the ancestors ordered nearest-first.
/// Fails on a missing or malformed ancestor document, on a chain that
/// revisits a model id, and on a chain deeper than [`MAX_PARENT_DEPTH`].
pub fn collect_parent_chain<R: ResourceProvider>(model: &Model, provider: &R) -> (r: Result<
    Vec<Model>,
    MeshBakeError,
>)
    ensures
        model.parent is None ==> (r matches Ok(v) && v@.len() == 0),
        r matches Ok(v) ==> (v@.len() > 0 ==> v@.last().parent is None),
        r matches Ok(v) ==> v@.len() <= MAX_PARENT_DEPTH,
        r matches Ok(v) ==> forall|j: int|
            0 <= j < v@.len() - 1 ==> (#[trigger] v@[j]).parent is Some,
{
    let mut ancestors: Vec<Model> = Vec::new();
    let mut visited: Vec<String> = Vec::new();
    let mut current_parent: Option<String> = match &model.parent {
        Some(p) => Some(p.clone()),
        None => None,
    };
    while current_parent.is_some()
        invariant
            visited@.len() <= MAX_PARENT_DEPTH,
            ancestors@.len() == visited@.len(),
            ancestors@.len() > 0 ==> ancestors@.last().parent == current_parent,
            forall|j: int| 0 <= j < ancestors@.len() - 1 ==> (#[trigger] ancestors@[j]).parent is Some,
            model.parent is None ==> ancestors@.len() == 0 && current_parent is None,
        decreases MAX_PARENT_DEPTH - visited@.len(),
    {
        proof {
            assert(ancestors@.len() > 0 ==> ancestors@.last().parent is Some);
        }
        let parent_id = current_parent.unwrap();
        if contains_string(&visited, &parent_id) {
            return Err(MeshBakeError::CircularParentChain(parent_id));
        }
        if visited.len() >= MAX_PARENT_DEPTH {
            return Err(MeshBakeError::ParentChainTooDeep(parent_id));
        }
        let path = model_resource_path(parent_id.as_str());
        match provider.get_model(&path) {
            ModelFetch::Missing => {
                return Err(MeshBakeError::UnresolvedResourcePath(path));
            },
            ModelFetch::Malformed(message) => {
                return Err(MeshBakeError::JsonShapeError(message));
            },
            ModelFetch::Found(parent_model) => {
                current_parent = match &parent_model.parent {
                    Some(p) => Some(p.clone()),
                    None => None,
                };
                visited.push(parent_id);
                ancestors.push(parent_model);
            },
        }
    }
    Ok(ancestors)
}

/// Resolves a model against its parent chain: a model without a parent
/// is already resolved and returned unchanged (its texture references
/// are validated by the baker); otherwise the chain is fetched, merged
/// closest-wins, its texture variables are closed, and every element
/// face's variable reference is substituted with the closed mapping's
/// value, so that a successfully resolved inherited model has no parent,
/// only concrete texture values, and no face reference the mapping still
/// binds.
pub fn resolve_model<R: ResourceProvider>(model: Model, resource_provider: &R) -> (r: Result<
    Model,
    MeshBakeError,
>)
    ensures
        model.parent is None ==> r == Ok::<Model, MeshBakeError>(model),
        r matches Ok(m) ==> m.parent is None,
        r matches Ok(m) ==> (model.parent is Some ==> crate::model::spec_all_concrete(m.textures@)),
        r matches Ok(m) ==> (model.parent is Some ==> (m.elements matches Some(es) ==> forall|
            i: int,
        | 0 <= i < es@.len() ==> spec_element_closed(m.textures@, #[trigger] es@[i]))),
{
    if model.parent.is_none() {
        return Ok(model);
    }
    let mut ancestors = match collect_parent_chain(&model, resource_provider) {
        Ok(v) => v,
        Err(e) => {
            return Err(e);
        },
    };
    let mut chain: Vec<Model> = Vec::new();
    chain.push(model);
    while ancestors.len() > 0
        invariant
            chain@.len() >= 1,
        decreases ancestors@.len(),
    {
        chain.push(ancestors.remove(0));
    }
    let merged = merge_models(chain);
    let closed = match close_textures(&merged.textures) {
        Ok(out) => out,
        Err(e) => {
            return Err(e);
        },
    };
    let elements = match &merged.elements {
        Some(es) => Some(substitute_element_textures(es, &closed)),
        None => None,
    };
    Ok(Model { parent: None, textures: closed, elements })
}

} // verus!
