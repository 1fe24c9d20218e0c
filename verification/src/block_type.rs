//! Block types: a cube mesh whose texture coordinates name, for each face,
//! the layer of the texture that the face shows.
//!
//! The layer of a vertex is the third component of its texture coordinates.
//! The vertex `v` (0 to 3) of face `f` has it at `f * 12 + v * 3 + 2`.

use vstd::prelude::*;
use crate::face_group::{faces_of_key, FaceGroup, FACE_COUNT};
use crate::mesh::{TemplateMesh, ATTRIBUTE_LEN, COMPONENTS, FACE_STRIDE, VERTICES_PER_FACE};
use crate::laws::lemma_bind_mapping_grows;
use crate::pixels::PixelExtent;
use crate::texture_manager::{
    is_prefix_of,
    layer_of,
    load_error,
    register_name,
    TextureError,
    TextureManager,
};

verus! {

/// The slot of the layer component of vertex `vertex` (0 to 3) of face `face`
/// in a texture-coordinate buffer.
pub open spec fn layer_slot(face: int, vertex: int) -> int {
    face * 12 + vertex * 3 + 2
}

/// The buffer `coords` with `layer` written into the layer component of every
/// vertex of the faces in `faces`. A slot `k` holds a layer component where
/// `k % 3 == 2`, and belongs to face `k / 12`.
pub open spec fn paint(coords: Seq<u32>, faces: Set<int>, layer: u32) -> Seq<u32> {
    Seq::new(
        coords.len(),
        |k: int|
            if k % 3 == 2 && faces.contains(k / 12) {
                layer
            } else {
                coords[k]
            },
    )
}

/// Texture coordinates and registered names after one entry of a mapping is
/// applied: `texture` is registered, and where it then has a layer, that
/// layer is painted onto the faces that `key` selects.
pub open spec fn bind_entry(
    coords: Seq<u32>,
    names: Seq<Seq<char>>,
    capacity: int,
    key: Seq<char>,
    texture: Seq<char>,
) -> (Seq<u32>, Seq<Seq<char>>) {
    let names_after = register_name(names, capacity, texture);
    match layer_of(names_after, texture) {
        Some(layer) => (paint(coords, faces_of_key(key), layer as u32), names_after),
        None => (coords, names_after),
    }
}

/// Texture coordinates and registered names after the entries of a mapping
/// (pairs of face-group key and texture name) are applied in order. A later
/// entry overwrites an earlier one on the faces that both select.
pub open spec fn bind_mapping(
    coords: Seq<u32>,
    names: Seq<Seq<char>>,
    capacity: int,
    entries: Seq<(Seq<char>, Seq<char>)>,
) -> (Seq<u32>, Seq<Seq<char>>)
    decreases entries.len(),
{
    if entries.len() == 0 {
        (coords, names)
    } else {
        let before = bind_mapping(coords, names, capacity, entries.drop_last());
        bind_entry(before.0, before.1, capacity, entries.last().0, entries.last().1)
    }
}

/// One entry of a mapping: the texture `texture` for the faces that the key
/// `face` selects. `pixels` is the size of the texture's loaded pixel data,
/// or nothing where it was not loaded; it is read only where the texture
/// needs a layer.
#[derive(Debug)]
pub struct FaceTexture {
    pub face: String,
    pub texture: String,
    pub pixels: Option<PixelExtent>,
}

/// A mapping as pairs of key and texture name.
pub open spec fn entries_of(mapping: Seq<FaceTexture>) -> Seq<(Seq<char>, Seq<char>)> {
    Seq::new(mapping.len(), |i: int| (mapping[i].face@, mapping[i].texture@))
}

/// The loaded sizes of a mapping, entry by entry.
pub open spec fn pixels_of(mapping: Seq<FaceTexture>) -> Seq<Option<PixelExtent>> {
    Seq::new(mapping.len(), |i: int| mapping[i].pixels)
}

/// The error that entry `k` of a mapping meets when the entries before it
/// have been applied: its texture needs a layer, and its pixel data is
/// missing or does not fill one.
pub open spec fn entry_error(
    coords: Seq<u32>,
    names: Seq<Seq<char>>,
    capacity: int,
    size: (int, int),
    entries: Seq<(Seq<char>, Seq<char>)>,
    pixels: Seq<Option<PixelExtent>>,
    k: int,
) -> Option<TextureError> {
    load_error(
        bind_mapping(coords, names, capacity, entries.take(k)).1,
        capacity,
        size,
        entries[k].1,
        pixels[k],
    )
}

/// Why a block type could not be made: the entry that failed, and how.
#[derive(Clone, Copy, Debug, PartialEq, Eq, Structural)]
pub struct BindError {
    pub entry: usize,
    pub cause: TextureError,
}

/// Sets the layer of the 4 vertices of face `face` to `texture_index`.
pub fn set_block_face(tex_coords: &mut Vec<u32>, face: usize, texture_index: u32)
    requires
        face < FACE_COUNT,
        old(tex_coords)@.len() == ATTRIBUTE_LEN,
    ensures
        final(tex_coords)@ == paint(old(tex_coords)@, set![face as int], texture_index),
{
    let mut vertex: usize = 0;
    while vertex < VERTICES_PER_FACE
        invariant
            face < FACE_COUNT,
            vertex <= VERTICES_PER_FACE,
            tex_coords@.len() == ATTRIBUTE_LEN,
            // the layer slots of the vertices before `vertex` are written
            forall|k: int|
                0 <= k < ATTRIBUTE_LEN ==> tex_coords@[k] == if k % 3 == 2 && k / 12 == face && k
                    < face * 12 + vertex * 3 {
                    texture_index
                } else {
                    old(tex_coords)@[k]
                },
        decreases VERTICES_PER_FACE - vertex,
    {
        tex_coords.set(face * FACE_STRIDE + vertex * COMPONENTS + 2, texture_index);
        vertex += 1;
    }
    assert(tex_coords@ =~= paint(old(tex_coords)@, set![face as int], texture_index));
}

/// Sets the layer of every vertex of the faces of `group` to
/// `texture_index`.
pub fn set_group_faces(tex_coords: &mut Vec<u32>, group: FaceGroup, texture_index: u32)
    requires
        old(tex_coords)@.len() == ATTRIBUTE_LEN,
    ensures
        final(tex_coords)@ == paint(old(tex_coords)@, group.faces(), texture_index),
{
    let mut face: usize = 0;
    while face < FACE_COUNT
        invariant
            face <= FACE_COUNT,
            tex_coords@.len() == ATTRIBUTE_LEN,
            tex_coords@ == paint(
                old(tex_coords)@,
                Set::new(|f: int| f < face && group.faces().contains(f)),
                texture_index,
            ),
        decreases FACE_COUNT - face,
    {
        if group.contains(face) {
            set_block_face(tex_coords, face, texture_index);
        }
        assert(tex_coords@ =~= paint(
            old(tex_coords)@,
            Set::new(|f: int| f < face + 1 && group.faces().contains(f)),
            texture_index,
        ));
        face += 1;
    }
    assert(tex_coords@ =~= paint(old(tex_coords)@, group.faces(), texture_index));
}

/// A kind of block: its name and its mesh.
#[derive(Debug)]
pub struct BlockType {
    pub name: String,
    pub vertex_positions: Vec<u32>,
    pub tex_coords: Vec<u32>,
    pub indices: Vec<u32>,
}

impl BlockType {
    /// Makes the block type `name` from the template `numbers` and a mapping
    /// from face-group keys to texture names, applied in the order given.
    ///
    /// Each texture is registered with `texture_manager`; where it has a
    /// layer afterwards, the faces that its key selects get that layer. A key
    /// that names no face group selects nothing, and a texture that found no
    /// free layer leaves its faces as they were. Positions and indices are
    /// those of the template.
    ///
    /// The first entry whose texture needs a layer and whose pixel data is
    /// missing or of another size ends the work with an error: that texture
    /// is not registered, and the registry holds what the entries before it
    /// brought in.
    ///
    /// The registry only grows at its end: the names from its old length on
    /// are the textures that this call brought in, whose pixels are still to
    /// be uploaded to their layers.
    pub fn new(
        texture_manager: &mut TextureManager,
        name: &str,
        block_face_textures: Vec<FaceTexture>,
        numbers: &TemplateMesh,
    ) -> (r: Result<Self, BindError>)
        requires
            old(texture_manager).wf(),
            numbers.wf(),
        ensures
            final(texture_manager).wf(),
            final(texture_manager).capacity() == old(texture_manager).capacity(),
            final(texture_manager).layer_size() == old(texture_manager).layer_size(),
            final(texture_manager).array_handle() == old(texture_manager).array_handle(),
            is_prefix_of(old(texture_manager).names(), final(texture_manager).names()),
            match r {
                Ok(block) => {
                    &&& forall|k: int|
                        0 <= k < block_face_textures@.len() ==> (#[trigger] entry_error(
                            numbers.coords(),
                            old(texture_manager).names(),
                            old(texture_manager).capacity(),
                            old(texture_manager).layer_size(),
                            entries_of(block_face_textures@),
                            pixels_of(block_face_textures@),
                            k,
                        )).is_none()
                    &&& (block.tex_coords@, final(texture_manager).names()) == bind_mapping(
                        numbers.coords(),
                        old(texture_manager).names(),
                        old(texture_manager).capacity(),
                        entries_of(block_face_textures@),
                    )
                    &&& block.name@ == name@
                    &&& block.vertex_positions@ == numbers.positions()
                    &&& block.indices@ == numbers.triangles()
                },
                Err(error) => {
                    &&& error.entry < block_face_textures@.len()
                    &&& forall|k: int|
                        0 <= k < error.entry ==> (#[trigger] entry_error(
                            numbers.coords(),
                            old(texture_manager).names(),
                            old(texture_manager).capacity(),
                            old(texture_manager).layer_size(),
                            entries_of(block_face_textures@),
                            pixels_of(block_face_textures@),
                            k,
                        )).is_none()
                    &&& entry_error(
                        numbers.coords(),
                        old(texture_manager).names(),
                        old(texture_manager).capacity(),
                        old(texture_manager).layer_size(),
                        entries_of(block_face_textures@),
                        pixels_of(block_face_textures@),
                        error.entry as int,
                    ) == Some(error.cause)
                    &&& final(texture_manager).names() == bind_mapping(
                        numbers.coords(),
                        old(texture_manager).names(),
                        old(texture_manager).capacity(),
                        entries_of(block_face_textures@).take(error.entry as int),
                    ).1
                },
            },
    {
        let mut block_type = BlockType {
            name: name.to_owned(),
            vertex_positions: numbers.vertex_positions().clone(),
            tex_coords: numbers.tex_coords().clone(),
            indices: numbers.indices().clone(),
        };
        let ghost entries = entries_of(block_face_textures@);
        let ghost pixels = pixels_of(block_face_textures@);
        let ghost capacity = old(texture_manager).capacity();
        let ghost size = old(texture_manager).layer_size();
        let ghost names = old(texture_manager).names();
        let mut i: usize = 0;
        while i < block_face_textures.len()
            invariant
                i <= block_face_textures.len(),
                entries == entries_of(block_face_textures@),
                pixels == pixels_of(block_face_textures@),
                capacity == old(texture_manager).capacity(),
                size == old(texture_manager).layer_size(),
                names == old(texture_manager).names(),
                names.no_duplicates(),
                texture_manager.wf(),
                texture_manager.capacity() == capacity,
                texture_manager.layer_size() == size,
                texture_manager.array_handle() == old(texture_manager).array_handle(),
                block_type.tex_coords@.len() == ATTRIBUTE_LEN,
                (block_type.tex_coords@, texture_manager.names()) == bind_mapping(
                    numbers.coords(),
                    names,
                    capacity,
                    entries.take(i as int),
                ),
                forall|k: int|
                    0 <= k < i ==> (#[trigger] entry_error(
                        numbers.coords(),
                        names,
                        capacity,
                        size,
                        entries,
                        pixels,
                        k,
                    )).is_none(),
                block_type.name@ == name@,
                block_type.vertex_positions@ == numbers.positions(),
                block_type.indices@ == numbers.triangles(),
            decreases block_face_textures.len() - i,
        {
            let entry = &block_face_textures[i];
            if let Err(cause) = texture_manager.add_texture(entry.texture.as_str(), entry.pixels) {
                proof {
                    lemma_bind_mapping_grows(numbers.coords(), names, capacity, entries.take(i as int));
                }
                return Err(BindError { entry: i, cause });
            }
            if let Some(texture_index) = texture_manager.get_texture_index(entry.texture.as_str()) {
                if let Some(group) = FaceGroup::from_key(entry.face.as_str()) {
                    set_group_faces(&mut block_type.tex_coords, group, texture_index as u32);
                } else {
                    assert(block_type.tex_coords@ =~= paint(
                        block_type.tex_coords@,
                        Set::empty(),
                        texture_index as u32,
                    ));
                }
            }
            proof {
                assert(entries.take(i + 1).drop_last() =~= entries.take(i as int));
                assert(entries.take(i + 1).last() == entries[i as int]);
            }
            i += 1;
        }
        proof {
            assert(entries.take(i as int) =~= entries);
            lemma_bind_mapping_grows(numbers.coords(), names, capacity, entries);
        }
        Ok(block_type)
    }
}

} // verus!
