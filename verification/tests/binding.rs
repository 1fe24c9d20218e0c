use block_textures::block_type::{BindError, BlockType, FaceTexture};
use block_textures::mesh::TemplateMesh;
use block_textures::pixels::PixelExtent;
use block_textures::texture_manager::{TextureError, TextureManager};

const HALF: u32 = 0x3f00_0000;
const MINUS_HALF: u32 = 0xbf00_0000;
const ZERO: u32 = 0;
const ONE: u32 = 0x3f80_0000;

fn loaded() -> Option<PixelExtent> {
    Some(PixelExtent { width: 16, height: 16, byte_len: 1024 })
}

fn cube_positions() -> Vec<u32> {
    let mut positions: Vec<u32> = Vec::new();
    for slot in 0..72u32 {
        positions.push(if (slot / 3 + slot % 3) % 2 == 0 { HALF } else { MINUS_HALF });
    }
    positions
}

fn cube_coords(layer: u32) -> Vec<u32> {
    let face: [u32; 12] =
        [ZERO, ONE, layer, ZERO, ZERO, layer, ONE, ZERO, layer, ONE, ONE, layer];
    let mut coords: Vec<u32> = Vec::new();
    for _ in 0..6 {
        coords.extend_from_slice(&face);
    }
    coords
}

fn cube_indices() -> Vec<u32> {
    let mut indices: Vec<u32> = Vec::new();
    for face in 0..6u32 {
        for corner in [0u32, 1, 2, 0, 2, 3] {
            indices.push(face * 4 + corner);
        }
    }
    indices
}

fn template() -> TemplateMesh {
    TemplateMesh::new(cube_positions(), cube_coords(0), cube_indices()).unwrap()
}

fn mapping(pairs: &[(&str, &str)]) -> Vec<FaceTexture> {
    pairs
        .iter()
        .map(|(key, texture)| FaceTexture {
            face: key.to_string(),
            texture: texture.to_string(),
            pixels: loaded(),
        })
        .collect()
}

fn entry(face: &str, texture: &str, pixels: Option<PixelExtent>) -> FaceTexture {
    FaceTexture { face: face.to_string(), texture: texture.to_string(), pixels }
}

fn layers(block: &BlockType) -> Vec<u32> {
    let mut layers: Vec<u32> = Vec::new();
    for face in 0..6usize {
        for vertex in 0..4usize {
            layers.push(block.tex_coords[face * 12 + vertex * 3 + 2]);
        }
    }
    layers
}

fn face_layers(per_face: [u32; 6]) -> Vec<u32> {
    let mut layers: Vec<u32> = Vec::new();
    for layer in per_face {
        for _ in 0..4 {
            layers.push(layer);
        }
    }
    layers
}

#[test]
fn all_paints_every_vertex() {
    let mut tm = TextureManager::new(16, 16, 8, 1);
    tm.add_texture("dirt", loaded()).unwrap();
    tm.add_texture("sand", loaded()).unwrap();
    let block = BlockType::new(&mut tm, "stone", mapping(&[("all", "stone")]), &template()).unwrap();
    assert_eq!(tm.get_texture_index("stone"), Some(2));
    assert_eq!(layers(&block), vec![2u32; 24]);
    assert_eq!(block.tex_coords, cube_coords(2));
    assert_eq!(block.name, "stone");
}

#[test]
fn sides_leave_top_and_bottom() {
    let mut tm = TextureManager::new(16, 16, 8, 1);
    tm.add_texture("dirt", loaded()).unwrap();
    let block = BlockType::new(&mut tm, "log", mapping(&[("sides", "log_side")]), &template()).unwrap();
    assert_eq!(tm.get_texture_index("log_side"), Some(1));
    assert_eq!(layers(&block), face_layers([1, 1, 0, 0, 1, 1]));
}

#[test]
fn sides_leave_what_the_template_had() {
    let numbers = TemplateMesh::new(cube_positions(), cube_coords(5), cube_indices()).unwrap();
    let mut tm = TextureManager::new(16, 16, 8, 1);
    let block = BlockType::new(&mut tm, "log", mapping(&[("sides", "log_side")]), &numbers).unwrap();
    assert_eq!(layers(&block), face_layers([0, 0, 5, 5, 0, 0]));
}

#[test]
fn grass_block_gets_three_layers() {
    let mut tm = TextureManager::new(16, 16, 256, 1);
    let block = BlockType::new(
        &mut tm,
        "grass",
        mapping(&[("top", "grass"), ("bottom", "dirt"), ("sides", "grass_side")]),
        &template(),
    ).unwrap();
    assert_eq!(tm.len(), 3);
    assert_eq!(tm.get_texture_index("grass"), Some(0));
    assert_eq!(tm.get_texture_index("dirt"), Some(1));
    assert_eq!(tm.get_texture_index("grass_side"), Some(2));
    assert_eq!(layers(&block), face_layers([2, 2, 0, 1, 2, 2]));
}

#[test]
fn each_named_face_has_its_index() {
    let mut tm = TextureManager::new(16, 16, 256, 1);
    tm.add_texture("air", loaded()).unwrap();
    let block = BlockType::new(
        &mut tm,
        "dice",
        mapping(&[
            ("back", "six"),
            ("front", "five"),
            ("bottom", "four"),
            ("top", "three"),
            ("left", "two"),
            ("right", "one"),
        ]),
        &template(),
    ).unwrap();
    assert_eq!(layers(&block), face_layers([6, 5, 4, 3, 2, 1]));
}

#[test]
fn unknown_key_changes_no_vertex() {
    let mut tm = TextureManager::new(16, 16, 8, 1);
    let numbers = template();
    let block = BlockType::new(&mut tm, "odd", mapping(&[("diagonal", "stone")]), &numbers).unwrap();
    assert_eq!(&block.tex_coords, numbers.tex_coords());
    assert_eq!(tm.len(), 1);
    assert_eq!(tm.get_texture_index("stone"), Some(0));
}

#[test]
fn unknown_key_with_a_known_texture_registers_nothing() {
    let mut tm = TextureManager::new(16, 16, 8, 1);
    tm.add_texture("dirt", loaded()).unwrap();
    tm.add_texture("stone", loaded()).unwrap();
    let numbers = template();
    let block = BlockType::new(&mut tm, "odd", mapping(&[("diagonal", "stone")]), &numbers).unwrap();
    assert_eq!(&block.tex_coords, numbers.tex_coords());
    assert_eq!(tm.len(), 2);
}

#[test]
fn positions_and_indices_are_the_templates() {
    let mut tm = TextureManager::new(16, 16, 8, 1);
    let numbers = template();
    let block = BlockType::new(
        &mut tm,
        "grass",
        mapping(&[("top", "grass"), ("bottom", "dirt"), ("sides", "grass_side")]),
        &numbers,
    ).unwrap();
    assert_eq!(block.vertex_positions, cube_positions());
    assert_eq!(block.indices, cube_indices());
    assert_eq!(numbers.tex_coords(), &cube_coords(0));
}

#[test]
fn u_and_v_are_untouched() {
    let mut tm = TextureManager::new(16, 16, 8, 1);
    tm.add_texture("a", loaded()).unwrap();
    tm.add_texture("b", loaded()).unwrap();
    let numbers = template();
    let block = BlockType::new(&mut tm, "c", mapping(&[("all", "c")]), &numbers).unwrap();
    for slot in 0..72usize {
        if slot % 3 != 2 {
            assert_eq!(block.tex_coords[slot], numbers.tex_coords()[slot]);
        }
    }
}

#[test]
fn rebuilding_gives_the_same_coordinates() {
    let entries = [("top", "log_top"), ("bottom", "log_top"), ("sides", "log_side")];
    let mut tm = TextureManager::new(16, 16, 8, 1);
    tm.add_texture("dirt", loaded()).unwrap();
    let first = BlockType::new(&mut tm, "log", mapping(&entries), &template()).unwrap();
    assert_eq!(tm.len(), 3);
    let second = BlockType::new(&mut tm, "log", mapping(&entries), &template()).unwrap();
    assert_eq!(tm.len(), 3);
    assert_eq!(first.tex_coords, second.tex_coords);
    assert_eq!(layers(&first), face_layers([2, 2, 1, 1, 2, 2]));
}

#[test]
fn equal_registries_give_equal_blocks() {
    let entries = [("all", "planks"), ("front", "door")];
    let mut one = TextureManager::new(16, 16, 8, 1);
    let mut other = TextureManager::new(16, 16, 8, 1);
    one.add_texture("stone", loaded()).unwrap();
    other.add_texture("stone", loaded()).unwrap();
    let first = BlockType::new(&mut one, "door", mapping(&entries), &template()).unwrap();
    let second = BlockType::new(&mut other, "door", mapping(&entries), &template()).unwrap();
    assert_eq!(first.tex_coords, second.tex_coords);
    assert_eq!(layers(&first), face_layers([1, 1, 1, 1, 2, 1]));
}

#[test]
fn later_entry_wins_on_shared_faces() {
    let mut tm = TextureManager::new(16, 16, 8, 1);
    let block = BlockType::new(&mut tm, "a", mapping(&[("all", "x"), ("top", "y")]), &template()).unwrap();
    assert_eq!(layers(&block), face_layers([0, 0, 1, 0, 0, 0]));
    let mut tm = TextureManager::new(16, 16, 8, 1);
    let block = BlockType::new(&mut tm, "a", mapping(&[("top", "y"), ("all", "x")]), &template()).unwrap();
    assert_eq!(tm.get_texture_index("x"), Some(1));
    assert_eq!(layers(&block), face_layers([1, 1, 1, 1, 1, 1]));
}

#[test]
fn texture_without_a_layer_leaves_its_faces() {
    let mut tm = TextureManager::new(16, 16, 2, 1);
    tm.add_texture("stone", loaded()).unwrap();
    let block = BlockType::new(
        &mut tm,
        "grass",
        mapping(&[("all", "stone"), ("top", "grass"), ("bottom", "dirt"), ("left", "stone")]),
        &template(),
    ).unwrap();
    assert_eq!(tm.len(), 2);
    assert_eq!(tm.get_texture_index("grass"), Some(1));
    assert_eq!(tm.get_texture_index("dirt"), None);
    assert_eq!(layers(&block), face_layers([0, 0, 1, 0, 0, 0]));
}

#[test]
fn shared_textures_are_registered_once() {
    let mut tm = TextureManager::new(16, 16, 8, 1);
    let dirt = BlockType::new(&mut tm, "dirt", mapping(&[("all", "dirt")]), &template()).unwrap();
    let grass = BlockType::new(
        &mut tm,
        "grass",
        mapping(&[("top", "grass"), ("bottom", "dirt"), ("sides", "grass_side")]),
        &template(),
    ).unwrap();
    assert_eq!(tm.len(), 3);
    assert_eq!(tm.texture_name(0), Some("dirt"));
    assert_eq!(tm.texture_name(1), Some("grass"));
    assert_eq!(tm.texture_name(2), Some("grass_side"));
    assert_eq!(layers(&dirt), vec![0u32; 24]);
    assert_eq!(layers(&grass), face_layers([2, 2, 1, 0, 2, 2]));
}

#[test]
fn empty_mapping_copies_the_template() {
    let mut tm = TextureManager::new(16, 16, 8, 1);
    let numbers = template();
    let block = BlockType::new(&mut tm, "air", Vec::new(), &numbers).unwrap();
    assert_eq!(&block.tex_coords, numbers.tex_coords());
    assert_eq!(tm.len(), 0);
    assert_eq!(block.name, "air");
}

#[test]
fn disjoint_groups_of_known_textures_apply_in_any_order() {
    let mut one = TextureManager::new(16, 16, 8, 1);
    one.add_texture("x", loaded()).unwrap();
    one.add_texture("y", loaded()).unwrap();
    let mut other = TextureManager::new(16, 16, 8, 1);
    other.add_texture("x", loaded()).unwrap();
    other.add_texture("y", loaded()).unwrap();
    let forth = BlockType::new(&mut one, "a", mapping(&[("top", "y"), ("sides", "x")]), &template()).unwrap();
    let back = BlockType::new(&mut other, "a", mapping(&[("sides", "x"), ("top", "y")]), &template()).unwrap();
    assert_eq!(forth.tex_coords, back.tex_coords);
    assert_eq!(layers(&forth), face_layers([0, 0, 1, 0, 0, 0]));
}

#[test]
fn layer_slots_follow_face_and_vertex() {
    let mut tm = TextureManager::new(16, 16, 8, 1);
    tm.add_texture("a", loaded()).unwrap();
    tm.add_texture("b", loaded()).unwrap();
    tm.add_texture("c", loaded()).unwrap();
    let block = BlockType::new(&mut tm, "d", mapping(&[("front", "d")]), &template()).unwrap();
    let mut expected = cube_coords(0);
    expected[4 * 12 + 2] = 3;
    expected[4 * 12 + 5] = 3;
    expected[4 * 12 + 8] = 3;
    expected[4 * 12 + 11] = 3;
    assert_eq!(block.tex_coords, expected);
}

#[test]
fn missing_pixels_end_the_build_at_their_entry() {
    let mut tm = TextureManager::new(16, 16, 8, 1);
    tm.add_texture("dirt", loaded()).unwrap();
    let result = BlockType::new(
        &mut tm,
        "grass",
        vec![
            entry("bottom", "dirt", None),
            entry("top", "grass", loaded()),
            entry("sides", "grass_side", None),
            entry("front", "door", loaded()),
        ],
        &template(),
    );
    assert_eq!(result.err(), Some(BindError { entry: 2, cause: TextureError::LoadFailed }));
    assert_eq!(tm.len(), 2);
    assert_eq!(tm.get_texture_index("grass"), Some(1));
    assert_eq!(tm.get_texture_index("grass_side"), None);
    assert_eq!(tm.get_texture_index("door"), None);
}

#[test]
fn pixels_of_another_size_end_the_build() {
    let mut tm = TextureManager::new(16, 16, 8, 1);
    let wide = Some(PixelExtent { width: 32, height: 16, byte_len: 2048 });
    let result = BlockType::new(&mut tm, "stone", vec![entry("all", "stone", wide)], &template());
    assert_eq!(result.err(), Some(BindError { entry: 0, cause: TextureError::WrongSize }));
    assert_eq!(tm.len(), 0);
}

#[test]
fn pixels_are_not_asked_for_known_or_refused_textures() {
    let mut tm = TextureManager::new(16, 16, 1, 1);
    tm.add_texture("stone", loaded()).unwrap();
    let block = BlockType::new(
        &mut tm,
        "stone",
        vec![entry("all", "stone", None), entry("top", "moss", None)],
        &template(),
    )
    .unwrap();
    assert_eq!(tm.len(), 1);
    assert_eq!(layers(&block), vec![0u32; 24]);
}
