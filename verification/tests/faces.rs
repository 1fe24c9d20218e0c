use block_textures::block_type::set_block_face;
use block_textures::face_group::FaceGroup;
use block_textures::mesh::TemplateMesh;

fn faces_of(group: FaceGroup) -> Vec<usize> {
    let mut faces: Vec<usize> = Vec::new();
    for face in 0..8usize {
        if group.contains(face) {
            faces.push(face);
        }
    }
    faces
}

#[test]
fn keys_name_their_groups() {
    assert_eq!(FaceGroup::from_key("all"), Some(FaceGroup::All));
    assert_eq!(FaceGroup::from_key("sides"), Some(FaceGroup::Sides));
    assert_eq!(FaceGroup::from_key("right"), Some(FaceGroup::Right));
    assert_eq!(FaceGroup::from_key("left"), Some(FaceGroup::Left));
    assert_eq!(FaceGroup::from_key("top"), Some(FaceGroup::Top));
    assert_eq!(FaceGroup::from_key("bottom"), Some(FaceGroup::Bottom));
    assert_eq!(FaceGroup::from_key("front"), Some(FaceGroup::Front));
    assert_eq!(FaceGroup::from_key("back"), Some(FaceGroup::Back));
}

#[test]
fn other_keys_name_no_group() {
    assert_eq!(FaceGroup::from_key("diagonal"), None);
    assert_eq!(FaceGroup::from_key(""), None);
    assert_eq!(FaceGroup::from_key("All"), None);
    assert_eq!(FaceGroup::from_key("top "), None);
    assert_eq!(FaceGroup::from_key("side"), None);
}

#[test]
fn groups_select_their_faces() {
    assert_eq!(faces_of(FaceGroup::All), vec![0, 1, 2, 3, 4, 5]);
    assert_eq!(faces_of(FaceGroup::Sides), vec![0, 1, 4, 5]);
    assert_eq!(faces_of(FaceGroup::Right), vec![0]);
    assert_eq!(faces_of(FaceGroup::Left), vec![1]);
    assert_eq!(faces_of(FaceGroup::Top), vec![2]);
    assert_eq!(faces_of(FaceGroup::Bottom), vec![3]);
    assert_eq!(faces_of(FaceGroup::Front), vec![4]);
    assert_eq!(faces_of(FaceGroup::Back), vec![5]);
}

#[test]
fn one_face_is_painted_at_its_four_layer_slots() {
    let mut coords: Vec<u32> = vec![7; 72];
    set_block_face(&mut coords, 4, 3);
    let mut expected: Vec<u32> = vec![7; 72];
    expected[50] = 3;
    expected[53] = 3;
    expected[56] = 3;
    expected[59] = 3;
    assert_eq!(coords, expected);
}

#[test]
fn first_and_last_face_stay_inside_the_buffer() {
    let mut coords: Vec<u32> = vec![0; 72];
    set_block_face(&mut coords, 0, 9);
    set_block_face(&mut coords, 5, 8);
    assert_eq!(coords[2], 9);
    assert_eq!(coords[11], 9);
    assert_eq!(coords[62], 8);
    assert_eq!(coords[71], 8);
    assert_eq!(coords.iter().filter(|&&c| c != 0).count(), 8);
}

#[test]
fn template_takes_a_cube() {
    let mesh = TemplateMesh::new(vec![1; 72], vec![2; 72], vec![23; 36]);
    assert!(mesh.is_some());
    let mesh = mesh.unwrap();
    assert_eq!(mesh.vertex_positions(), &vec![1u32; 72]);
    assert_eq!(mesh.tex_coords(), &vec![2u32; 72]);
    assert_eq!(mesh.indices(), &vec![23u32; 36]);
}

#[test]
fn template_refuses_other_shapes() {
    assert!(TemplateMesh::new(vec![1; 71], vec![2; 72], vec![0; 36]).is_none());
    assert!(TemplateMesh::new(vec![1; 72], vec![2; 73], vec![0; 36]).is_none());
    assert!(TemplateMesh::new(vec![1; 72], vec![2; 72], vec![0; 35]).is_none());
    assert!(TemplateMesh::new(Vec::new(), Vec::new(), Vec::new()).is_none());
    let mut indices: Vec<u32> = vec![0; 36];
    indices[35] = 24;
    assert!(TemplateMesh::new(vec![1; 72], vec![2; 72], indices).is_none());
}
