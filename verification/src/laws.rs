//! What holds of registration and of binding, over any names, capacities and
//! mappings.

use vstd::prelude::*;
use crate::block_type::{bind_mapping, bind_entry, layer_slot, paint};
use crate::face_group::{faces_of_key, group_of_key, FaceGroup};
use crate::mesh::ATTRIBUTE_LEN;
use crate::texture_manager::{
    is_prefix_of,
    layer_of,
    register_all,
    register_name,
    registration_of,
    valid_names,
    Registration,
};

verus! {

/// Among names without duplicates, the layer of a name is the one position
/// at which it stands.
pub proof fn lemma_layer_is_position(names: Seq<Seq<char>>, i: int)
    requires
        names.no_duplicates(),
        0 <= i < names.len(),
    ensures
        layer_of(names, names[i]) == Some(i),
{
    assert(names.contains(names[i]));
    let k = names.index_of(names[i]);
    assert(0 <= k < names.len() && names[k] == names[i]);
}

/// Registering keeps earlier names at their layers and never makes a
/// duplicate; a name that has no layer afterwards found every layer taken.
pub proof fn lemma_register_name_grows(names: Seq<Seq<char>>, capacity: int, name: Seq<char>)
    requires
        names.no_duplicates(),
    ensures
        register_name(names, capacity, name).no_duplicates(),
        is_prefix_of(names, register_name(names, capacity, name)),
        names.len() >= capacity ==> register_name(names, capacity, name) == names,
        names.len() <= capacity ==> register_name(names, capacity, name).len() <= capacity,
        layer_of(register_name(names, capacity, name), name).is_none() <==> !names.contains(name)
            && names.len() >= capacity,
{
    let after = register_name(names, capacity, name);
    if names.contains(name) || names.len() >= capacity {
        assert(names.take(names.len() as int) =~= names);
    } else {
        assert(after.take(names.len() as int) =~= names);
        assert(after[names.len() as int] == name);
        assert(after.contains(name));
    }
}

/// Registering the same name twice: the second request changes nothing and
/// asks for no upload, and the name has the same layer after both.
pub proof fn lemma_register_twice(names: Seq<Seq<char>>, capacity: int, name: Seq<char>)
    requires
        valid_names(names, capacity),
    ensures
        ({
            let once = register_name(names, capacity, name);
            let twice = register_name(once, capacity, name);
            &&& twice == once
            &&& layer_of(twice, name) == layer_of(once, name)
            &&& !(registration_of(once, capacity, name) is Registered)
            &&& match registration_of(names, capacity, name) {
                Registration::Registered { layer } => {
                    &&& layer == names.len()
                    &&& layer_of(once, name) == Some(layer as int)
                    &&& registration_of(once, capacity, name) == (Registration::AlreadyRegistered {
                        layer,
                    })
                },
                Registration::AlreadyRegistered { layer } => {
                    &&& layer_of(once, name) == Some(layer as int)
                    &&& registration_of(once, capacity, name) == (Registration::AlreadyRegistered {
                        layer,
                    })
                },
                Registration::CapacityExceeded => {
                    &&& layer_of(once, name).is_none()
                    &&& registration_of(once, capacity, name) == Registration::CapacityExceeded
                },
            }
        }),
{
    let once = register_name(names, capacity, name);
    lemma_register_name_grows(names, capacity, name);
    if names.contains(name) {
        let k = names.index_of(name);
        assert(0 <= k < names.len() && names[k] == name);
    } else if names.len() >= capacity {
    } else {
        assert(once[names.len() as int] == name);
        lemma_layer_is_position(once, names.len() as int);
    }
}

/// Registering distinct names, no more than there are layers, into an empty
/// registry gives each the layer of its position among the requests.
pub proof fn lemma_register_distinct(capacity: int, requests: Seq<Seq<char>>)
    requires
        requests.no_duplicates(),
        requests.len() <= capacity,
    ensures
        register_all(Seq::empty(), capacity, requests) == requests,
    decreases requests.len(),
{
    if requests.len() > 0 {
        let earlier = requests.drop_last();
        lemma_register_distinct(capacity, earlier);
        assert(!earlier.contains(requests.last())) by {
            if earlier.contains(requests.last()) {
                let k = earlier.index_of(requests.last());
                assert(requests[k] == requests[requests.len() - 1]);
            }
        }
        assert(earlier.push(requests.last()) =~= requests);
    } else {
        assert(requests =~= Seq::empty());
    }
}

/// Filling a registry: as many distinct names as there are layers get the
/// layers 0, 1, 2, ... in the order of their registration; one name more gets
/// no layer and leaves the registry as it was.
pub proof fn lemma_fill_to_capacity(requests: Seq<Seq<char>>, extra: Seq<char>)
    requires
        requests.no_duplicates(),
        !requests.contains(extra),
    ensures
        ({
            let capacity = requests.len() as int;
            let full = register_all(Seq::empty(), capacity, requests);
            &&& full.len() == capacity
            &&& forall|i: int| 0 <= i < capacity ==> layer_of(full, #[trigger] requests[i]) == Some(i)
            &&& registration_of(full, capacity, extra) == Registration::CapacityExceeded
            &&& register_name(full, capacity, extra) == full
            &&& layer_of(register_name(full, capacity, extra), extra).is_none()
        }),
{
    let capacity = requests.len() as int;
    lemma_register_distinct(capacity, requests);
    assert forall|i: int| 0 <= i < capacity implies layer_of(requests, #[trigger] requests[i])
        == Some(i) by {
        lemma_layer_is_position(requests, i);
    }
}

/// The slot `face * 12 + vertex * 3 + 2` holds a layer component and belongs
/// to `face`.
pub proof fn lemma_layer_slot(face: int, vertex: int)
    requires
        0 <= face,
        0 <= vertex < 4,
    ensures
        layer_slot(face, vertex) % 3 == 2,
        layer_slot(face, vertex) / 12 == face,
        face < 6 ==> 0 <= layer_slot(face, vertex) < ATTRIBUTE_LEN,
{
}

/// Painting writes the layer into the slots of the chosen faces' vertices
/// and leaves every other component, u and v among them, as it was.
pub proof fn lemma_paint(coords: Seq<u32>, faces: Set<int>, layer: u32)
    requires
        coords.len() == ATTRIBUTE_LEN,
    ensures
        paint(coords, faces, layer).len() == ATTRIBUTE_LEN,
        forall|face: int, vertex: int|
            0 <= face < 6 && 0 <= vertex < 4 ==> paint(coords, faces, layer)[#[trigger] layer_slot(
                face,
                vertex,
            )] == if faces.contains(face) {
                layer
            } else {
                coords[layer_slot(face, vertex)]
            },
        forall|k: int|
            0 <= k < ATTRIBUTE_LEN && k % 3 != 2 ==> #[trigger] paint(coords, faces, layer)[k]
                == coords[k],
{
    assert forall|face: int, vertex: int| 0 <= face < 6 && 0 <= vertex < 4 implies paint(
        coords,
        faces,
        layer,
    )[#[trigger] layer_slot(face, vertex)] == if faces.contains(face) {
        layer
    } else {
        coords[layer_slot(face, vertex)]
    } by {
        lemma_layer_slot(face, vertex);
    }
}

/// Binding `all` to a texture: where the texture has a layer afterwards,
/// every vertex of every face carries it; where it found no free layer, the
/// texture coordinates stay as they were.
pub proof fn lemma_all_paints_every_face(
    coords: Seq<u32>,
    names: Seq<Seq<char>>,
    capacity: int,
    texture: Seq<char>,
)
    requires
        coords.len() == ATTRIBUTE_LEN,
    ensures
        ({
            let bound = bind_mapping(coords, names, capacity, seq![("all"@, texture)]);
            &&& bound.1 == register_name(names, capacity, texture)
            &&& match layer_of(bound.1, texture) {
                Some(layer) => forall|face: int, vertex: int|
                    0 <= face < 6 && 0 <= vertex < 4 ==> bound.0[#[trigger] layer_slot(
                        face,
                        vertex,
                    )] == layer as u32,
                None => bound.0 == coords,
            }
        }),
{
    lemma_bind_single(coords, names, capacity, "all"@, texture);
    let after = register_name(names, capacity, texture);
    assert(faces_of_key("all"@) == FaceGroup::All.faces());
    match layer_of(after, texture) {
        Some(layer) => {
            lemma_paint(coords, FaceGroup::All.faces(), layer as u32);
        },
        None => {},
    }
}

/// Binding `sides` to a texture: where the texture has a layer afterwards,
/// the vertices of the right, left, front and back faces carry it, and those
/// of the top and bottom faces keep what they had.
pub proof fn lemma_sides_paint_four_faces(
    coords: Seq<u32>,
    names: Seq<Seq<char>>,
    capacity: int,
    texture: Seq<char>,
)
    requires
        coords.len() == ATTRIBUTE_LEN,
    ensures
        ({
            let bound = bind_mapping(coords, names, capacity, seq![("sides"@, texture)]);
            &&& bound.1 == register_name(names, capacity, texture)
            &&& match layer_of(bound.1, texture) {
                Some(layer) => forall|face: int, vertex: int|
                    0 <= face < 6 && 0 <= vertex < 4 ==> bound.0[#[trigger] layer_slot(
                        face,
                        vertex,
                    )] == if face == 2 || face == 3 {
                        coords[layer_slot(face, vertex)]
                    } else {
                        layer as u32
                    },
                None => bound.0 == coords,
            }
        }),
{
    lemma_bind_single(coords, names, capacity, "sides"@, texture);
    let after = register_name(names, capacity, texture);
    assert("sides"@ != "all"@) by {
        reveal_strlit("sides");
        reveal_strlit("all");
        assert("sides"@.len() != "all"@.len());
    }
    assert(faces_of_key("sides"@) == FaceGroup::Sides.faces());
    match layer_of(after, texture) {
        Some(layer) => {
            lemma_paint(coords, FaceGroup::Sides.faces(), layer as u32);
        },
        None => {},
    }
}

/// A mapping of one entry is bound by applying that entry.
pub proof fn lemma_bind_single(
    coords: Seq<u32>,
    names: Seq<Seq<char>>,
    capacity: int,
    key: Seq<char>,
    texture: Seq<char>,
)
    ensures
        bind_mapping(coords, names, capacity, seq![(key, texture)]) == bind_entry(
            coords,
            names,
            capacity,
            key,
            texture,
        ),
{
    let entries = seq![(key, texture)];
    assert(entries.drop_last() =~= Seq::empty());
    assert(entries.last() == (key, texture));
    reveal_with_fuel(bind_mapping, 2);
}

/// A key that names no face group changes no texture coordinate. Its texture
/// is registered all the same: the names stay as they were only where the
/// texture was known or no layer was free.
pub proof fn lemma_bind_unknown_key(
    coords: Seq<u32>,
    names: Seq<Seq<char>>,
    capacity: int,
    key: Seq<char>,
    texture: Seq<char>,
)
    requires
        group_of_key(key).is_none(),
    ensures
        ({
            let bound = bind_mapping(coords, names, capacity, seq![(key, texture)]);
            &&& bound == bind_entry(coords, names, capacity, key, texture)
            &&& bound.0 == coords
            &&& bound.1 == register_name(names, capacity, texture)
            &&& names.contains(texture) || names.len() >= capacity ==> bound.1 == names
        }),
{
    lemma_bind_single(coords, names, capacity, key, texture);
    let after = register_name(names, capacity, texture);
    match layer_of(after, texture) {
        Some(layer) => {
            assert(paint(coords, Set::empty(), layer as u32) =~= coords);
        },
        None => {},
    }
}

/// The texture names of a mapping, in its order.
pub open spec fn textures_of(entries: Seq<(Seq<char>, Seq<char>)>) -> Seq<Seq<char>> {
    Seq::new(entries.len(), |i: int| entries[i].1)
}

/// Binding registers the textures of the mapping in its order, whatever the
/// keys are: the names after it are the names before it, followed by the
/// textures that were new and found a free layer.
pub proof fn lemma_bind_mapping_names(
    coords: Seq<u32>,
    names: Seq<Seq<char>>,
    capacity: int,
    entries: Seq<(Seq<char>, Seq<char>)>,
)
    ensures
        bind_mapping(coords, names, capacity, entries).1 == register_all(
            names,
            capacity,
            textures_of(entries),
        ),
    decreases entries.len(),
{
    if entries.len() > 0 {
        lemma_bind_mapping_names(coords, names, capacity, entries.drop_last());
        assert(textures_of(entries).drop_last() =~= textures_of(entries.drop_last()));
        assert(textures_of(entries).last() == entries.last().1);
    }
}

/// Binding keeps the names that were registered at their layers and never
/// makes a duplicate; a full registry stays as it is.
pub proof fn lemma_bind_mapping_grows(
    coords: Seq<u32>,
    names: Seq<Seq<char>>,
    capacity: int,
    entries: Seq<(Seq<char>, Seq<char>)>,
)
    requires
        names.no_duplicates(),
    ensures
        bind_mapping(coords, names, capacity, entries).1.no_duplicates(),
        is_prefix_of(names, bind_mapping(coords, names, capacity, entries).1),
        names.len() >= capacity ==> bind_mapping(coords, names, capacity, entries).1 == names,
        names.len() <= capacity ==> bind_mapping(coords, names, capacity, entries).1.len() <= capacity,
    decreases entries.len(),
{
    if entries.len() > 0 {
        let before = bind_mapping(coords, names, capacity, entries.drop_last());
        lemma_bind_mapping_grows(coords, names, capacity, entries.drop_last());
        lemma_register_name_grows(before.1, capacity, entries.last().1);
        let after = register_name(before.1, capacity, entries.last().1);
        assert(after.take(names.len() as int) =~= before.1.take(names.len() as int));
    } else {
        assert(names.take(names.len() as int) =~= names);
    }
}

/// Binding a mapping is binding its first `k` entries and then the rest.
pub proof fn lemma_bind_mapping_split(
    coords: Seq<u32>,
    names: Seq<Seq<char>>,
    capacity: int,
    entries: Seq<(Seq<char>, Seq<char>)>,
    k: int,
)
    requires
        0 <= k <= entries.len(),
    ensures
        ({
            let first = bind_mapping(coords, names, capacity, entries.take(k));
            bind_mapping(coords, names, capacity, entries) == bind_mapping(
                first.0,
                first.1,
                capacity,
                entries.skip(k),
            )
        }),
    decreases entries.len(),
{
    if k == entries.len() {
        assert(entries.take(k) =~= entries);
        assert(entries.skip(k) =~= Seq::empty());
    } else {
        lemma_bind_mapping_split(coords, names, capacity, entries.drop_last(), k);
        assert(entries.drop_last().take(k) =~= entries.take(k));
        assert(entries.skip(k).drop_last() =~= entries.drop_last().skip(k));
        assert(entries.skip(k).last() == entries.last());
    }
}

proof fn lemma_rebuild_prefix(
    coords: Seq<u32>,
    names: Seq<Seq<char>>,
    capacity: int,
    entries: Seq<(Seq<char>, Seq<char>)>,
    k: int,
)
    requires
        names.no_duplicates(),
        0 <= k <= entries.len(),
    ensures
        ({
            let settled = bind_mapping(coords, names, capacity, entries).1;
            bind_mapping(coords, settled, capacity, entries.take(k)) == (
                bind_mapping(coords, names, capacity, entries.take(k)).0,
                settled,
            )
        }),
    decreases k,
{
    let settled = bind_mapping(coords, names, capacity, entries).1;
    if k > 0 {
        lemma_rebuild_prefix(coords, names, capacity, entries, k - 1);
        let now = entries.take(k);
        assert(now.drop_last() =~= entries.take(k - 1));
        assert(now.last() == entries[k - 1]);
        let texture = entries[k - 1].1;
        let earlier = bind_mapping(coords, names, capacity, entries.take(k - 1));
        let first = bind_mapping(coords, names, capacity, now);
        assert(first.1 == register_name(earlier.1, capacity, texture));
        lemma_bind_mapping_grows(coords, names, capacity, entries.take(k - 1));
        lemma_register_name_grows(earlier.1, capacity, texture);
        lemma_bind_mapping_split(coords, names, capacity, entries, k);
        lemma_bind_mapping_grows(first.0, first.1, capacity, entries.skip(k));
        lemma_layer_settles(coords, names, capacity, entries, k - 1);
    }
}

/// Building a block type a second time, with the registry as the first build
/// left it, gives the same texture coordinates and registers nothing.
pub proof fn lemma_rebuild_same(
    coords: Seq<u32>,
    names: Seq<Seq<char>>,
    capacity: int,
    entries: Seq<(Seq<char>, Seq<char>)>,
)
    requires
        names.no_duplicates(),
    ensures
        ({
            let first = bind_mapping(coords, names, capacity, entries);
            bind_mapping(coords, first.1, capacity, entries) == first
        }),
{
    lemma_rebuild_prefix(coords, names, capacity, entries, entries.len() as int);
    assert(entries.take(entries.len() as int) =~= entries);
}

/// Two entries whose textures are registered already and whose keys select no
/// face in common can be applied in either order.
pub proof fn lemma_disjoint_entries_commute(
    coords: Seq<u32>,
    names: Seq<Seq<char>>,
    capacity: int,
    one: (Seq<char>, Seq<char>),
    other: (Seq<char>, Seq<char>),
)
    requires
        names.contains(one.1),
        names.contains(other.1),
        faces_of_key(one.0).disjoint(faces_of_key(other.0)),
    ensures
        bind_mapping(coords, names, capacity, seq![one, other]) == bind_mapping(
            coords,
            names,
            capacity,
            seq![other, one],
        ),
{
    let forth = seq![one, other];
    let back = seq![other, one];
    assert(forth.drop_last() =~= seq![one]);
    assert(back.drop_last() =~= seq![other]);
    assert(forth.last() == other && back.last() == one);
    lemma_bind_single(coords, names, capacity, one.0, one.1);
    lemma_bind_single(coords, names, capacity, other.0, other.1);
    let layer_one = names.index_of(one.1) as u32;
    let layer_other = names.index_of(other.1) as u32;
    let faces_one = faces_of_key(one.0);
    let faces_other = faces_of_key(other.0);
    assert(paint(paint(coords, faces_one, layer_one), faces_other, layer_other) =~= paint(
        paint(coords, faces_other, layer_other),
        faces_one,
        layer_one,
    ));
}

/// The layer that a texture has once its entry is applied is the layer it
/// has after the whole mapping.
pub proof fn lemma_layer_settles(
    coords: Seq<u32>,
    names: Seq<Seq<char>>,
    capacity: int,
    entries: Seq<(Seq<char>, Seq<char>)>,
    k: int,
)
    requires
        names.no_duplicates(),
        0 <= k < entries.len(),
    ensures
        layer_of(bind_mapping(coords, names, capacity, entries.take(k + 1)).1, entries[k].1)
            == layer_of(bind_mapping(coords, names, capacity, entries).1, entries[k].1),
{
    let settled = bind_mapping(coords, names, capacity, entries).1;
    let now = entries.take(k + 1);
    assert(now.drop_last() =~= entries.take(k));
    assert(now.last() == entries[k]);
    let texture = entries[k].1;
    let earlier = bind_mapping(coords, names, capacity, entries.take(k));
    let first = bind_mapping(coords, names, capacity, now);
    assert(first.1 == register_name(earlier.1, capacity, texture));
    lemma_bind_mapping_grows(coords, names, capacity, entries.take(k));
    lemma_register_name_grows(earlier.1, capacity, texture);
    lemma_bind_mapping_split(coords, names, capacity, entries, k + 1);
    lemma_bind_mapping_grows(first.0, first.1, capacity, entries.skip(k + 1));
    match layer_of(first.1, texture) {
        Some(layer) => {
            let i = first.1.index_of(texture);
            assert(0 <= i < first.1.len() && first.1[i] == texture);
            assert(settled.take(first.1.len() as int)[i] == settled[i]);
            assert(settled.contains(texture));
            lemma_layer_is_position(settled, i);
        },
        None => {
            assert(settled == first.1);
        },
    }
}

/// The last entry of a mapping that gives `face` a layer: the last one whose
/// key selects the face and whose texture is among `names`.
pub open spec fn last_binding(
    names: Seq<Seq<char>>,
    entries: Seq<(Seq<char>, Seq<char>)>,
    face: int,
) -> Option<int>
    decreases entries.len(),
{
    if entries.len() == 0 {
        None
    } else if faces_of_key(entries.last().0).contains(face) && names.contains(entries.last().1) {
        Some(entries.len() - 1)
    } else {
        last_binding(names, entries.drop_last(), face)
    }
}

proof fn lemma_last_entry_wins_so_far(
    coords: Seq<u32>,
    names: Seq<Seq<char>>,
    capacity: int,
    entries: Seq<(Seq<char>, Seq<char>)>,
    face: int,
    vertex: int,
    j: int,
)
    requires
        coords.len() == ATTRIBUTE_LEN,
        names.no_duplicates(),
        0 <= face < 6,
        0 <= vertex < 4,
        0 <= j <= entries.len(),
    ensures
        ({
            let settled = bind_mapping(coords, names, capacity, entries).1;
            let so_far = bind_mapping(coords, names, capacity, entries.take(j)).0;
            &&& so_far.len() == ATTRIBUTE_LEN
            &&& match last_binding(settled, entries.take(j), face) {
                Some(k) => {
                    &&& 0 <= k < j
                    &&& settled.contains(entries[k].1)
                    &&& so_far[layer_slot(face, vertex)] == settled.index_of(entries[k].1) as u32
                },
                None => so_far[layer_slot(face, vertex)] == coords[layer_slot(face, vertex)],
            }
        }),
    decreases j,
{
    if j > 0 {
        lemma_last_entry_wins_so_far(coords, names, capacity, entries, face, vertex, j - 1);
        lemma_layer_settles(coords, names, capacity, entries, j - 1);
        let now = entries.take(j);
        assert(now.drop_last() =~= entries.take(j - 1));
        assert(now.last() == entries[j - 1]);
        let earlier = bind_mapping(coords, names, capacity, entries.take(j - 1));
        let after = register_name(earlier.1, capacity, entries[j - 1].1);
        match layer_of(after, entries[j - 1].1) {
            Some(layer) => {
                lemma_paint(earlier.0, faces_of_key(entries[j - 1].0), layer as u32);
            },
            None => {},
        }
    } else {
        assert(entries.take(0) =~= Seq::empty());
    }
}

/// The last entry wins: the layer of a vertex is the layer of the texture of
/// the last entry whose key selects the vertex's face and whose texture has a
/// layer after the mapping; where there is no such entry, it is the
/// template's.
pub proof fn lemma_last_entry_wins(
    coords: Seq<u32>,
    names: Seq<Seq<char>>,
    capacity: int,
    entries: Seq<(Seq<char>, Seq<char>)>,
    face: int,
    vertex: int,
)
    requires
        coords.len() == ATTRIBUTE_LEN,
        names.no_duplicates(),
        0 <= face < 6,
        0 <= vertex < 4,
    ensures
        ({
            let bound = bind_mapping(coords, names, capacity, entries);
            match last_binding(bound.1, entries, face) {
                Some(k) => {
                    &&& 0 <= k < entries.len()
                    &&& layer_of(bound.1, entries[k].1).is_some()
                    &&& bound.0[layer_slot(face, vertex)] == layer_of(
                        bound.1,
                        entries[k].1,
                    ).unwrap() as u32
                },
                None => bound.0[layer_slot(face, vertex)] == coords[layer_slot(face, vertex)],
            }
        }),
{
    lemma_last_entry_wins_so_far(coords, names, capacity, entries, face, vertex, entries.len() as int);
    assert(entries.take(entries.len() as int) =~= entries);
}

} // verus!
