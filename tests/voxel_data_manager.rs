use voxel_builder::voxel_data_manager::{find_in_vec, VoxelData, VoxelDataManager};

fn strings(v: &[&str]) -> Vec<String> {
    v.iter().map(|s| s.to_string()).collect()
}

fn entries() -> Vec<(String, Vec<String>)> {
    vec![
        ("Air".to_string(), strings(&["missing"])),
        ("Grass Block".to_string(), strings(&["grass_top", "dirt", "grass_side"])),
        ("Dirt".to_string(), strings(&["dirt"])),
        ("Oak Log".to_string(), strings(&["oak_log_top", "oak_log_top", "oak_log_side"])),
        ("Crate".to_string(), strings(&["c_top", "c_bottom", "c_front", "c_back", "c_left", "c_right"])),
        ("Odd".to_string(), strings(&["a", "b"])),
    ]
}

#[test]
fn texture_names_are_listed_once_in_first_appearance_order() {
    let (_, names) = VoxelDataManager::new(entries());
    assert_eq!(
        names,
        strings(&[
            "missing",
            "grass_top",
            "dirt",
            "grass_side",
            "oak_log_top",
            "oak_log_side",
            "c_top",
            "c_bottom",
            "c_front",
            "c_back",
            "c_left",
            "c_right",
            "a",
            "b",
        ])
    );
}

#[test]
fn texture_ids_follow_the_face_order() {
    let (catalog, _) = VoxelDataManager::new(entries());
    // left, top, front, right, bottom, back
    assert_eq!(catalog.voxel_data[0].texture_ids, [0; 6]);
    assert_eq!(catalog.voxel_data[1].texture_ids, [3, 1, 3, 3, 2, 3]);
    assert_eq!(catalog.voxel_data[2].texture_ids, [2; 6]);
    assert_eq!(catalog.voxel_data[3].texture_ids, [5, 4, 5, 5, 4, 5]);
    assert_eq!(catalog.voxel_data[4].texture_ids, [10, 6, 8, 11, 7, 9]);
    assert_eq!(catalog.voxel_data[5].texture_ids, [0; 6]);
    assert_eq!(catalog.get_texture_id(1, 1), 1);
    assert_eq!(catalog.get_texture_id(4, 3), 11);
}

#[test]
fn names_are_looked_up_by_id() {
    let (catalog, _) = VoxelDataManager::new(entries());
    assert_eq!(catalog.get_name(1), "Grass Block");
    assert_eq!(catalog.get_name(3), "Oak Log");
}

#[test]
fn find_in_vec_returns_the_first_match() {
    let v = strings(&["x", "y", "x", "z"]);
    assert_eq!(find_in_vec(&v, &"x".to_string()), 0);
    assert_eq!(find_in_vec(&v, &"z".to_string()), 3);
    assert_eq!(find_in_vec(&v, &"y".to_string()), 1);
}

#[test]
fn voxel_data_keeps_its_fields() {
    let d = VoxelData::new("Stone".to_string(), [1, 2, 3, 4, 5, 6]);
    assert_eq!(d.name, "Stone");
    assert_eq!(d.texture_ids, [1, 2, 3, 4, 5, 6]);
}
