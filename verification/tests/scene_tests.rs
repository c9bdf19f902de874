use rustray::material::{texture_type_from_key, TextureType};
use rustray::scene::{object_kind_from_name, ObjectKind};
use rustray::animation::{
    find_name, frame_applicable, frame_exists, has_animation, has_initial_keyframe,
    keyframes_for_timestamp, object_entries, try_keyframes_for_timestamp,
};
use rustray::scene::{
    file_kind_of_extension, light_type_from_name, raytracing_init_step, scene_file_kind, LightType,
    Scene, SceneFileKind, SceneLoadType,
};

fn names(ws: &[&str]) -> Vec<String> {
    ws.iter().map(|w| w.to_string()).collect()
}

#[test]
fn animation_needs_initial_keyframe_and_two_keyframes() {
    assert!(has_initial_keyframe(&vec![0, 1000]));
    assert!(!has_initial_keyframe(&vec![10, 1000]));
    assert!(!has_initial_keyframe(&vec![]));
    assert!(has_animation(true, 25, &vec![0, 1000]));
    assert!(!has_animation(false, 25, &vec![0, 1000]));
    assert!(!has_animation(true, 0, &vec![0, 1000]));
    assert!(!has_animation(true, 25, &vec![0]));
    assert!(!has_animation(true, 25, &vec![5, 1000]));
}

#[test]
fn which_frames_exist() {
    assert!(frame_exists(true, 25, 24));
    assert!(!frame_exists(true, 25, 25));
    assert!(!frame_exists(false, 25, 0));
    assert!(frame_applicable(true, 25, 25));
    assert!(!frame_applicable(true, 25, 26));
    assert!(!frame_applicable(false, 25, 0));
}

#[test]
fn keyframes_around_a_moment() {
    let times = vec![0, 1000, 3000];
    let s = keyframes_for_timestamp(&times, 1500);
    assert_eq!((s.first, s.last, s.time_pos, s.time_diff), (1, 2, 500, 2000));
    let s = keyframes_for_timestamp(&times, 0);
    assert_eq!((s.first, s.last, s.time_pos, s.time_diff), (0, 1, 0, 1000));
    let s = keyframes_for_timestamp(&times, 1000);
    assert_eq!((s.first, s.last), (1, 2));
    let s = keyframes_for_timestamp(&times, 5000);
    assert_eq!((s.first, s.last, s.time_pos, s.time_diff), (2, 2, 2000, 0));
}

#[test]
fn objects_found_by_name() {
    let a = names(&["cube", "sphere", "cube"]);
    let b = names(&["sphere"]);
    assert_eq!(find_name(&a, "cube"), Some(0));
    assert_eq!(find_name(&a, "sphere"), Some(1));
    assert_eq!(find_name(&a, "plane"), None);
    assert_eq!(object_entries(&a, &b, "sphere"), Some((1, 0)));
    assert_eq!(object_entries(&a, &b, "cube"), None);
}

#[test]
fn light_types_by_name() {
    assert_eq!(light_type_from_name("point"), LightType::Point);
    assert_eq!(light_type_from_name("directional"), LightType::Directional);
    assert_eq!(light_type_from_name("spot"), LightType::Spot);
    assert_eq!(light_type_from_name("area"), LightType::Point);
}

#[test]
fn scene_file_kinds_by_extension() {
    assert_eq!(scene_file_kind("scene/a.json"), SceneFileKind::Json);
    assert_eq!(scene_file_kind("scene/b.gltf"), SceneFileKind::Gltf);
    assert_eq!(scene_file_kind("b.glb"), SceneFileKind::Gltf);
    assert_eq!(scene_file_kind("models/c.obj"), SceneFileKind::Wavefront);
    assert_eq!(scene_file_kind("archive.tar.gz"), SceneFileKind::Unknown);
    assert_eq!(scene_file_kind("noextension"), SceneFileKind::Unknown);
    assert_eq!(scene_file_kind(".json"), SceneFileKind::Unknown);
    assert_eq!(file_kind_of_extension(Some("obj")), SceneFileKind::Wavefront);
    assert_eq!(file_kind_of_extension(None), SceneFileKind::Unknown);
}

#[test]
fn ids_are_handed_out_in_order() {
    let mut s = Scene::new();
    assert_eq!(s.add_item("a".to_string()), 1);
    assert_eq!(s.add_item("b".to_string()), 2);
    assert_eq!(s.get_next_id(), 3);
    assert_eq!(s.add_item("a".to_string()), 4);
    let ids: Vec<u32> = s.items.iter().map(|it| it.id).collect();
    assert_eq!(ids, vec![1, 2, 4]);
    assert!(s.items.iter().all(|it| it.visible));
    s.clear();
    assert_eq!(s.item_id, 0);
    assert!(s.items.is_empty());
    assert_eq!(s.add_item("c".to_string()), 1);
}

#[test]
fn items_found_by_name() {
    let mut s = Scene::new();
    s.add_item("unknown".to_string());
    s.add_item("floor".to_string());
    s.add_item("unknown".to_string());
    assert_eq!(s.get_by_name("unknown"), Some(0));
    assert_eq!(s.get_by_name("floor"), Some(1));
    assert_eq!(s.get_by_name("wall"), None);
    assert_eq!(s.get_vec_by_name("unknown"), vec![0, 2]);
    assert!(s.get_vec_by_name("wall").is_empty());
}

#[test]
fn raytracing_starts_once_after_loading() {
    let mut state = SceneLoadType::Loading;
    let mut start = true;
    let step = raytracing_init_step(&mut state, &mut start, 3);
    assert!(!step.init_raytracing && !step.restart);
    assert_eq!(state, SceneLoadType::Loading);
    state = SceneLoadType::RaytracingInitNeeded;
    let step = raytracing_init_step(&mut state, &mut start, 3);
    assert!(step.init_raytracing && step.restart);
    assert_eq!(state, SceneLoadType::Complete);
    assert!(!start);
    let mut state = SceneLoadType::RaytracingInitNeeded;
    let mut start = true;
    let step = raytracing_init_step(&mut state, &mut start, 0);
    assert!(step.init_raytracing && !step.restart);
    assert!(start);
}

#[test]
fn keyframe_lookup_that_cannot_work_out() {
    assert!(try_keyframes_for_timestamp(&vec![], 10).is_none());
    assert!(try_keyframes_for_timestamp(&vec![100, 200], 50).is_none());
    let s = try_keyframes_for_timestamp(&vec![200, 100], 150).unwrap();
    assert_eq!((s.first, s.last, s.time_pos, s.time_diff), (1, 1, 50, 0));
    let s = try_keyframes_for_timestamp(&vec![0, 500, 100], 600).unwrap();
    assert_eq!((s.first, s.last, s.time_pos, s.time_diff), (2, 2, 500, 0));
    let s = try_keyframes_for_timestamp(&vec![0, 300, 100], 50).unwrap();
    assert_eq!((s.first, s.last, s.time_pos, s.time_diff), (0, 1, 50, 300));
}

#[test]
fn object_kinds_and_texture_keys() {
    assert_eq!(object_kind_from_name("sphere"), ObjectKind::Sphere);
    assert_eq!(object_kind_from_name("plane"), ObjectKind::Plane);
    assert_eq!(object_kind_from_name("wavefront"), ObjectKind::Wavefront);
    assert_eq!(object_kind_from_name("json"), ObjectKind::Json);
    assert_eq!(object_kind_from_name("gltf"), ObjectKind::Gltf);
    assert_eq!(object_kind_from_name("cube"), ObjectKind::Other);
    assert_eq!(texture_type_from_key("base"), Some(TextureType::Base));
    assert_eq!(texture_type_from_key("ambient"), Some(TextureType::AmbientEmissive));
    assert_eq!(texture_type_from_key("ambient_occlusion"), Some(TextureType::AmbientOcclusion));
    assert_eq!(texture_type_from_key("reflectivity"), None);
}

#[test]
fn bare_file_names_by_last_extension() {
    assert_eq!(scene_file_kind("scene.backup.json"), SceneFileKind::Json);
    assert_eq!(scene_file_kind("model.obj.gltf"), SceneFileKind::Gltf);
    assert_eq!(scene_file_kind("model.json.txt"), SceneFileKind::Unknown);
    assert_eq!(scene_file_kind("trailing."), SceneFileKind::Unknown);
}

#[test]
fn scene_paths_with_directories_by_extension() {
    assert_eq!(scene_file_kind("/home/user/scene/helmet.json"), SceneFileKind::Json);
    assert_eq!(scene_file_kind("scene/models/x/x.obj"), SceneFileKind::Wavefront);
    assert_eq!(scene_file_kind("./scene/room.v2.glb"), SceneFileKind::Gltf);
    assert_eq!(scene_file_kind("scene.d/readme"), SceneFileKind::Unknown);
}

#[test]
fn textures_next_to_their_material_file() {
    let s = Scene::new();
    let sep = std::path::MAIN_SEPARATOR.to_string();
    assert_eq!(s.get_texture_path(&"wood.png".to_string(), "room.mtl"), "wood.png");
    assert_eq!(
        s.get_texture_path(&"wood.png".to_string(), "models/room/room.mtl"),
        format!("models/room{}wood.png", sep)
    );
    assert_eq!(
        s.get_texture_path(&"/textures/wood.png".to_string(), "models/room/room.mtl"),
        "/textures/wood.png"
    );
}

#[test]
fn a_batch_of_loads_keeps_ids_increasing() {
    let mut s = Scene::new();
    s.add_item("floor".to_string());
    s.get_next_id();
    let before: Vec<u32> = s.items.iter().map(|it| it.id).collect();
    let last = s.item_id;
    for n in ["a", "b", "c"] {
        s.add_item(n.to_string());
    }
    assert_eq!(s.item_id, last + 3);
    let ids: Vec<u32> = s.items.iter().map(|it| it.id).collect();
    assert_eq!(&ids[..before.len()], &before[..]);
    assert_eq!(ids, vec![1, 3, 4, 5]);
    let names: Vec<&str> = s.items.iter().map(|it| it.name.as_str()).collect();
    assert_eq!(names, vec!["floor", "a", "b", "c"]);
    assert!(ids.windows(2).all(|w| w[0] < w[1]));
}

#[test]
fn textures_in_subdirectories_and_rooted_textures() {
    let s = Scene::new();
    let sep = std::path::MAIN_SEPARATOR.to_string();
    assert_eq!(
        s.get_texture_path(&"tex/a.png".to_string(), "models/x/x.obj"),
        format!("models/x{}tex/a.png", sep)
    );
    assert_eq!(s.get_texture_path(&"tex/a.png".to_string(), "x.obj"), "tex/a.png");
    assert_eq!(s.get_texture_path(&"/abs/a.png".to_string(), "models/x/x.obj"), "/abs/a.png");
    assert_eq!(s.get_texture_path(&"/abs/a.png".to_string(), "x.obj"), "/abs/a.png");
    assert_eq!(s.get_texture_path(&"a.png".to_string(), "x.obj"), "a.png");
}

#[test]
fn hidden_file_names_with_an_extension() {
    assert_eq!(scene_file_kind(".a.json"), SceneFileKind::Json);
    assert_eq!(scene_file_kind("scene/.room.obj"), SceneFileKind::Wavefront);
    assert_eq!(scene_file_kind("scene/.json"), SceneFileKind::Unknown);
}

#[test]
fn loads_into_a_register_with_unordered_ids() {
    let mut s = Scene::new();
    s.add_item("a".to_string());
    s.add_item("b".to_string());
    s.add_item("c".to_string());
    s.items.swap(0, 2);
    let last = s.item_id;
    let first = s.add_item("d".to_string());
    let second = s.add_item("e".to_string());
    assert!(last < first && first < second && second == s.item_id);
    let ids: Vec<u32> = s.items.iter().map(|it| it.id).collect();
    assert_eq!(ids, vec![3, 2, 1, 4, 5]);
    assert!(ids.iter().all(|&id| id <= s.item_id));
}
