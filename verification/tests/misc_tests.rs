use rustray::helper::{blank_canvas, paint_random_pixel, rand, Pixel};
use rustray::mesh::{face_corners, face_slot, fresh_index_lists, group_triangles, texcoords_match};
use rustray::material::{gltf_texel, TextureType};
use rustray::output::{animation_names, frame_header, frames_shown, image_path, output_dir, stamp, OutputTime};

#[test]
fn random_numbers_stay_in_range() {
    for _ in 0..1000 {
        let r = rand(3, 7);
        assert!((3..7).contains(&r));
    }
    assert_eq!(rand(5, 6), 5);
    let mut seen = [false; 4];
    for _ in 0..1000 {
        seen[rand(0, 4) as usize] = true;
    }
    assert!(seen.iter().all(|&s| s));
}

#[test]
fn canvas_pixels() {
    let mut px = blank_canvas(4, 3);
    assert_eq!(px.len(), 12);
    assert!(px.iter().all(|p| *p == Pixel { r: 0, g: 0, b: 0, x: 0, y: 0 }));
    for _ in 0..50 {
        let p = paint_random_pixel(&mut px, 4, 3);
        assert!(p.x >= 0 && p.x < 4 && p.y >= 0 && p.y < 3);
        assert!(p.r < 255 && p.g < 255 && p.b < 255);
        assert_eq!(px[(p.x + 4 * p.y) as usize], p);
    }
}

#[test]
fn triangles_from_flat_indices() {
    assert_eq!(group_triangles(&vec![0, 1, 2, 0, 2, 3]), vec![[0, 1, 2], [0, 2, 3]]);
    assert_eq!(group_triangles(&vec![0, 1, 2, 9]), vec![[0, 1, 2]]);
    assert!(group_triangles(&vec![]).is_empty());
}

#[test]
fn texcoord_index_counts() {
    assert!(texcoords_match(6, 0));
    assert!(texcoords_match(6, 6));
    assert!(!texcoords_match(6, 3));
}

#[test]
fn hit_faces() {
    assert_eq!(face_slot(5, 2), 1);
    assert_eq!(face_slot(1, 2), 1);
    let idx = vec![[0, 1, 2], [0, 2, 3]];
    let uv = vec![[4, 5, 6], [4, 6, 7]];
    assert_eq!(face_corners(3, &idx, &uv), ([0, 2, 3], [4, 6, 7]));
    assert_eq!(face_corners(0, &idx, &uv), ([0, 1, 2], [4, 5, 6]));
}

#[test]
fn output_file_names() {
    let t = OutputTime { year: 2023, month: 4, day: 9, hour: 7, minute: 5, second: 30 };
    assert_eq!(stamp(t), "2023-4-9_7-5-30");
    assert_eq!(output_dir(true, true), "data/output/animation");
    assert_eq!(output_dir(true, false), "data/output");
    assert_eq!(output_dir(false, true), "data/output");
    assert_eq!(image_path("data/output", t, 3, None), "data/output/output_2023-4-9_7-5-30_00000003.png");
    assert_eq!(
        image_path("data/output", t, 12, Some("post")),
        "data/output/output_2023-4-9_7-5-30_00000012_post.png"
    );
    let (pattern, base) = animation_names(t);
    assert_eq!(pattern, "data/output/animation/output_2023-4-9_7-5-30_%08d.png");
    assert_eq!(base, "data/output/animation/output_2023-4-9_7-5-30");
}

#[test]
fn frame_headers() {
    assert_eq!(frames_shown(false, 40), 1);
    assert_eq!(frames_shown(true, 40), 40);
    let (head, rule) = frame_header(0, 1);
    assert_eq!(head, "frame: 1/1");
    assert_eq!(rule, "==========");
    let (head, rule) = frame_header(9, 250);
    assert_eq!(head, "frame: 10/250");
    assert_eq!(rule.len(), head.len());
}

#[test]
fn readme_rendering_file_name() {
    let t = OutputTime { year: 2022, month: 5, day: 16, hour: 14, minute: 48, second: 33 };
    assert_eq!(
        image_path("data/renderings", t, 0, None),
        "data/renderings/output_2022-5-16_14-48-33_00000000.png"
    );
    let t = OutputTime { year: 2022, month: 5, day: 16, hour: 15, minute: 41, second: 8 };
    assert_eq!(
        image_path("data/renderings", t, 0, None),
        "data/renderings/output_2022-5-16_15-41-8_00000000.png"
    );
}

#[test]
fn fresh_corner_indices() {
    let (i, n, u) = fresh_index_lists(2, true, false);
    assert_eq!(i, vec![[0, 1, 2], [3, 4, 5]]);
    assert_eq!(n, i);
    assert!(u.is_empty());
    let (i, n, u) = fresh_index_lists(0, true, true);
    assert!(i.is_empty() && n.is_empty() && u.is_empty());
    let (_, n, u) = fresh_index_lists(1, false, true);
    assert!(n.is_empty());
    assert_eq!(u, vec![[0, 1, 2]]);
}

#[test]
fn gltf_texels_per_slot() {
    let p = [10, 20, 30, 40];
    assert_eq!(gltf_texel(TextureType::Base, p), Some(p));
    assert_eq!(gltf_texel(TextureType::Normal, p), Some([10, 20, 30, 255]));
    assert_eq!(gltf_texel(TextureType::AmbientEmissive, p), Some([10, 20, 30, 255]));
    assert_eq!(gltf_texel(TextureType::Roughness, p), Some([10, 10, 10, 10]));
    assert_eq!(gltf_texel(TextureType::Reflectivity, p), Some([10, 10, 10, 10]));
    assert_eq!(gltf_texel(TextureType::AmbientOcclusion, p), None);
    assert_eq!(gltf_texel(TextureType::Specular, p), None);
    assert_eq!(gltf_texel(TextureType::Alpha, p), None);
}
