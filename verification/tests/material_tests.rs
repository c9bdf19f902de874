use rustray::config::RaytracingConfig;
use rustray::material::{color_texture, LightningColorType, Material, TextureSize, TextureType};

const ALL: [TextureType; 8] = [
    TextureType::Base,
    TextureType::AmbientEmissive,
    TextureType::Specular,
    TextureType::Normal,
    TextureType::Alpha,
    TextureType::Roughness,
    TextureType::AmbientOcclusion,
    TextureType::Reflectivity,
];

#[test]
fn new_material_has_no_texture() {
    let m = Material::new();
    assert!(!m.has_any_texture());
    for t in ALL {
        assert!(!m.has_texture(t));
        assert_eq!(m.texture_dimension(t), TextureSize { width: 0, height: 0 });
    }
    assert!(m.cast_shadow && m.receive_shadow && m.monte_carlo && m.smooth_shading);
    assert!(!m.reflection_only);
    assert!(m.backface_cullig);
}

#[test]
fn loading_and_removing_touch_one_slot() {
    for t in ALL {
        let mut m = Material::new();
        m.load_texture_buffer(t, 64, 32);
        assert!(m.has_texture(t));
        assert!(m.has_any_texture());
        assert_eq!(m.texture_dimension(t), TextureSize { width: 64, height: 32 });
        for u in ALL {
            if u != t {
                assert!(!m.has_texture(u));
            }
        }
        m.remove_texture(t);
        assert!(!m.has_texture(t));
        assert!(!m.has_any_texture());
    }
}

#[test]
fn diff_takes_over_set_slots_and_switches() {
    let mut base = Material::new();
    base.load_texture_buffer(TextureType::Normal, 8, 8);
    let mut other = Material::new();
    other.load_texture_buffer(TextureType::Base, 16, 16);
    other.cast_shadow = false;
    other.reflection_only = true;
    base.apply_diff(&other);
    assert_eq!(base.texture_dimension(TextureType::Base), TextureSize { width: 16, height: 16 });
    assert_eq!(base.texture_dimension(TextureType::Normal), TextureSize { width: 8, height: 8 });
    assert!(!base.cast_shadow);
    assert!(base.reflection_only);
    let once = base;
    base.apply_diff(&other);
    assert_eq!(base, once);
    base.apply_diff(&Material::new());
    assert_eq!(base, once);
}

#[test]
fn lighting_terms_use_their_textures() {
    assert_eq!(color_texture(LightningColorType::Ambient), TextureType::AmbientEmissive);
    assert_eq!(color_texture(LightningColorType::Base), TextureType::Base);
    assert_eq!(color_texture(LightningColorType::Specular), TextureType::Specular);
}

#[test]
fn config_defaults_and_apply() {
    let d = RaytracingConfig::new();
    assert_eq!(d, RaytracingConfig { monte_carlo: false, samples: 1, max_recursion: 6, gamma_correction: false });
    let mut c = RaytracingConfig { monte_carlo: true, samples: 8, max_recursion: 3, gamma_correction: true };
    let before = c;
    c.apply(RaytracingConfig::new());
    assert_eq!(c, before);
    let n = RaytracingConfig { monte_carlo: false, samples: 32, max_recursion: 6, gamma_correction: false };
    c.apply(n);
    assert_eq!(c, RaytracingConfig { monte_carlo: true, samples: 32, max_recursion: 3, gamma_correction: true });
    let mut fresh = RaytracingConfig::new();
    fresh.apply(n);
    assert_eq!(fresh, n);
}

#[test]
fn config_read_from_scene_file() {
    let mut c = RaytracingConfig::new();
    c.read_json(Some(true), Some(70000), None, Some(true));
    assert_eq!(c, RaytracingConfig { monte_carlo: true, samples: 70000u64 as u16, max_recursion: 6, gamma_correction: true });
    assert_eq!(c.samples, 4464);
    c.read_json(None, None, Some(10), None);
    assert_eq!(c.max_recursion, 10);
    assert!(c.monte_carlo);
}
