//! The parts of a material that are not colours or factors: which texture
//! slots hold an image and how large it is, and the switches that shape
//! shading. The images themselves, and every floating-point property, live
//! with the renderer.

use vstd::prelude::*;
use crate::text::str_eq;

verus! {

/// The texture slots of a material.
#[derive(PartialEq, Eq, Structural, Clone, Copy, Debug)]
pub enum TextureType {
    Base,
    AmbientEmissive,
    Specular,
    Normal,
    Alpha,
    Roughness,
    AmbientOcclusion,
    Reflectivity,
}

/// Which colour of a material a lighting term uses.
#[derive(PartialEq, Eq, Structural, Clone, Copy, Debug)]
pub enum LightningColorType {
    Ambient,
    Base,
    Specular,
}

/// The texture that tints a lighting term's colour: the ambient term uses
/// the ambient/emissive texture, the others the texture of their name.
pub fn color_texture(color_type: LightningColorType) -> (t: TextureType)
    ensures
        color_type == LightningColorType::Ambient ==> t == TextureType::AmbientEmissive,
        color_type == LightningColorType::Base ==> t == TextureType::Base,
        color_type == LightningColorType::Specular ==> t == TextureType::Specular,
{
    match color_type {
        LightningColorType::Ambient => TextureType::AmbientEmissive,
        LightningColorType::Base => TextureType::Base,
        LightningColorType::Specular => TextureType::Specular,
    }
}

/// Width and height of the image in a texture slot; 0 x 0 when the slot is
/// empty.
#[derive(PartialEq, Eq, Structural, Clone, Copy, Debug)]
pub struct TextureSize {
    pub width: u32,
    pub height: u32,
}

/// An empty slot.
pub open spec fn no_texture() -> TextureSize {
    TextureSize { width: 0, height: 0 }
}

/// The texture slots and switches of a material.
#[derive(PartialEq, Eq, Structural, Clone, Copy, Debug)]
pub struct Material {
    pub texture_ambient: TextureSize,
    pub texture_base: TextureSize,
    pub texture_specular: TextureSize,
    pub texture_normal: TextureSize,
    pub texture_alpha: TextureSize,
    pub texture_roughness: TextureSize,
    pub texture_ambient_occlusion: TextureSize,
    pub texture_reflectivity: TextureSize,
    pub cast_shadow: bool,
    pub receive_shadow: bool,
    pub monte_carlo: bool,
    pub smooth_shading: bool,
    pub reflection_only: bool,
    pub backface_cullig: bool,
}

/// A new material: no textures; casts and receives shadows, takes part in
/// Monte Carlo sampling, smooth shading and back-face culling on, not
/// reflection-only.
pub open spec fn default_material() -> Material {
    Material {
        texture_ambient: no_texture(),
        texture_base: no_texture(),
        texture_specular: no_texture(),
        texture_normal: no_texture(),
        texture_alpha: no_texture(),
        texture_roughness: no_texture(),
        texture_ambient_occlusion: no_texture(),
        texture_reflectivity: no_texture(),
        cast_shadow: true,
        receive_shadow: true,
        monte_carlo: true,
        smooth_shading: true,
        reflection_only: false,
        backface_cullig: true,
    }
}

/// The slot `t` of `m`.
pub open spec fn slot(m: Material, t: TextureType) -> TextureSize {
    match t {
        TextureType::Base => m.texture_base,
        TextureType::AmbientEmissive => m.texture_ambient,
        TextureType::Specular => m.texture_specular,
        TextureType::Normal => m.texture_normal,
        TextureType::Alpha => m.texture_alpha,
        TextureType::Roughness => m.texture_roughness,
        TextureType::AmbientOcclusion => m.texture_ambient_occlusion,
        TextureType::Reflectivity => m.texture_reflectivity,
    }
}

/// `m` with slot `t` set to `size`.
pub open spec fn with_slot(m: Material, t: TextureType, size: TextureSize) -> Material {
    match t {
        TextureType::Base => Material { texture_base: size, ..m },
        TextureType::AmbientEmissive => Material { texture_ambient: size, ..m },
        TextureType::Specular => Material { texture_specular: size, ..m },
        TextureType::Normal => Material { texture_normal: size, ..m },
        TextureType::Alpha => Material { texture_alpha: size, ..m },
        TextureType::Roughness => Material { texture_roughness: size, ..m },
        TextureType::AmbientOcclusion => Material { texture_ambient_occlusion: size, ..m },
        TextureType::Reflectivity => Material { texture_reflectivity: size, ..m },
    }
}

/// Whether slot `t` holds an image: one at least one pixel wide.
pub open spec fn has_texture_spec(m: Material, t: TextureType) -> bool {
    slot(m, t).width > 0
}

/// Whether any slot holds an image.
pub open spec fn has_any_texture_spec(m: Material) -> bool {
    exists|t: TextureType| has_texture_spec(m, t)
}

/// A slot of `new_mat` that holds an image replaces the one of `m`.
pub open spec fn diff_slot(mine: TextureSize, theirs: TextureSize) -> TextureSize {
    if theirs != no_texture() {
        theirs
    } else {
        mine
    }
}

/// A switch of `new_mat` set away from its default replaces the one of `m`.
pub open spec fn diff_flag(mine: bool, theirs: bool, default: bool) -> bool {
    if theirs != default {
        theirs
    } else {
        mine
    }
}

/// `m` with everything that `new_mat` sets away from a new material's
/// defaults taken over.
pub open spec fn apply_diff_spec(m: Material, n: Material) -> Material {
    let d = default_material();
    Material {
        texture_ambient: diff_slot(m.texture_ambient, n.texture_ambient),
        texture_base: diff_slot(m.texture_base, n.texture_base),
        texture_specular: diff_slot(m.texture_specular, n.texture_specular),
        texture_normal: diff_slot(m.texture_normal, n.texture_normal),
        texture_alpha: diff_slot(m.texture_alpha, n.texture_alpha),
        texture_roughness: diff_slot(m.texture_roughness, n.texture_roughness),
        texture_ambient_occlusion: diff_slot(m.texture_ambient_occlusion, n.texture_ambient_occlusion),
        texture_reflectivity: diff_slot(m.texture_reflectivity, n.texture_reflectivity),
        cast_shadow: diff_flag(m.cast_shadow, n.cast_shadow, d.cast_shadow),
        receive_shadow: diff_flag(m.receive_shadow, n.receive_shadow, d.receive_shadow),
        monte_carlo: diff_flag(m.monte_carlo, n.monte_carlo, d.monte_carlo),
        smooth_shading: diff_flag(m.smooth_shading, n.smooth_shading, d.smooth_shading),
        reflection_only: diff_flag(m.reflection_only, n.reflection_only, d.reflection_only),
        backface_cullig: diff_flag(m.backface_cullig, n.backface_cullig, d.backface_cullig),
    }
}

fn take_slot(mine: TextureSize, theirs: TextureSize) -> (r: TextureSize)
    ensures
        r == diff_slot(mine, theirs),
{
    if theirs.width != 0 || theirs.height != 0 {
        theirs
    } else {
        mine
    }
}

impl Material {
    /// A material with the defaults of `default_material`.
    pub fn new() -> (m: Material)
        ensures
            m == default_material(),
    {
        let empty = TextureSize { width: 0, height: 0 };
        Material {
            texture_ambient: empty,
            texture_base: empty,
            texture_specular: empty,
            texture_normal: empty,
            texture_alpha: empty,
            texture_roughness: empty,
            texture_ambient_occlusion: empty,
            texture_reflectivity: empty,
            cast_shadow: true,
            receive_shadow: true,
            monte_carlo: true,
            smooth_shading: true,
            reflection_only: false,
            backface_cullig: true,
        }
    }

    /// Takes over from `new_mat` every slot that holds an image and every
    /// switch that differs from a new material's.
    pub fn apply_diff(&mut self, new_mat: &Material)
        ensures
            *final(self) == apply_diff_spec(*old(self), *new_mat),
    {
        let d = Material::new();
        self.texture_ambient = take_slot(self.texture_ambient, new_mat.texture_ambient);
        self.texture_base = take_slot(self.texture_base, new_mat.texture_base);
        self.texture_specular = take_slot(self.texture_specular, new_mat.texture_specular);
        self.texture_normal = take_slot(self.texture_normal, new_mat.texture_normal);
        self.texture_alpha = take_slot(self.texture_alpha, new_mat.texture_alpha);
        self.texture_roughness = take_slot(self.texture_roughness, new_mat.texture_roughness);
        self.texture_ambient_occlusion = take_slot(
            self.texture_ambient_occlusion,
            new_mat.texture_ambient_occlusion,
        );
        self.texture_reflectivity = take_slot(
            self.texture_reflectivity,
            new_mat.texture_reflectivity,
        );
        if d.cast_shadow != new_mat.cast_shadow {
            self.cast_shadow = new_mat.cast_shadow;
        }
        if d.receive_shadow != new_mat.receive_shadow {
            self.receive_shadow = new_mat.receive_shadow;
        }
        if d.monte_carlo != new_mat.monte_carlo {
            self.monte_carlo = new_mat.monte_carlo;
        }
        if d.smooth_shading != new_mat.smooth_shading {
            self.smooth_shading = new_mat.smooth_shading;
        }
        if d.reflection_only != new_mat.reflection_only {
            self.reflection_only = new_mat.reflection_only;
        }
        if d.backface_cullig != new_mat.backface_cullig {
            self.backface_cullig = new_mat.backface_cullig;
        }
    }

    /// Empties slot `t`; nothing else changes.
    pub fn remove_texture(&mut self, tex_type: TextureType)
        ensures
            *final(self) == with_slot(*old(self), tex_type, no_texture()),
    {
        self.load_texture_buffer(tex_type, 0, 0);
    }

    /// Puts an image of `width` x `height` into slot `t`; nothing else
    /// changes.
    pub fn load_texture_buffer(&mut self, tex_type: TextureType, width: u32, height: u32)
        ensures
            *final(self) == with_slot(*old(self), tex_type, TextureSize { width, height }),
    {
        let size = TextureSize { width, height };
        match tex_type {
            TextureType::Base => {
                self.texture_base = size;
            },
            TextureType::AmbientEmissive => {
                self.texture_ambient = size;
            },
            TextureType::Specular => {
                self.texture_specular = size;
            },
            TextureType::Normal => {
                self.texture_normal = size;
            },
            TextureType::Alpha => {
                self.texture_alpha = size;
            },
            TextureType::Roughness => {
                self.texture_roughness = size;
            },
            TextureType::AmbientOcclusion => {
                self.texture_ambient_occlusion = size;
            },
            TextureType::Reflectivity => {
                self.texture_reflectivity = size;
            },
        }
    }

    /// Whether slot `t` holds an image.
    pub fn has_texture(&self, tex_type: TextureType) -> (b: bool)
        ensures
            b == has_texture_spec(*self, tex_type),
    {
        self.texture_dimension(tex_type).width > 0
    }

    /// Whether any slot holds an image.
    pub fn has_any_texture(&self) -> (b: bool)
        ensures
            b == has_any_texture_spec(*self),
    {
        let b = self.texture_base.width > 0 || self.texture_ambient.width > 0
            || self.texture_specular.width > 0 || self.texture_normal.width > 0
            || self.texture_alpha.width > 0 || self.texture_roughness.width > 0
            || self.texture_ambient_occlusion.width > 0 || self.texture_reflectivity.width > 0;
        proof {
            if b {
                if self.texture_base.width > 0 {
                    assert(has_texture_spec(*self, TextureType::Base));
                } else if self.texture_ambient.width > 0 {
                    assert(has_texture_spec(*self, TextureType::AmbientEmissive));
                } else if self.texture_specular.width > 0 {
                    assert(has_texture_spec(*self, TextureType::Specular));
                } else if self.texture_normal.width > 0 {
                    assert(has_texture_spec(*self, TextureType::Normal));
                } else if self.texture_alpha.width > 0 {
                    assert(has_texture_spec(*self, TextureType::Alpha));
                } else if self.texture_roughness.width > 0 {
                    assert(has_texture_spec(*self, TextureType::Roughness));
                } else if self.texture_ambient_occlusion.width > 0 {
                    assert(has_texture_spec(*self, TextureType::AmbientOcclusion));
                } else {
                    assert(has_texture_spec(*self, TextureType::Reflectivity));
                }
            } else {
                assert forall|t: TextureType| !has_texture_spec(*self, t) by {
                    match t {
                        TextureType::Base => {},
                        TextureType::AmbientEmissive => {},
                        TextureType::Specular => {},
                        TextureType::Normal => {},
                        TextureType::Alpha => {},
                        TextureType::Roughness => {},
                        TextureType::AmbientOcclusion => {},
                        TextureType::Reflectivity => {},
                    }
                }
            }
        }
        b
    }

    /// Width and height of the image in slot `t`.
    pub fn texture_dimension(&self, tex_type: TextureType) -> (size: TextureSize)
        ensures
            size == slot(*self, tex_type),
    {
        match tex_type {
            TextureType::Base => self.texture_base,
            TextureType::AmbientEmissive => self.texture_ambient,
            TextureType::Specular => self.texture_specular,
            TextureType::Normal => self.texture_normal,
            TextureType::Alpha => self.texture_alpha,
            TextureType::Roughness => self.texture_roughness,
            TextureType::AmbientOcclusion => self.texture_ambient_occlusion,
            TextureType::Reflectivity => self.texture_reflectivity,
        }
    }
}

/// Setting a slot is seen in that slot and in no other: loading then
/// reading gives the loaded size, removing leaves no texture there, and
/// every other slot keeps what it had.
pub proof fn lemma_slot_update(m: Material, t: TextureType, u: TextureType, size: TextureSize)
    ensures
        slot(with_slot(m, t, size), t) == size,
        u != t ==> slot(with_slot(m, t, size), u) == slot(m, u),
        !has_texture_spec(with_slot(m, t, no_texture()), t),
        has_texture_spec(with_slot(m, t, size), t) == (size.width > 0),
{
}

/// A slot that holds an image makes the material textured; a new material
/// has no texture.
pub proof fn lemma_any_texture(m: Material, t: TextureType)
    ensures
        has_texture_spec(m, t) ==> has_any_texture_spec(m),
        !has_any_texture_spec(default_material()),
{
    assert forall|u: TextureType| !has_texture_spec(default_material(), u) by {
        match u {
            TextureType::Base => {},
            TextureType::AmbientEmissive => {},
            TextureType::Specular => {},
            TextureType::Normal => {},
            TextureType::Alpha => {},
            TextureType::Roughness => {},
            TextureType::AmbientOcclusion => {},
            TextureType::Reflectivity => {},
        }
    }
}

/// Taking over the settings of a new material changes nothing, and taking
/// over the same material twice is the same as once.
pub proof fn lemma_apply_diff_laws(m: Material, n: Material)
    ensures
        apply_diff_spec(m, default_material()) == m,
        apply_diff_spec(apply_diff_spec(m, n), n) == apply_diff_spec(m, n),
{
}

/// How a texel of a glTF material's texture fills slot `t`, from its
/// channels `p` (red, green, blue, alpha; a grey texture gives its value as
/// red): base colour as it is, normal and emissive maps opaque, roughness
/// and metallic values spread over all four channels. Slots that glTF does
/// not fill this way get `None` (occlusion is scaled by a factor, and
/// specular and alpha have no glTF texture).
pub fn gltf_texel(t: TextureType, p: [u8; 4]) -> (r: Option<[u8; 4]>)
    ensures
        t == TextureType::Base ==> r == Some(p),
        t == TextureType::Normal || t == TextureType::AmbientEmissive ==> r == Some(
            [p[0], p[1], p[2], 255u8],
        ),
        t == TextureType::Roughness || t == TextureType::Reflectivity ==> r == Some(
            [p[0], p[0], p[0], p[0]],
        ),
        t == TextureType::AmbientOcclusion || t == TextureType::Specular || t == TextureType::Alpha
            ==> r is None,
{
    match t {
        TextureType::Base => Some(p),
        TextureType::Normal => Some([p[0], p[1], p[2], 255]),
        TextureType::AmbientEmissive => Some([p[0], p[1], p[2], 255]),
        TextureType::Roughness => Some([p[0], p[0], p[0], p[0]]),
        TextureType::Reflectivity => Some([p[0], p[0], p[0], p[0]]),
        _ => None,
    }
}

/// The slot that a key of a JSON scene object's `texture` section fills:
/// `base`, `ambient`, `specular`, `normal`, `alpha`, `roughness`,
/// `ambient_occlusion`; other keys fill none.
pub open spec fn texture_key_spec(key: Seq<char>) -> Option<TextureType> {
    if key == "base"@ {
        Some(TextureType::Base)
    } else if key == "ambient"@ {
        Some(TextureType::AmbientEmissive)
    } else if key == "specular"@ {
        Some(TextureType::Specular)
    } else if key == "normal"@ {
        Some(TextureType::Normal)
    } else if key == "alpha"@ {
        Some(TextureType::Alpha)
    } else if key == "roughness"@ {
        Some(TextureType::Roughness)
    } else if key == "ambient_occlusion"@ {
        Some(TextureType::AmbientOcclusion)
    } else {
        None
    }
}

/// The slot a texture key fills (see `texture_key_spec`).
pub fn texture_type_from_key(key: &str) -> (t: Option<TextureType>)
    ensures
        t == texture_key_spec(key@),
{
    if str_eq(key, "base") {
        Some(TextureType::Base)
    } else if str_eq(key, "ambient") {
        Some(TextureType::AmbientEmissive)
    } else if str_eq(key, "specular") {
        Some(TextureType::Specular)
    } else if str_eq(key, "normal") {
        Some(TextureType::Normal)
    } else if str_eq(key, "alpha") {
        Some(TextureType::Alpha)
    } else if str_eq(key, "roughness") {
        Some(TextureType::Roughness)
    } else if str_eq(key, "ambient_occlusion") {
        Some(TextureType::AmbientOcclusion)
    } else {
        None
    }
}

/// Each key of a JSON scene object's `texture` section fills its own slot:
/// `base` the base slot, `ambient` the ambient/emissive slot, `specular`,
/// `normal`, `alpha`, `roughness` and `ambient_occlusion` theirs; the
/// reflectivity slot has no key, and no two keys fill the same slot.
pub proof fn lemma_texture_keys(k1: Seq<char>, k2: Seq<char>)
    ensures
        texture_key_spec("base"@) == Some(TextureType::Base),
        texture_key_spec("ambient"@) == Some(TextureType::AmbientEmissive),
        texture_key_spec("specular"@) == Some(TextureType::Specular),
        texture_key_spec("normal"@) == Some(TextureType::Normal),
        texture_key_spec("alpha"@) == Some(TextureType::Alpha),
        texture_key_spec("roughness"@) == Some(TextureType::Roughness),
        texture_key_spec("ambient_occlusion"@) == Some(TextureType::AmbientOcclusion),
        texture_key_spec(k1) != Some(TextureType::Reflectivity),
        texture_key_spec(k1) is Some && texture_key_spec(k1) == texture_key_spec(k2) ==> k1 == k2,
{
    reveal_strlit("base");
    reveal_strlit("ambient");
    reveal_strlit("specular");
    reveal_strlit("normal");
    reveal_strlit("alpha");
    reveal_strlit("roughness");
    reveal_strlit("ambient_occlusion");
    assert("base"@.len() == 4 && "ambient"@.len() == 7 && "specular"@.len() == 8);
    assert("normal"@.len() == 6 && "alpha"@.len() == 5 && "roughness"@.len() == 9);
    assert("ambient_occlusion"@.len() == 17);
    assert("alpha"@[0] != "normal"@[0]);
}

/// Taking over a material: in every slot where `n` holds an image (the slot
/// is not empty), the result holds `n`'s image, whatever `m` held there;
/// where `n`'s slot is empty, `m`'s image stays.
pub proof fn lemma_apply_diff_slots(m: Material, n: Material, t: TextureType)
    ensures
        slot(n, t) != (TextureSize { width: 0, height: 0 }) ==> slot(apply_diff_spec(m, n), t)
            == slot(n, t),
        slot(n, t) == (TextureSize { width: 0, height: 0 }) ==> slot(apply_diff_spec(m, n), t)
            == slot(m, t),
{
}

} // verus!
