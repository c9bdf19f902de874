//! The scene's register of items: each loaded item gets the next id, and
//! items are found again by name. Also the kinds of lights and scene files,
//! and the stages of loading a scene.

use vstd::prelude::*;
use crate::text::{str_eq, lacks};

verus! {

/// How a light shines.
#[derive(PartialEq, Eq, Structural, Clone, Copy, Debug)]
pub enum LightType {
    Directional,
    Point,
    Spot,
}

/// The light type a scene file names: `point`, `directional` or `spot`;
/// any other word gives a point light.
pub open spec fn light_type_spec(name: Seq<char>) -> LightType {
    if name == "directional"@ {
        LightType::Directional
    } else if name == "spot"@ {
        LightType::Spot
    } else {
        LightType::Point
    }
}

/// Reads the light type of a scene file (see `light_type_spec`).
pub fn light_type_from_name(name: &str) -> (t: LightType)
    ensures
        t == light_type_spec(name@),
{
    proof {
        reveal_strlit("point");
        reveal_strlit("directional");
        reveal_strlit("spot");
        assert("point"@.len() == 5 && "directional"@.len() == 11 && "spot"@.len() == 4);
    }
    if str_eq(name, "point") {
        LightType::Point
    } else if str_eq(name, "directional") {
        LightType::Directional
    } else if str_eq(name, "spot") {
        LightType::Spot
    } else {
        LightType::Point
    }
}

/// Where loading a scene stands.
#[derive(PartialEq, Eq, Structural, Clone, Copy, Debug)]
pub enum SceneLoadType {
    Loading,
    RaytracingInitNeeded,
    Complete,
}

/// What the loop does once a scene has loaded.
#[derive(Clone, Copy, Debug, PartialEq, Eq, Structural)]
pub struct InitStep {
    /// Build the ray tracer and renderer for the new scene.
    pub init_raytracing: bool,
    /// Start rendering right away.
    pub restart: bool,
}

/// The step for a scene in `state`: a loaded scene needs its ray tracer
/// and is then complete; rendering starts on its own only when that was
/// asked for at start-up and the scene has items, and only once.
pub fn raytracing_init_step(state: &mut SceneLoadType, start_after_init: &mut bool, item_count: usize) -> (step: InitStep)
    ensures
        step.init_raytracing == (*old(state) == SceneLoadType::RaytracingInitNeeded),
        step.init_raytracing ==> *final(state) == SceneLoadType::Complete,
        !step.init_raytracing ==> *final(state) == *old(state),
        step.restart == (step.init_raytracing && *old(start_after_init) && item_count > 0),
        *final(start_after_init) == (*old(start_after_init) && !step.restart),
{
    if *state == SceneLoadType::RaytracingInitNeeded {
        *state = SceneLoadType::Complete;
        let restart = *start_after_init && item_count > 0;
        if restart {
            *start_after_init = false;
        }
        InitStep { init_raytracing: true, restart }
    } else {
        InitStep { init_raytracing: false, restart: false }
    }
}

/// The kind of scene file, by extension.
#[derive(PartialEq, Eq, Structural, Clone, Copy, Debug)]
pub enum SceneFileKind {
    Json,
    Gltf,
    Wavefront,
    Unknown,
}

/// The kind of scene file that an extension names: `json`, `gltf` or
/// `glb`, `obj`; anything else, or no extension, cannot be loaded.
pub open spec fn file_kind_spec(ext: Option<Seq<char>>) -> SceneFileKind {
    match ext {
        Some(e) => if e == "json"@ {
            SceneFileKind::Json
        } else if e == "gltf"@ || e == "glb"@ {
            SceneFileKind::Gltf
        } else if e == "obj"@ {
            SceneFileKind::Wavefront
        } else {
            SceneFileKind::Unknown
        },
        None => SceneFileKind::Unknown,
    }
}

/// Whether `.` followed by `e` occurs somewhere in `path`.
pub open spec fn has_dot_part(path: Seq<char>, e: Seq<char>) -> bool {
    exists|k: int|
        0 <= k && k + e.len() + 1 <= path.len() && #[trigger] path.subrange(k, k + e.len() + 1)
            == seq!['.'] + e
}

/// The characters after the last `.` of `p` (all of `p` when it has none).
pub open spec fn after_last_dot(p: Seq<char>) -> Seq<char>
    decreases p.len(),
{
    if p.len() == 0 {
        Seq::empty()
    } else if p.last() == '.' {
        Seq::empty()
    } else {
        after_last_dot(p.drop_last()).push(p.last())
    }
}

/// Whether `p` is a file name on every platform that has an extension:
/// no `/`, `\` or `:`, not `..`, and holding a `.` after its first
/// character (a name like `.a.json` has one; `.json` has none).
pub open spec fn plain_file_name(p: Seq<char>) -> bool {
    &&& lacks(p, '/')
    &&& lacks(p, '\\')
    &&& lacks(p, ':')
    &&& p != ".."@
    &&& exists|k: int| 0 < k < p.len() && #[trigger] p[k] == '.'
}

/// The characters after the last `/` of `p` (all of `p` when it has none).
pub open spec fn after_last_slash(p: Seq<char>) -> Seq<char>
    decreases p.len(),
{
    if p.len() == 0 {
        Seq::empty()
    } else if p.last() == '/' {
        Seq::empty()
    } else {
        after_last_slash(p.drop_last()).push(p.last())
    }
}

/// The characters before the last `/` of `p` (empty when it has none).
pub open spec fn before_last_slash(p: Seq<char>) -> Seq<char>
    decreases p.len(),
{
    if p.len() == 0 {
        Seq::empty()
    } else if p.last() == '/' {
        p.drop_last()
    } else {
        before_last_slash(p.drop_last())
    }
}

/// Whether the file name of `p` is the same on every platform and is a bare
/// file name: `p` has no `\` or `:` (no Windows prefix or backslash
/// separator), does not start with `//`, and the part after its last `/` is
/// a `plain_file_name`.
pub open spec fn plain_file_path(p: Seq<char>) -> bool {
    &&& lacks(p, '\\')
    &&& lacks(p, ':')
    &&& !(p.len() >= 2 && p[0] == '/' && p[1] == '/')
    &&& plain_file_name(after_last_slash(p))
}

/// `std::path::Path::extension` of `path`, as an owned string (a `&str`
/// converts without loss). Its documentation says that an extension is the
/// part of the file name after its last `.` (none when the file name is
/// missing, holds no `.`, or starts with its only `.`). The contract states what follows from
/// that on every platform: an extension, when there is one, stands in the
/// path right after a `.` and holds no `.` itself; and for a path without
/// `\` or `:` that does not start with `//`, `/` is a separator on every
/// platform, so the file name is the part after the last `/`, and when that
/// is a bare name holding a `.` (`plain_file_path`) the extension is what
/// follows the path's last `.`. For paths with `\` or `:` which part is
/// the file name depends on the platform and is not stated.
#[verifier::external_body]
fn path_extension(path: &str) -> (ext: Option<String>)
    ensures
        ext matches Some(e) ==> has_dot_part(path@, e@) && lacks(e@, '.'),
        ext is Some || !plain_file_path(path@),
        ext matches Some(e) ==> (plain_file_path(path@) ==> e@ == after_last_dot(path@)),
{
    match std::path::Path::new(path).extension() {
        Some(e) => Some(e.to_string_lossy().into_owned()),
        None => None,
    }
}

/// The kind of a scene file given its extension (see `file_kind_spec`).
pub fn file_kind_of_extension(ext: Option<&str>) -> (k: SceneFileKind)
    ensures
        k == file_kind_spec(
            match ext {
                Some(e) => Some(e@),
                None => None,
            },
        ),
{
    match ext {
        Some(e) => if str_eq(e, "json") {
            SceneFileKind::Json
        } else if str_eq(e, "gltf") || str_eq(e, "glb") {
            SceneFileKind::Gltf
        } else if str_eq(e, "obj") {
            SceneFileKind::Wavefront
        } else {
            SceneFileKind::Unknown
        },
        None => SceneFileKind::Unknown,
    }
}

/// How to load the file at `path`, by the extension that
/// `Path::extension` finds in it.
pub fn scene_file_kind(path: &str) -> (k: SceneFileKind)
    ensures
        k is Unknown || exists|e: Seq<char>| {
            &&& has_dot_part(path@, e)
            &&& lacks(e, '.')
            &&& k == file_kind_spec(Some(e))
        },
        plain_file_path(path@) ==> k == file_kind_spec(Some(after_last_dot(path@))),
{
    let ext = path_extension(path);
    match ext {
        Some(e) => {
            let k = file_kind_of_extension(Some(e.as_str()));
            proof {
                assert(has_dot_part(path@, e@) && lacks(e@, '.') && k == file_kind_spec(Some(e@)));
            }
            k
        },
        None => SceneFileKind::Unknown,
    }
}

/// Whether `p` names something without any path syntax on any platform:
/// no `/`, `\` or `:`.
pub open spec fn bare_name(p: Seq<char>) -> bool {
    lacks(p, '/') && lacks(p, '\\') && lacks(p, ':')
}

/// Whether `n` is an ordinary path component on every platform: a
/// non-empty bare name other than `.` and `..`.
pub open spec fn normal_name(n: Seq<char>) -> bool {
    n.len() > 0 && bare_name(n) && n != "."@ && n != ".."@
}

/// Whether `d` is a directory path written the same way on every platform
/// and kept as written by `Path`: non-empty, no `\` or `:`, no doubled `/`,
/// no trailing `/`, and no `.` component.
pub open spec fn simple_dir(d: Seq<char>) -> bool {
    &&& d.len() > 0
    &&& lacks(d, '\\')
    &&& lacks(d, ':')
    &&& d.last() != '/'
    &&& forall|i: int| 0 < i < d.len() && #[trigger] d[i] == '/' ==> d[i - 1] != '/'
    &&& forall|i: int|
        0 <= i < d.len() && #[trigger] d[i] == '.' ==> !((i == 0 || d[i - 1] == '/') && (i + 1
            == d.len() || d[i + 1] == '/'))
}

/// Whether `p` is a relative path written the same way on every platform:
/// non-empty, no `\` or `:` (no Windows prefix), and not starting with
/// `/` (no root).
pub open spec fn plain_relative(p: Seq<char>) -> bool {
    &&& p.len() > 0
    &&& lacks(p, '\\')
    &&& lacks(p, ':')
    &&& p[0] != '/'
}

/// Whether `p` starts with one `/` (a root) and has no `\` or `:`, so that
/// it carries no Windows prefix.
pub open spec fn plain_rooted(p: Seq<char>) -> bool {
    &&& p.len() > 0
    &&& p[0] == '/'
    &&& !(p.len() >= 2 && p[1] == '/')
    &&& lacks(p, '\\')
    &&& lacks(p, ':')
}

/// Whether `p` is `d/n` with `d` a `simple_dir` and `n` a `normal_name`.
pub open spec fn dir_and_name(p: Seq<char>) -> bool {
    &&& !lacks(p, '/')
    &&& simple_dir(before_last_slash(p))
    &&& normal_name(after_last_slash(p))
}

/// `std::path::Path::is_relative`. Its documentation calls a path absolute
/// when it has a root (and, on Windows, a prefix such as a drive); the
/// empty path and a `plain_relative` one have neither on any platform, so
/// they are relative. For a path with a root but no prefix the answer
/// differs between platforms (absolute on Unix, relative on Windows), and
/// for other paths it is not stated either.
#[verifier::external_body]
fn path_is_relative(p: &str) -> (r: bool)
    ensures
        r || !(p@.len() == 0 || plain_relative(p@)),
{
    std::path::Path::new(p).is_relative()
}

/// `std::path::Path::parent`, as an owned string. Its documentation says it
/// is the path without its final component. The contract states it where
/// the components are the same on every platform: a path that is one
/// ordinary component has the empty parent, and a path `d/n` with `d` a
/// `simple_dir` and `n` a `normal_name` has the parent `d`. For other paths
/// the result depends on the platform and is not stated.
#[verifier::external_body]
fn path_parent(p: &str) -> (r: Option<String>)
    ensures
        r is Some || !normal_name(p@),
        r matches Some(d) ==> (normal_name(p@) ==> d@.len() == 0),
        r is Some || !dir_and_name(p@),
        r matches Some(d) ==> (dir_and_name(p@) ==> d@ == before_last_slash(p@)),
{
    match std::path::Path::new(p).parent() {
        Some(d) => Some(d.to_string_lossy().into_owned()),
        None => None,
    }
}

/// `std::path::Path::join`, as an owned string. Its documentation (that of
/// `PathBuf::push`) says that a relative `b` is appended with a separator
/// added if needed, that an absolute `b` replaces the path, and that on
/// Windows a `b` with a root but no prefix replaces everything but the
/// prefix. The contract states it where `a` carries no prefix on any
/// platform: an empty or `plain_relative` `b` onto the empty path gives
/// `b`; a `plain_relative` `b` onto a `simple_dir` gives `a`, one
/// separator (`/` or `\` as the platform has it), then `b`; a
/// `plain_rooted` `b` onto the empty path or a `simple_dir` gives `b`
/// (absolute on Unix, root without prefix on Windows). For other paths the
/// result is not stated.
#[verifier::external_body]
fn path_join(a: &str, b: &str) -> (r: String)
    ensures
        r@ == b@ || !(a@.len() == 0 && (b@.len() == 0 || plain_relative(b@))),
        r@ == a@ + seq!['/'] + b@ || r@ == a@ + seq!['\\'] + b@ || !(simple_dir(a@)
            && plain_relative(b@)),
        r@ == b@ || !((a@.len() == 0 || simple_dir(a@)) && plain_rooted(b@)),
{
    std::path::Path::new(a).join(b).to_string_lossy().into_owned()
}

/// The kinds of objects a JSON scene lists.
#[derive(PartialEq, Eq, Structural, Clone, Copy, Debug)]
pub enum ObjectKind {
    Sphere,
    Plane,
    Wavefront,
    Json,
    Gltf,
    Other,
}

/// The kind an object's `type` names: `sphere`, `plane`, or a file to load
/// (`wavefront`, `json`, `gltf`); any other word adds nothing.
pub open spec fn object_kind_spec(name: Seq<char>) -> ObjectKind {
    if name == "sphere"@ {
        ObjectKind::Sphere
    } else if name == "plane"@ {
        ObjectKind::Plane
    } else if name == "wavefront"@ {
        ObjectKind::Wavefront
    } else if name == "json"@ {
        ObjectKind::Json
    } else if name == "gltf"@ {
        ObjectKind::Gltf
    } else {
        ObjectKind::Other
    }
}

/// Reads the kind of a JSON scene object (see `object_kind_spec`).
pub fn object_kind_from_name(name: &str) -> (k: ObjectKind)
    ensures
        k == object_kind_spec(name@),
{
    if str_eq(name, "sphere") {
        ObjectKind::Sphere
    } else if str_eq(name, "plane") {
        ObjectKind::Plane
    } else if str_eq(name, "wavefront") {
        ObjectKind::Wavefront
    } else if str_eq(name, "json") {
        ObjectKind::Json
    } else if str_eq(name, "gltf") {
        ObjectKind::Gltf
    } else {
        ObjectKind::Other
    }
}

/// What the register keeps of an item: its id, name and visibility.
pub struct SceneItem {
    pub id: u32,
    pub name: String,
    pub visible: bool,
}

/// The register of a scene's items and the last id handed out.
pub struct Scene {
    pub item_id: u32,
    pub items: Vec<SceneItem>,
}

/// The names of items, in order.
pub open spec fn item_names(items: Seq<SceneItem>) -> Seq<Seq<char>> {
    items.map_values(|it: SceneItem| it.name@)
}

/// The positions of the items named `name` among the first `n`, in order.
pub open spec fn positions_named(names: Seq<Seq<char>>, name: Seq<char>, n: nat) -> Seq<usize>
    decreases n,
{
    if n == 0 {
        Seq::empty()
    } else if names[n - 1] == name {
        positions_named(names, name, (n - 1) as nat).push((n - 1) as usize)
    } else {
        positions_named(names, name, (n - 1) as nat)
    }
}

/// Ids in `items` increase strictly, from at least 1 up to at most
/// `item_id`, the last id handed out.
pub open spec fn ordered_ids(items: Seq<SceneItem>, item_id: int) -> bool {
    &&& forall|i: int, j: int| 0 <= i < j < items.len() ==> #[trigger] items[i].id < #[trigger] items[j].id
    &&& forall|i: int| 0 <= i < items.len() ==> 1 <= #[trigger] items[i].id <= item_id
}

/// The last id and the items after registering items named `names`, in
/// order, from the last id `item_id` and the items `items`: each gets one
/// more than the last id, is visible, and goes at the end.
pub open spec fn register_after(item_id: int, items: Seq<SceneItem>, names: Seq<String>) -> (int, Seq<SceneItem>)
    decreases names.len(),
{
    if names.len() == 0 {
        (item_id, items)
    } else {
        let before = register_after(item_id, items, names.drop_last());
        (
            before.0 + 1,
            before.1.push(SceneItem { id: (before.0 + 1) as u32, name: names.last(), visible: true }),
        )
    }
}

impl Scene {
    /// Ids are handed out in increasing order from 1 and never above the
    /// last one handed out, so no two items share one.
    pub open spec fn ids_ordered(&self) -> bool {
        ordered_ids(self.items@, self.item_id as int)
    }

    /// An empty register.
    pub fn new() -> (s: Scene)
        ensures
            s.item_id == 0,
            s.items@.len() == 0,
            s.ids_ordered(),
    {
        Scene { item_id: 0, items: Vec::new() }
    }

    /// Forgets all items and starts the ids again.
    pub fn clear(&mut self)
        ensures
            final(self).item_id == 0,
            final(self).items@.len() == 0,
            final(self).ids_ordered(),
    {
        self.item_id = 0;
        self.items.clear();
    }

    /// Where a texture named in a material file lies: a relative texture
    /// path is taken relative to the material file's directory, anything
    /// else as it is. Stated where the paths read the same on every
    /// platform: next to a material file without a directory the texture
    /// path is kept; next to `dir/file` a relative texture path becomes
    /// `dir`, a separator, and the texture path; a texture path starting
    /// with `/` is kept.
    pub fn get_texture_path(&self, tex_path: &String, mtl_path: &str) -> (p: String)
        ensures
            (tex_path@.len() == 0 || plain_relative(tex_path@)) && normal_name(mtl_path@) ==> p@
                == tex_path@,
            plain_relative(tex_path@) && dir_and_name(mtl_path@) ==> (p@ == before_last_slash(
                mtl_path@,
            ) + seq!['/'] + tex_path@ || p@ == before_last_slash(mtl_path@) + seq!['\\']
                + tex_path@),
            plain_rooted(tex_path@) && (normal_name(mtl_path@) || dir_and_name(mtl_path@)) ==> p@
                == tex_path@,
    {
        let mut p = tex_path.clone();
        if path_is_relative(p.as_str()) {
            if let Some(parent) = path_parent(mtl_path) {
                p = path_join(parent.as_str(), tex_path.as_str());
            }
        }
        p
    }

    /// Hands out the next id: one more than the last.
    pub fn get_next_id(&mut self) -> (id: u32)
        requires
            old(self).item_id < u32::MAX,
        ensures
            id == old(self).item_id + 1,
            final(self).item_id == id,
            final(self).items == old(self).items,
            old(self).ids_ordered() ==> final(self).ids_ordered(),
    {
        self.item_id = self.item_id + 1;
        self.item_id
    }

    /// Registers a loaded item under the next id, visible, at the end.
    pub fn add_item(&mut self, name: String) -> (id: u32)
        requires
            old(self).item_id < u32::MAX,
        ensures
            id == old(self).item_id + 1,
            final(self).item_id == id,
            final(self).items@ == old(self).items@.push(SceneItem { id, name, visible: true }),
            (final(self).item_id as int, final(self).items@) == register_after(
                old(self).item_id as int,
                old(self).items@,
                seq![name],
            ),
            old(self).ids_ordered() ==> final(self).ids_ordered(),
    {
        let ghost n = name;
        let ghost before = (self.item_id as int, self.items@);
        let id = self.get_next_id();
        self.items.push(SceneItem { id, name, visible: true });
        proof {
            assert(seq![n].drop_last() =~= Seq::<String>::empty());
            assert(register_after(before.0, before.1, seq![n].drop_last()) == before);
            assert(seq![n].last() == n);
        }
        id
    }

    /// The position of the first item named `name`, if any.
    pub fn get_by_name(&self, name: &str) -> (r: Option<usize>)
        ensures
            match r {
                Some(i) => i < self.items@.len() && self.items@[i as int].name@ == name@
                    && forall|j: int| 0 <= j < i ==> self.items@[j].name@ != name@,
                None => forall|j: int| 0 <= j < self.items@.len() ==> self.items@[j].name@ != name@,
            },
    {
        let mut i: usize = 0;
        while i < self.items.len()
            invariant
                i <= self.items@.len(),
                forall|j: int| 0 <= j < i ==> self.items@[j].name@ != name@,
            decreases self.items@.len() - i,
        {
            if str_eq(self.items[i].name.as_str(), name) {
                return Some(i);
            }
            i += 1;
        }
        None
    }

    /// The positions of all items named `name`, in order.
    pub fn get_vec_by_name(&self, name: &str) -> (r: Vec<usize>)
        ensures
            r@ == positions_named(item_names(self.items@), name@, self.items@.len()),
    {
        let ghost names = item_names(self.items@);
        let mut r: Vec<usize> = Vec::new();
        let mut i: usize = 0;
        while i < self.items.len()
            invariant
                i <= self.items@.len(),
                names == item_names(self.items@),
                r@ == positions_named(names, name@, i as nat),
            decreases self.items@.len() - i,
        {
            assert(names[i as int] == self.items@[i as int].name@);
            if str_eq(self.items[i].name.as_str(), name) {
                r.push(i);
            }
            i += 1;
        }
        r
    }
}

/// Every position listed for a name holds an item of that name, every item
/// of that name is listed, and the list is in increasing order.
pub proof fn lemma_positions_named(names: Seq<Seq<char>>, name: Seq<char>, n: nat)
    requires
        n <= names.len(),
        n <= usize::MAX,
    ensures
        forall|k: int|
            0 <= k < positions_named(names, name, n).len() ==> {
                let p = #[trigger] positions_named(names, name, n)[k] as int;
                0 <= p < n && names[p] == name
            },
        forall|p: int|
            0 <= p < n && names[p] == name ==> positions_named(names, name, n).contains(p as usize),
        forall|a: int, b: int|
            0 <= a < b < positions_named(names, name, n).len() ==> #[trigger] positions_named(
                names,
                name,
                n,
            )[a] < #[trigger] positions_named(names, name, n)[b],
    decreases n,
{
    if n > 0 {
        lemma_positions_named(names, name, (n - 1) as nat);
        let prev = positions_named(names, name, (n - 1) as nat);
        if names[n - 1] == name {
            let cur = prev.push((n - 1) as usize);
            assert forall|p: int| 0 <= p < n && names[p] == name implies cur.contains(p as usize) by {
                if p == n - 1 {
                    assert(cur[prev.len() as int] == p as usize);
                } else {
                    assert(prev.contains(p as usize));
                    let k = choose|k: int| 0 <= k < prev.len() && prev[k] == p as usize;
                    assert(cur[k] == p as usize);
                }
            }
        }
    }
}

/// Registering two batches of items one after the other gives the same
/// register as registering both batches at once.
pub proof fn lemma_register_after_concat(item_id: int, items: Seq<SceneItem>, a: Seq<String>, b: Seq<String>)
    ensures
        register_after(item_id, items, a + b) == register_after(
            register_after(item_id, items, a).0,
            register_after(item_id, items, a).1,
            b,
        ),
    decreases b.len(),
{
    if b.len() == 0 {
        assert(a + b =~= a);
    } else {
        assert((a + b).drop_last() =~= a + b.drop_last());
        assert((a + b).last() == b.last());
        lemma_register_after_concat(item_id, items, a, b.drop_last());
    }
}

/// Every item in `items` has an id of at most `item_id`, the last id
/// handed out.
pub open spec fn ids_at_most(items: Seq<SceneItem>, item_id: int) -> bool {
    forall|i: int| 0 <= i < items.len() ==> #[trigger] items[i].id <= item_id
}

/// Loading items one after another hands out fresh, increasing ids: after
/// items named `names` are added to a register whose ids are at most its
/// last id, the last id has grown by their number, the earlier items stand
/// unchanged at the front, the k-th new item has the id `item_id + k + 1`
/// (above the old last id and at most the new one), the k-th name, and is
/// visible, so the new ids strictly increase, and every id is still at
/// most the last id. A register whose ids increased stays so.
pub proof fn lemma_loads_keep_ids_increasing(item_id: int, items: Seq<SceneItem>, names: Seq<String>)
    requires
        ids_at_most(items, item_id),
        0 <= item_id,
        item_id + names.len() <= u32::MAX,
    ensures
        register_after(item_id, items, names).0 == item_id + names.len(),
        register_after(item_id, items, names).1.len() == items.len() + names.len(),
        register_after(item_id, items, names).1.subrange(0, items.len() as int) == items,
        forall|k: int|
            0 <= k < names.len() ==> #[trigger] register_after(item_id, items, names).1[items.len() + k]
                == (SceneItem { id: (item_id + k + 1) as u32, name: names[k], visible: true }),
        forall|k: int|
            0 <= k < names.len() ==> item_id < #[trigger] register_after(item_id, items, names).1[items.len()
                + k].id <= register_after(item_id, items, names).0,
        forall|k1: int, k2: int|
            0 <= k1 < k2 < names.len() ==> #[trigger] register_after(item_id, items, names).1[items.len()
                + k1].id < #[trigger] register_after(item_id, items, names).1[items.len() + k2].id,
        ids_at_most(register_after(item_id, items, names).1, register_after(item_id, items, names).0),
        ordered_ids(items, item_id) ==> ordered_ids(
            register_after(item_id, items, names).1,
            register_after(item_id, items, names).0,
        ),
    decreases names.len(),
{
    let after = register_after(item_id, items, names);
    if names.len() > 0 {
        let prev = names.drop_last();
        lemma_loads_keep_ids_increasing(item_id, items, prev);
        let before = register_after(item_id, items, prev);
        let last = SceneItem { id: (before.0 + 1) as u32, name: names.last(), visible: true };
        assert(after.1 == before.1.push(last));
        assert(after.1.subrange(0, items.len() as int) =~= before.1.subrange(0, items.len() as int));
        assert forall|k: int| 0 <= k < names.len() implies #[trigger] after.1[items.len() + k] == (SceneItem {
            id: (item_id + k + 1) as u32,
            name: names[k],
            visible: true,
        }) by {
            if k < prev.len() {
                assert(after.1[items.len() + k] == before.1[items.len() + k]);
                assert(prev[k] == names[k]);
            }
        }
        assert forall|i: int| 0 <= i < after.1.len() implies #[trigger] after.1[i].id <= after.0 by {
            if i < after.1.len() - 1 {
                assert(after.1[i] == before.1[i]);
            }
        }
        if ordered_ids(items, item_id) {
            assert forall|i: int, j: int| 0 <= i < j < after.1.len() implies #[trigger] after.1[i].id
                < #[trigger] after.1[j].id by {
                if j == after.1.len() - 1 {
                    assert(after.1[j] == last);
                    assert(after.1[i] == before.1[i]);
                } else {
                    assert(after.1[i] == before.1[i]);
                    assert(after.1[j] == before.1[j]);
                }
            }
            assert forall|i: int| 0 <= i < after.1.len() implies 1 <= #[trigger] after.1[i].id <= after.0 by {
                if i < after.1.len() - 1 {
                    assert(after.1[i] == before.1[i]);
                }
            }
        }
    } else {
        assert(items.subrange(0, items.len() as int) =~= items);
    }
    assert forall|k1: int, k2: int| 0 <= k1 < k2 < names.len() implies #[trigger] after.1[items.len() + k1].id
        < #[trigger] after.1[items.len() + k2].id by {
        assert(after.1[items.len() + k1].id == item_id + k1 + 1);
        assert(after.1[items.len() + k2].id == item_id + k2 + 1);
    }
}

/// Ids stay distinct: in a register kept in order, no two items share an
/// id, and an item added next gets an id that no item has.
pub proof fn lemma_ids_unique(s: Scene)
    requires
        s.ids_ordered(),
    ensures
        forall|i: int, j: int|
            0 <= i < s.items@.len() && 0 <= j < s.items@.len() && i != j ==> s.items@[i].id
                != s.items@[j].id,
        forall|i: int| 0 <= i < s.items@.len() ==> s.items@[i].id != s.item_id + 1,
{
    assert forall|i: int, j: int|
        0 <= i < s.items@.len() && 0 <= j < s.items@.len() && i != j implies s.items@[i].id
        != s.items@[j].id by {
        if i < j {
            assert(s.items@[i].id < s.items@[j].id);
        } else {
            assert(s.items@[j].id < s.items@[i].id);
        }
    }
}

} // verus!
