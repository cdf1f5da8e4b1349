use std::collections::HashMap;
use vstd::prelude::*;

verus! {

broadcast use vstd::std_specs::hash::group_hash_axioms;

/// The manipulation tool that is active in the viewport.
#[derive(Debug, Clone, Copy, PartialEq, Eq, Structural)]
pub enum Tool {
    Select,
    Move,
    Rotate,
    Scale,
}

/// The primitive shapes that can be added to a scene.
#[derive(Debug, Clone, Copy, PartialEq, Eq, Structural)]
pub enum ShapeType {
    Cube,
    Sphere,
    Plane,
}

/// What an imported asset is used for.
#[derive(Debug, Clone, Copy, PartialEq, Eq, Structural)]
pub enum AssetKind {
    Mesh,
    Albedo,
    Normal,
}

/// Identifier of an imported asset.
pub type AssetId = u32;

/// Bookkeeping entry for one imported asset.
#[derive(Debug, Clone)]
pub struct AssetRecord {
    pub id: AssetId,
    pub name: String,
    pub path: String,
    pub kind: AssetKind,
}

/// The pixels shown in the viewport: `width * height` RGBA8 texels.
pub struct ViewportState {
    pub width: usize,
    pub height: usize,
    pub framebuffer: Vec<u8>,
}

/// One entry of the scene list. `X` is the type of its transform.
#[derive(Debug, Clone)]
pub struct SceneObject<X> {
    pub id: usize,
    pub name: String,
    pub obj_type: String,
    pub transform: X,
    pub mesh: Option<String>,
    pub material: Option<String>,
    pub mesh_id: Option<AssetId>,
    pub albedo_id: Option<AssetId>,
    pub normal_id: Option<AssetId>,
}

/// Whether `records[i]` is the first record of the asset `id`.
pub open spec fn is_first_record(records: Seq<AssetRecord>, id: AssetId, i: int) -> bool {
    &&& 0 <= i < records.len()
    &&& records[i].id == id
    &&& forall|j: int| 0 <= j < i ==> (#[trigger] records[j]).id != id
}

/// Whether no record is kept of the asset `id`.
pub open spec fn has_no_record(records: Seq<AssetRecord>, id: AssetId) -> bool {
    forall|j: int| 0 <= j < records.len() ==> (#[trigger] records[j]).id != id
}

/// The name under which the asset `id` is shown: that of its first record,
/// or `fallback` when there is none.
pub open spec fn shown_name(records: Seq<AssetRecord>, id: AssetId, fallback: Seq<char>, name: Seq<
    char,
>) -> bool {
    if has_no_record(records, id) {
        name == fallback
    } else {
        exists|i: int| is_first_record(records, id, i) && name == (#[trigger] records[i]).name@
    }
}

/// The assets an editing session has imported, by kind, with a record of
/// each and the message of the import that failed last.
pub struct AssetRegistry<M, A, N> {
    next_id: AssetId,
    meshes: HashMap<AssetId, M>,
    albedos: HashMap<AssetId, A>,
    normals: HashMap<AssetId, N>,
    records: Vec<AssetRecord>,
    last_error: Option<String>,
}

impl<M, A, N> AssetRegistry<M, A, N> {
    /// The identifier the next import receives.
    pub closed spec fn next_id(&self) -> AssetId {
        self.next_id
    }

    /// The imported meshes by identifier.
    pub closed spec fn meshes(&self) -> Map<AssetId, M> {
        self.meshes@
    }

    /// The imported albedo textures by identifier.
    pub closed spec fn albedos(&self) -> Map<AssetId, A> {
        self.albedos@
    }

    /// The imported normal maps by identifier.
    pub closed spec fn normals(&self) -> Map<AssetId, N> {
        self.normals@
    }

    /// The records in order of import.
    pub closed spec fn record_list(&self) -> Seq<AssetRecord> {
        self.records@
    }

    /// The message of the import that failed last.
    pub closed spec fn error(&self) -> Option<String> {
        self.last_error
    }

    /// What storing an asset of `kind` changes besides the store of that
    /// kind: the asset receives the next identifier and a record; the last
    /// error stays.
    pub open spec fn recorded(
        &self,
        before: Self,
        kind: AssetKind,
        name: String,
        path: String,
    ) -> bool {
        &&& self.next_id() == before.next_id() + 1
        &&& self.error() == before.error()
        &&& self.record_list().len() == before.record_list().len() + 1
        &&& self.record_list().drop_last() == before.record_list()
        &&& self.record_list().last().id == before.next_id()
        &&& self.record_list().last().name == name
        &&& self.record_list().last().path == path
        &&& self.record_list().last().kind == kind
    }

    /// An empty registry; identifiers start at zero.
    pub fn new() -> (r: Self)
        ensures
            r.next_id() == 0,
            r.meshes() == Map::<AssetId, M>::empty(),
            r.albedos() == Map::<AssetId, A>::empty(),
            r.normals() == Map::<AssetId, N>::empty(),
            r.record_list().len() == 0,
            r.error() is None,
    {
        AssetRegistry {
            next_id: 0,
            meshes: HashMap::new(),
            albedos: HashMap::new(),
            normals: HashMap::new(),
            records: Vec::new(),
            last_error: None,
        }
    }

    /// The records in order of import.
    pub fn records(&self) -> (r: &Vec<AssetRecord>)
        ensures
            r@ == self.record_list(),
    {
        &self.records
    }

    /// The message of the import that failed last, if any has failed.
    pub fn last_error(&self) -> (r: &Option<String>)
        ensures
            *r == self.error(),
    {
        &self.last_error
    }

    /// The name of the first record of the asset `id`.
    pub fn record_name(&self, id: AssetId) -> (r: Option<&String>)
        ensures
            match r {
                Some(name) => exists|i: int|
                    is_first_record(self.record_list(), id, i) && *name
                        == (#[trigger] self.record_list()[i]).name,
                None => has_no_record(self.record_list(), id),
            },
    {
        let mut i: usize = 0;
        while i < self.records.len()
            invariant
                i <= self.records@.len(),
                forall|j: int| 0 <= j < i ==> (#[trigger] self.records@[j]).id != id,
            decreases self.records@.len() - i,
        {
            if self.records[i].id == id {
                assert(is_first_record(self.record_list(), id, i as int));
                return Some(&self.records[i].name);
            }
            i += 1;
        }
        None
    }

    /// Takes in the outcome of loading a mesh from `path`: a mesh is stored
    /// under a new identifier, which is returned; a failure leaves its
    /// message as the last error.
    pub fn load_mesh(&mut self, path: String, name: String, loaded: Result<M, String>) -> (r:
        Option<AssetId>)
        requires
            old(self).next_id() < u32::MAX,
        ensures
            match loaded {
                Ok(mesh) => {
                    &&& r == Some(old(self).next_id())
                    &&& final(self).recorded(*old(self), AssetKind::Mesh, name, path)
                    &&& final(self).meshes() == old(self).meshes().insert(old(self).next_id(), mesh)
                    &&& final(self).albedos() == old(self).albedos()
                    &&& final(self).normals() == old(self).normals()
                },
                Err(message) => {
                    &&& r is None
                    &&& final(self).error() == Some(message)
                    &&& final(self).next_id() == old(self).next_id()
                    &&& final(self).record_list() == old(self).record_list()
                    &&& final(self).meshes() == old(self).meshes()
                    &&& final(self).albedos() == old(self).albedos()
                    &&& final(self).normals() == old(self).normals()
                },
            },
    {
        match loaded {
            Ok(mesh) => Some(self.insert_mesh(path, name, mesh)),
            Err(message) => {
                self.last_error = Some(message);
                None
            },
        }
    }

    /// Takes in the outcome of loading an albedo texture, as
    /// [`AssetRegistry::load_mesh`] does for a mesh.
    pub fn load_albedo(&mut self, path: String, name: String, loaded: Result<A, String>) -> (r:
        Option<AssetId>)
        requires
            old(self).next_id() < u32::MAX,
        ensures
            match loaded {
                Ok(tex) => {
                    &&& r == Some(old(self).next_id())
                    &&& final(self).recorded(*old(self), AssetKind::Albedo, name, path)
                    &&& final(self).albedos() == old(self).albedos().insert(
                        old(self).next_id(),
                        tex,
                    )
                    &&& final(self).meshes() == old(self).meshes()
                    &&& final(self).normals() == old(self).normals()
                },
                Err(message) => {
                    &&& r is None
                    &&& final(self).error() == Some(message)
                    &&& final(self).next_id() == old(self).next_id()
                    &&& final(self).record_list() == old(self).record_list()
                    &&& final(self).meshes() == old(self).meshes()
                    &&& final(self).albedos() == old(self).albedos()
                    &&& final(self).normals() == old(self).normals()
                },
            },
    {
        match loaded {
            Ok(tex) => Some(self.insert_albedo(path, name, tex)),
            Err(message) => {
                self.last_error = Some(message);
                None
            },
        }
    }

    /// Takes in the outcome of loading a normal map, as
    /// [`AssetRegistry::load_mesh`] does for a mesh.
    pub fn load_normal(&mut self, path: String, name: String, loaded: Result<N, String>) -> (r:
        Option<AssetId>)
        requires
            old(self).next_id() < u32::MAX,
        ensures
            match loaded {
                Ok(tex) => {
                    &&& r == Some(old(self).next_id())
                    &&& final(self).recorded(*old(self), AssetKind::Normal, name, path)
                    &&& final(self).normals() == old(self).normals().insert(
                        old(self).next_id(),
                        tex,
                    )
                    &&& final(self).meshes() == old(self).meshes()
                    &&& final(self).albedos() == old(self).albedos()
                },
                Err(message) => {
                    &&& r is None
                    &&& final(self).error() == Some(message)
                    &&& final(self).next_id() == old(self).next_id()
                    &&& final(self).record_list() == old(self).record_list()
                    &&& final(self).meshes() == old(self).meshes()
                    &&& final(self).albedos() == old(self).albedos()
                    &&& final(self).normals() == old(self).normals()
                },
            },
    {
        match loaded {
            Ok(tex) => Some(self.insert_normal(path, name, tex)),
            Err(message) => {
                self.last_error = Some(message);
                None
            },
        }
    }

    /// Stores a mesh under the next identifier and records it.
    pub fn insert_mesh(&mut self, path: String, name: String, mesh: M) -> (id: AssetId)
        requires
            old(self).next_id() < u32::MAX,
        ensures
            id == old(self).next_id(),
            final(self).recorded(*old(self), AssetKind::Mesh, name, path),
            final(self).meshes() == old(self).meshes().insert(id, mesh),
            final(self).albedos() == old(self).albedos(),
            final(self).normals() == old(self).normals(),
    {
        let id = self.alloc_id();
        self.meshes.insert(id, mesh);
        self.records.push(AssetRecord { id, name, path, kind: AssetKind::Mesh });
        assert(self.records@.drop_last() =~= old(self).records@);
        id
    }

    /// Stores an albedo texture under the next identifier and records it.
    pub fn insert_albedo(&mut self, path: String, name: String, tex: A) -> (id: AssetId)
        requires
            old(self).next_id() < u32::MAX,
        ensures
            id == old(self).next_id(),
            final(self).recorded(*old(self), AssetKind::Albedo, name, path),
            final(self).albedos() == old(self).albedos().insert(id, tex),
            final(self).meshes() == old(self).meshes(),
            final(self).normals() == old(self).normals(),
    {
        let id = self.alloc_id();
        self.albedos.insert(id, tex);
        self.records.push(AssetRecord { id, name, path, kind: AssetKind::Albedo });
        assert(self.records@.drop_last() =~= old(self).records@);
        id
    }

    /// Stores a normal map under the next identifier and records it.
    pub fn insert_normal(&mut self, path: String, name: String, tex: N) -> (id: AssetId)
        requires
            old(self).next_id() < u32::MAX,
        ensures
            id == old(self).next_id(),
            final(self).recorded(*old(self), AssetKind::Normal, name, path),
            final(self).normals() == old(self).normals().insert(id, tex),
            final(self).meshes() == old(self).meshes(),
            final(self).albedos() == old(self).albedos(),
    {
        let id = self.alloc_id();
        self.normals.insert(id, tex);
        self.records.push(AssetRecord { id, name, path, kind: AssetKind::Normal });
        assert(self.records@.drop_last() =~= old(self).records@);
        id
    }

    /// Hands out the next identifier.
    fn alloc_id(&mut self) -> (id: AssetId)
        requires
            old(self).next_id < u32::MAX,
        ensures
            id == old(self).next_id,
            final(self).next_id == id + 1,
            final(self).meshes == old(self).meshes,
            final(self).albedos == old(self).albedos,
            final(self).normals == old(self).normals,
            final(self).records == old(self).records,
            final(self).last_error == old(self).last_error,
    {
        let id = self.next_id;
        self.next_id += 1;
        id
    }
}

/// Whether `objects[i]` is the first object with the identifier `id`.
pub open spec fn is_first_object<X>(objects: Seq<SceneObject<X>>, id: usize, i: int) -> bool {
    &&& 0 <= i < objects.len()
    &&& objects[i].id == id
    &&& forall|j: int| 0 <= j < i ==> (#[trigger] objects[j]).id != id
}

/// Whether no object has the identifier `id`.
pub open spec fn has_no_object<X>(objects: Seq<SceneObject<X>>, id: usize) -> bool {
    forall|j: int| 0 <= j < objects.len() ==> (#[trigger] objects[j]).id != id
}

/// The name under which a shape enters the scene.
pub open spec fn shape_name(shape: ShapeType) -> Seq<char> {
    match shape {
        ShapeType::Cube => "Cube"@,
        ShapeType::Sphere => "Sphere"@,
        ShapeType::Plane => "Plane"@,
    }
}

/// Whether `object` is a scene object with this identifier, name and kind
/// that has no imported assets, a mesh and a material by these names, and a
/// transform that `X::default` returned.
pub open spec fn is_plain_object<X: Default>(
    object: SceneObject<X>,
    id: usize,
    name: Seq<char>,
    obj_type: Seq<char>,
    mesh: Option<Seq<char>>,
    material: Option<Seq<char>>,
) -> bool {
    &&& object.id == id
    &&& object.name@ == name
    &&& object.obj_type@ == obj_type
    &&& call_ensures(X::default, (), object.transform)
    &&& match (object.mesh, mesh) {
        (Some(have), Some(want)) => have@ == want,
        (None, None) => true,
        _ => false,
    }
    &&& match (object.material, material) {
        (Some(have), Some(want)) => have@ == want,
        (None, None) => true,
        _ => false,
    }
    &&& object.mesh_id is None
    &&& object.albedo_id is None
    &&& object.normal_id is None
}

/// The state of an editing session: the scene list, the selection, the
/// active tool, the imported assets and the viewport.
pub struct EditorState<X, M, A, N> {
    pub scene_objects: Vec<SceneObject<X>>,
    pub selected: Option<usize>,
    pub tool: Tool,
    pub assets: AssetRegistry<M, A, N>,
    pub viewport: ViewportState,
}

impl<X: Default, M, A, N> EditorState<X, M, A, N> {
    /// A session with the default scene, a camera, a light and a cube,
    /// nothing selected, the select tool, no assets, and a black viewport of
    /// 800 by 600 pixels.
    pub fn new() -> (state: Self)
        ensures
            state.scene_objects@.len() == 3,
            is_plain_object(
                state.scene_objects@[0],
                0,
                "Main Camera"@,
                "Camera"@,
                None,
                None,
            ),
            is_plain_object(
                state.scene_objects@[1],
                1,
                "Directional Light"@,
                "Light"@,
                None,
                None,
            ),
            is_plain_object(
                state.scene_objects@[2],
                2,
                "Cube"@,
                "Mesh"@,
                Some("Cube"@),
                Some("Default"@),
            ),
            state.selected is None,
            state.tool == Tool::Select,
            state.assets.next_id() == 0,
            state.assets.record_list().len() == 0,
            state.viewport.width == 800,
            state.viewport.height == 600,
            state.viewport.framebuffer@.len() == 800 * 600 * 4,
            forall|i: int|
                0 <= i < state.viewport.framebuffer@.len() ==> state.viewport.framebuffer@[i] == 0,
    {
        let mut state = Self {
            scene_objects: Vec::new(),
            selected: None,
            tool: Tool::Select,
            assets: AssetRegistry::new(),
            viewport: ViewportState { width: 800, height: 600, framebuffer: vec![0u8; 1920000] },
        };
        state.add_default_scene();
        state
    }

    /// Appends the default scene: a camera, a light and a cube, numbered
    /// from zero.
    fn add_default_scene(&mut self)
        requires
            old(self).scene_objects@.len() == 0,
        ensures
            final(self).scene_objects@.len() == 3,
            is_plain_object(
                final(self).scene_objects@[0],
                0,
                "Main Camera"@,
                "Camera"@,
                None,
                None,
            ),
            is_plain_object(
                final(self).scene_objects@[1],
                1,
                "Directional Light"@,
                "Light"@,
                None,
                None,
            ),
            is_plain_object(
                final(self).scene_objects@[2],
                2,
                "Cube"@,
                "Mesh"@,
                Some("Cube"@),
                Some("Default"@),
            ),
            final(self).selected == old(self).selected,
            final(self).tool == old(self).tool,
            final(self).assets == old(self).assets,
            final(self).viewport == old(self).viewport,
    {
        self.scene_objects.push(
            SceneObject {
                id: 0,
                name: "Main Camera".to_owned(),
                obj_type: "Camera".to_owned(),
                transform: X::default(),
                mesh: None,
                material: None,
                mesh_id: None,
                albedo_id: None,
                normal_id: None,
            },
        );
        self.scene_objects.push(
            SceneObject {
                id: 1,
                name: "Directional Light".to_owned(),
                obj_type: "Light".to_owned(),
                transform: X::default(),
                mesh: None,
                material: None,
                mesh_id: None,
                albedo_id: None,
                normal_id: None,
            },
        );
        self.scene_objects.push(
            SceneObject {
                id: 2,
                name: "Cube".to_owned(),
                obj_type: "Mesh".to_owned(),
                transform: X::default(),
                mesh: Some("Cube".to_owned()),
                material: Some("Default".to_owned()),
                mesh_id: None,
                albedo_id: None,
                normal_id: None,
            },
        );
    }

    /// Adds a shape to the scene and selects it. Its identifier is its place
    /// in the scene list.
    pub fn add_shape(&mut self, shape: ShapeType)
        ensures
            final(self).scene_objects@.len() == old(self).scene_objects@.len() + 1,
            final(self).scene_objects@.drop_last() == old(self).scene_objects@,
            is_plain_object(
                final(self).scene_objects@.last(),
                old(self).scene_objects@.len() as usize,
                shape_name(shape),
                "Mesh"@,
                Some(shape_name(shape)),
                Some("Default"@),
            ),
            final(self).selected == Some(old(self).scene_objects@.len() as usize),
            final(self).tool == old(self).tool,
            final(self).assets == old(self).assets,
            final(self).viewport == old(self).viewport,
    {
        let id = self.scene_objects.len();
        let name = match shape {
            ShapeType::Cube => "Cube",
            ShapeType::Sphere => "Sphere",
            ShapeType::Plane => "Plane",
        };
        self.scene_objects.push(
            SceneObject {
                id,
                name: name.to_owned(),
                obj_type: "Mesh".to_owned(),
                transform: X::default(),
                mesh: Some(name.to_owned()),
                material: Some("Default".to_owned()),
                mesh_id: None,
                albedo_id: None,
                normal_id: None,
            },
        );
        assert(self.scene_objects@.drop_last() =~= old(self).scene_objects@);
        self.selected = Some(id);
    }
}

impl<X, M, A, N> EditorState<X, M, A, N> {
    /// Makes `tool` the active tool.
    pub fn set_tool(&mut self, tool: Tool)
        ensures
            final(self).tool == tool,
            final(self).scene_objects == old(self).scene_objects,
            final(self).selected == old(self).selected,
            final(self).assets == old(self).assets,
            final(self).viewport == old(self).viewport,
    {
        self.tool = tool;
    }

    /// Selects the object with the identifier `id`, whether or not the scene
    /// has one.
    pub fn select(&mut self, id: usize)
        ensures
            final(self).selected == Some(id),
            final(self).scene_objects == old(self).scene_objects,
            final(self).tool == old(self).tool,
            final(self).assets == old(self).assets,
            final(self).viewport == old(self).viewport,
    {
        self.selected = Some(id);
    }

    /// Place in the scene list of the selected object: of the first object
    /// that has the selected identifier.
    pub fn selected_index(&self) -> (r: Option<usize>)
        ensures
            match r {
                Some(i) => self.selected is Some && is_first_object(
                    self.scene_objects@,
                    self.selected->0,
                    i as int,
                ),
                None => self.selected is None || has_no_object(
                    self.scene_objects@,
                    self.selected->0,
                ),
            },
    {
        let id = match self.selected {
            Some(id) => id,
            None => {
                return None;
            },
        };
        let mut i: usize = 0;
        while i < self.scene_objects.len()
            invariant
                i <= self.scene_objects@.len(),
                self.selected == Some(id),
                forall|j: int| 0 <= j < i ==> (#[trigger] self.scene_objects@[j]).id != id,
            decreases self.scene_objects@.len() - i,
        {
            if self.scene_objects[i].id == id {
                return Some(i);
            }
            i += 1;
        }
        None
    }

    /// The selected object, if the scene has it.
    pub fn selected_object(&self) -> (r: Option<&SceneObject<X>>)
        ensures
            match r {
                Some(object) => self.selected is Some && exists|i: int|
                    is_first_object(self.scene_objects@, self.selected->0, i) && *object
                        == #[trigger] self.scene_objects@[i],
                None => self.selected is None || has_no_object(
                    self.scene_objects@,
                    self.selected->0,
                ),
            },
    {
        match self.selected_index() {
            Some(i) => Some(&self.scene_objects[i]),
            None => None,
        }
    }

    /// What an assignment to the selected object leaves unchanged: all other
    /// objects, and everything but the scene list. Without a selected object
    /// nothing changes at all.
    pub open spec fn only_selected_changed(&self, before: Self) -> bool {
        &&& self.selected == before.selected
        &&& self.tool == before.tool
        &&& self.assets == before.assets
        &&& self.viewport == before.viewport
        &&& self.scene_objects@.len() == before.scene_objects@.len()
        &&& forall|j: int|
            0 <= j < before.scene_objects@.len() && !(before.selected is Some && is_first_object(
                before.scene_objects@,
                before.selected->0,
                j,
            )) ==> #[trigger] self.scene_objects@[j] == before.scene_objects@[j]
    }

    /// Gives the selected object the mesh asset `asset_id`, and the name of
    /// that asset as the name of its mesh, or "Mesh" when the asset has no
    /// record.
    pub fn assign_mesh_to_selected(&mut self, asset_id: AssetId)
        ensures
            final(self).only_selected_changed(*old(self)),
            forall|i: int|
                old(self).selected is Some && is_first_object(
                    old(self).scene_objects@,
                    old(self).selected->0,
                    i,
                ) ==> {
                    let was = old(self).scene_objects@[i];
                    let is = #[trigger] final(self).scene_objects@[i];
                    &&& is.mesh_id == Some(asset_id)
                    &&& is.mesh matches Some(name) && shown_name(
                        old(self).assets.record_list(),
                        asset_id,
                        "Mesh"@,
                        name@,
                    )
                    &&& is.id == was.id
                    &&& is.name == was.name
                    &&& is.obj_type == was.obj_type
                    &&& is.transform == was.transform
                    &&& is.material == was.material
                    &&& is.albedo_id == was.albedo_id
                    &&& is.normal_id == was.normal_id
                },
    {
        let name = match self.assets.record_name(asset_id) {
            Some(name) => name.clone(),
            None => "Mesh".to_owned(),
        };
        match self.selected_index() {
            Some(i) => {
                self.scene_objects[i].mesh_id = Some(asset_id);
                self.scene_objects[i].mesh = Some(name);
            },
            None => {},
        }
    }

    /// Gives the selected object the albedo asset `asset_id`, and the name
    /// of that asset as the name of its material, or "Albedo" when the asset
    /// has no record.
    pub fn assign_albedo_to_selected(&mut self, asset_id: AssetId)
        ensures
            final(self).only_selected_changed(*old(self)),
            forall|i: int|
                old(self).selected is Some && is_first_object(
                    old(self).scene_objects@,
                    old(self).selected->0,
                    i,
                ) ==> {
                    let was = old(self).scene_objects@[i];
                    let is = #[trigger] final(self).scene_objects@[i];
                    &&& is.albedo_id == Some(asset_id)
                    &&& is.material matches Some(name) && shown_name(
                        old(self).assets.record_list(),
                        asset_id,
                        "Albedo"@,
                        name@,
                    )
                    &&& is.id == was.id
                    &&& is.name == was.name
                    &&& is.obj_type == was.obj_type
                    &&& is.transform == was.transform
                    &&& is.mesh == was.mesh
                    &&& is.mesh_id == was.mesh_id
                    &&& is.normal_id == was.normal_id
                },
    {
        let name = match self.assets.record_name(asset_id) {
            Some(name) => name.clone(),
            None => "Albedo".to_owned(),
        };
        match self.selected_index() {
            Some(i) => {
                self.scene_objects[i].albedo_id = Some(asset_id);
                self.scene_objects[i].material = Some(name);
            },
            None => {},
        }
    }

    /// Gives the selected object the normal-map asset `asset_id`.
    pub fn assign_normal_to_selected(&mut self, asset_id: AssetId)
        ensures
            final(self).only_selected_changed(*old(self)),
            forall|i: int|
                old(self).selected is Some && is_first_object(
                    old(self).scene_objects@,
                    old(self).selected->0,
                    i,
                ) ==> {
                    let was = old(self).scene_objects@[i];
                    let is = #[trigger] final(self).scene_objects@[i];
                    &&& is.normal_id == Some(asset_id)
                    &&& is.id == was.id
                    &&& is.name == was.name
                    &&& is.obj_type == was.obj_type
                    &&& is.transform == was.transform
                    &&& is.mesh == was.mesh
                    &&& is.material == was.material
                    &&& is.mesh_id == was.mesh_id
                    &&& is.albedo_id == was.albedo_id
                },
    {
        match self.selected_index() {
            Some(i) => {
                self.scene_objects[i].normal_id = Some(asset_id);
            },
            None => {},
        }
    }
}

} // verus!
