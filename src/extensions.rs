use vstd::prelude::*;

verus! {

/// Runtime description of a running extension.
#[derive(Clone, Debug, PartialEq)]
pub struct ExtensionInfo {
    pub id: String,
    pub name: String,
}

impl ExtensionInfo {
    /// A field-by-field copy.
    pub fn duplicate(&self) -> (r: ExtensionInfo)
        ensures
            r == *self,
    {
        ExtensionInfo { id: self.id.clone(), name: self.name.clone() }
    }
}

/// Descriptive information that a manifest gives about an extension.
#[derive(Clone, Debug, PartialEq)]
pub struct ManifestInfo {
    pub extension: ExtensionInfo,
}

impl ManifestInfo {
    /// A field-by-field copy.
    pub fn duplicate(&self) -> (r: ManifestInfo)
        ensures
            r == *self,
    {
        ManifestInfo { extension: self.extension.duplicate() }
    }
}

/// A manifest read from outside the process.
#[derive(Clone, Debug, PartialEq)]
pub struct Manifest {
    pub info: ManifestInfo,
}

/// What an extension currently is: known from a manifest file, known as a
/// built-in with a constructor, or running.
///
/// Plugin objects live outside the library; `plugin` is the handle under
/// which the caller keeps the constructor or the live instance.
#[derive(Clone, Debug)]
pub enum LoadedExtension {
    ManifestFile { manifest: Manifest },
    ManifestBuiltin { info: ManifestInfo, plugin: u64 },
    ExtensionInstance { plugin: u64, parent_id: String, info: ExtensionInfo },
}

/// The error kinds of extension lookups.
#[derive(Clone, Copy, Debug, PartialEq, Eq, Structural)]
pub enum ExtensionErrors {
    ExtensionNotFound,
}

/// Errors surfaced to callers of the state.
#[derive(Clone, Copy, Debug, PartialEq, Eq, Structural)]
pub enum Errors {
    Ext(ExtensionErrors),
}

/// The manifest-level info of an entry, for manifest-bearing entries only.
pub open spec fn manifest_info_of(e: LoadedExtension) -> Option<ManifestInfo> {
    match e {
        LoadedExtension::ManifestFile { manifest } => Some(manifest.info),
        LoadedExtension::ManifestBuiltin { info, .. } => Some(info),
        LoadedExtension::ExtensionInstance { .. } => None,
    }
}

/// Whether entry `e` carries a manifest whose extension id is `id`.
pub open spec fn manifest_id_is(e: LoadedExtension, id: Seq<char>) -> bool {
    match manifest_info_of(e) {
        Some(info) => info.extension.id@ == id,
        None => false,
    }
}

/// Whether entry `e` is a running instance whose runtime id is `id`.
pub open spec fn runtime_id_is(e: LoadedExtension, id: Seq<char>) -> bool {
    match e {
        LoadedExtension::ExtensionInstance { info, .. } => info.id@ == id,
        _ => false,
    }
}

/// Entry `i` is the first one that carries a manifest with extension id `id`.
pub open spec fn is_first_manifest(s: Seq<LoadedExtension>, id: Seq<char>, i: int) -> bool {
    &&& 0 <= i < s.len()
    &&& manifest_id_is(s[i], id)
    &&& forall|j: int| 0 <= j < i ==> !manifest_id_is(s[j], id)
}

/// Entry `i` is the first running instance with runtime id `id`.
pub open spec fn is_first_instance(s: Seq<LoadedExtension>, id: Seq<char>, i: int) -> bool {
    &&& 0 <= i < s.len()
    &&& runtime_id_is(s[i], id)
    &&& forall|j: int| 0 <= j < i ==> !runtime_id_is(s[j], id)
}

/// Lookup by manifest id: the manifest info of the first manifest-bearing
/// entry with that id, else not found.
pub open spec fn manifest_lookup(s: Seq<LoadedExtension>, id: Seq<char>) -> Result<ManifestInfo, Errors> {
    if exists|i: int| is_first_manifest(s, id, i) {
        let i = choose|i: int| is_first_manifest(s, id, i);
        Ok(manifest_info_of(s[i])->Some_0)
    } else {
        Err(Errors::Ext(ExtensionErrors::ExtensionNotFound))
    }
}

/// Lookup by runtime id: the runtime info of the first running instance with
/// that id, else not found.
pub open spec fn runtime_lookup(s: Seq<LoadedExtension>, id: Seq<char>) -> Result<ExtensionInfo, Errors> {
    if exists|i: int| is_first_instance(s, id, i) {
        let i = choose|i: int| is_first_instance(s, id, i);
        Ok(s[i]->ExtensionInstance_info)
    } else {
        Err(Errors::Ext(ExtensionErrors::ExtensionNotFound))
    }
}

/// At most one entry is the first with a given manifest id.
pub proof fn lemma_first_manifest_unique(s: Seq<LoadedExtension>, id: Seq<char>, i: int, k: int)
    requires
        is_first_manifest(s, id, i),
        is_first_manifest(s, id, k),
    ensures
        i == k,
{
    if k < i {
        assert(!manifest_id_is(s[k], id));
    } else if i < k {
        assert(!manifest_id_is(s[i], id));
    }
}

/// At most one entry is the first running instance with a given runtime id.
pub proof fn lemma_first_instance_unique(s: Seq<LoadedExtension>, id: Seq<char>, i: int, k: int)
    requires
        is_first_instance(s, id, i),
        is_first_instance(s, id, k),
    ensures
        i == k,
{
    if k < i {
        assert(!runtime_id_is(s[k], id));
    } else if i < k {
        assert(!runtime_id_is(s[i], id));
    }
}

/// The manifest ids of the manifest-bearing entries, in order.
pub open spec fn manifest_ids(s: Seq<LoadedExtension>) -> Seq<String>
    decreases s.len(),
{
    if s.len() == 0 {
        Seq::empty()
    } else {
        let rest = manifest_ids(s.drop_last());
        match manifest_info_of(s.last()) {
            Some(info) => rest.push(info.extension.id),
            None => rest,
        }
    }
}

/// The plugin handles of the running instances, in order; with `Some(p)`,
/// only those instantiated from the manifest with id `p`.
pub open spec fn instance_plugins(s: Seq<LoadedExtension>, parent: Option<Seq<char>>) -> Seq<u64>
    decreases s.len(),
{
    if s.len() == 0 {
        Seq::empty()
    } else {
        let rest = instance_plugins(s.drop_last(), parent);
        match s.last() {
            LoadedExtension::ExtensionInstance { plugin, parent_id, .. } => {
                if parent is None || parent == Some(parent_id@) {
                    rest.push(plugin)
                } else {
                    rest
                }
            },
            _ => rest,
        }
    }
}

/// Owns the extension entries, in registration order.
pub struct ExtensionsManager {
    pub extensions: Vec<LoadedExtension>,
}

impl Default for ExtensionsManager {
    fn default() -> (r: ExtensionsManager)
        ensures
            r.extensions@.len() == 0,
    {
        ExtensionsManager { extensions: Vec::new() }
    }
}

impl ExtensionsManager {
    /// Records a running instance of the extension described by `info`,
    /// instantiated from the manifest with id `parent_id`.
    pub fn register(&mut self, parent_id: &str, plugin: u64, info: ExtensionInfo)
        ensures
            final(self).extensions@.len() == old(self).extensions@.len() + 1,
            forall|k: int|
                0 <= k < old(self).extensions@.len() ==> #[trigger] final(self).extensions@[k]
                    == old(self).extensions@[k],
            final(self).extensions@.last() matches LoadedExtension::ExtensionInstance {
                plugin: p,
                parent_id: q,
                info: i,
            } && p == plugin && q@ == parent_id@ && i == info,
    {
        let parent_id = parent_id.to_owned();
        self.extensions.push(LoadedExtension::ExtensionInstance { plugin, parent_id, info });
    }

    /// Records an extension known from a manifest file.
    pub fn register_manifest_file(&mut self, manifest: Manifest)
        ensures
            final(self).extensions@ == old(self).extensions@.push(
                LoadedExtension::ManifestFile { manifest },
            ),
    {
        self.extensions.push(LoadedExtension::ManifestFile { manifest });
    }

    /// Records a built-in extension, with the handle of its constructor.
    pub fn register_builtin(&mut self, info: ManifestInfo, plugin: u64)
        ensures
            final(self).extensions@ == old(self).extensions@.push(
                LoadedExtension::ManifestBuiltin { info, plugin },
            ),
    {
        self.extensions.push(LoadedExtension::ManifestBuiltin { info, plugin });
    }
}

} // verus!
