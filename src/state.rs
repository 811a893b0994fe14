use vstd::prelude::*;

use crate::data::StateData;
use crate::extensions::{
    instance_plugins, is_first_instance, is_first_manifest, lemma_first_instance_unique,
    lemma_first_manifest_unique, manifest_id_is, manifest_ids, manifest_lookup, runtime_id_is,
    runtime_lookup, Errors, ExtensionErrors, ExtensionInfo, ExtensionsManager, LoadedExtension,
    ManifestInfo,
};
use crate::registry::Registry;

verus! {

/// Handle of the local filesystem that every default state mounts.
pub const LOCAL_FILESYSTEM: u64 = 0;

/// The name under which the local filesystem is mounted.
pub open spec fn local_name() -> Seq<char> {
    seq!['l', 'o', 'c', 'a', 'l']
}

/// A language server registered with a state.
#[derive(Clone, Debug, PartialEq)]
pub struct LanguageServer {
    pub name: String,
    pub extension_id: String,
}

impl LanguageServer {
    /// A field-by-field copy.
    pub fn duplicate(&self) -> (r: LanguageServer)
        ensures
            r == *self,
    {
        LanguageServer { name: self.name.clone(), extension_id: self.extension_id.clone() }
    }
}

/// What `update` did with a new payload.
#[derive(Clone, Copy, Debug, PartialEq, Eq, Structural)]
pub enum UpdateOutcome {
    /// The payload differed and a persistor exists: it is to be saved, and it
    /// became the current data.
    Save,
    /// The payload equals the current data: nothing to do.
    Unchanged,
    /// No persistor: the payload was discarded.
    NoPersistor,
}

/// The outcome that a payload `new_data` has on data `cur` with or without
/// a persistor.
pub open spec fn outcome_of(has_persistor: bool, cur: StateData, new_data: StateData) -> UpdateOutcome {
    if !has_persistor {
        UpdateOutcome::NoPersistor
    } else if new_data.same_as(&cur) {
        UpdateOutcome::Unchanged
    } else {
        UpdateOutcome::Save
    }
}

/// The runtime context of one session.
///
/// Filesystems, persistor, terminal shell builders and terminal shells are
/// capabilities kept by the caller; the state holds their handles.
pub struct State {
    pub filesystems: Registry<u64>,
    pub extensions_manager: ExtensionsManager,
    pub persistor: Option<u64>,
    pub data: StateData,
    pub tokens: Vec<String>,
    pub language_servers: Registry<LanguageServer>,
    pub terminal_shell_builders: Registry<u64>,
    pub terminal_shells: Registry<u64>,
}

impl State {
    /// Every registry keeps its names unique.
    pub open spec fn wf(&self) -> bool {
        &&& self.filesystems.wf()
        &&& self.language_servers.wf()
        &&& self.terminal_shell_builders.wf()
        &&& self.terminal_shells.wf()
    }

    pub open spec fn exts(&self) -> Seq<LoadedExtension> {
        self.extensions_manager.extensions@
    }

    /// The tokens as plain character sequences.
    pub open spec fn token_views(&self) -> Seq<Seq<char>> {
        self.tokens@.map_values(|t: String| t@)
    }
}

impl Default for State {
    /// Mounts the local filesystem under "local"; no extensions, no
    /// persistor, empty data, tokens and registries.
    fn default() -> (r: State)
        ensures
            r.wf(),
            r.filesystems@ == map![local_name() => LOCAL_FILESYSTEM],
            r.exts().len() == 0,
            r.persistor is None,
            r.data.id == 0,
            r.data.views@.len() == 0,
            r.tokens@.len() == 0,
            r.language_servers@ == Map::<Seq<char>, LanguageServer>::empty(),
            r.terminal_shell_builders@ == Map::<Seq<char>, u64>::empty(),
            r.terminal_shells@ == Map::<Seq<char>, u64>::empty(),
    {
        let mut filesystems = Registry::new();
        let local = "local".to_owned();
        proof {
            reveal_strlit("local");
            assert(local@ =~= local_name());
        }
        filesystems.insert(local, LOCAL_FILESYSTEM);
        assert(filesystems@ =~= map![local_name() => LOCAL_FILESYSTEM]);
        State {
            filesystems,
            extensions_manager: ExtensionsManager::default(),
            persistor: None,
            data: StateData::empty(),
            tokens: Vec::new(),
            language_servers: Registry::new(),
            terminal_shell_builders: Registry::new(),
            terminal_shells: Registry::new(),
        }
    }
}

impl State {
    /// A durable state: `loaded` is what the persistor with handle
    /// `persistor` loaded; its id is replaced by `id`.
    pub fn new(id: u8, extensions_manager: ExtensionsManager, persistor: u64, loaded: StateData) -> (r: State)
        ensures
            r.wf(),
            r.data.id == id,
            r.data.views == loaded.views,
            r.exts() == extensions_manager.extensions@,
            r.persistor == Some(persistor),
            r.filesystems@ == map![local_name() => LOCAL_FILESYSTEM],
            r.tokens@.len() == 0,
            r.language_servers@ == Map::<Seq<char>, LanguageServer>::empty(),
            r.terminal_shell_builders@ == Map::<Seq<char>, u64>::empty(),
            r.terminal_shells@ == Map::<Seq<char>, u64>::empty(),
    {
        let base = State::default();
        State {
            data: StateData { id, views: loaded.views },
            extensions_manager,
            persistor: Some(persistor),
            ..base
        }
    }

    /// The handle of the filesystem mounted under `filesystem`.
    pub fn get_fs_by_name(&self, filesystem: &str) -> (r: Option<u64>)
        requires
            self.wf(),
        ensures
            r == (if self.filesystems@.contains_key(filesystem@) {
                Some(self.filesystems@[filesystem@])
            } else {
                None
            }),
    {
        match self.filesystems.get(filesystem) {
            Some(h) => Some(*h),
            None => None,
        }
    }

    /// Whether `token` is one of the state's tokens, compared exactly.
    pub fn has_token(&self, token: &str) -> (r: bool)
        ensures
            r == self.token_views().contains(token@),
    {
        let wanted = token.to_owned();
        let mut i: usize = 0;
        while i < self.tokens.len()
            invariant
                wanted@ == token@,
                i <= self.tokens@.len(),
                forall|j: int| 0 <= j < i ==> self.tokens@[j]@ != token@,
            decreases self.tokens@.len() - i,
        {
            if self.tokens[i] == wanted {
                assert(self.token_views()[i as int] == token@);
                return true;
            }
            i = i + 1;
        }
        false
    }

    /// The plugin handles of the running instances, in registration order;
    /// with `Some(p)`, only those instantiated from the manifest with id `p`.
    fn instance_handles(&self, parent: Option<&str>) -> (r: Vec<u64>)
        ensures
            r@ == instance_plugins(
                self.exts(),
                match parent {
                    Some(p) => Some(p@),
                    None => None,
                },
            ),
    {
        let ghost want = match parent {
            Some(p) => Some(p@),
            None => None,
        };
        let wanted: Option<String> = match parent {
            Some(p) => Some(p.to_owned()),
            None => None,
        };
        let exts = &self.extensions_manager.extensions;
        let mut r: Vec<u64> = Vec::new();
        let mut i: usize = 0;
        while i < exts.len()
            invariant
                i <= exts@.len(),
                exts@ == self.exts(),
                want == match wanted {
                    Some(w) => Some(w@),
                    None => None::<Seq<char>>,
                },
                r@ == instance_plugins(exts@.subrange(0, i as int), want),
            decreases exts@.len() - i,
        {
            proof {
                assert(exts@.subrange(0, i + 1).drop_last() =~= exts@.subrange(0, i as int));
            }
            if let LoadedExtension::ExtensionInstance { plugin, parent_id, .. } = &exts[i] {
                let selected = match &wanted {
                    Some(w) => *parent_id == *w,
                    None => true,
                };
                if selected {
                    r.push(*plugin);
                }
            }
            i = i + 1;
        }
        assert(exts@.subrange(0, exts@.len() as int) =~= exts@);
        r
    }

    /// The plugins to start, in registration order: the caller unloads, then
    /// inits each running instance, one after the other.
    pub fn run_extensions(&self) -> (r: Vec<u64>)
        ensures
            r@ == instance_plugins(self.exts(), None),
    {
        self.instance_handles(None)
    }

    /// The plugins to which a message for extension `extension_id` goes: the
    /// running instances instantiated from that manifest, in registration order.
    pub fn notify_extension(&self, extension_id: &str) -> (r: Vec<u64>)
        ensures
            r@ == instance_plugins(self.exts(), Some(extension_id@)),
    {
        self.instance_handles(Some(extension_id))
    }

    /// The plugins to which a broadcast message goes: every running
    /// instance, in registration order.
    pub fn notify_extensions(&self) -> (r: Vec<u64>)
        ensures
            r@ == instance_plugins(self.exts(), None),
    {
        self.instance_handles(None)
    }

    /// The manifest info of the first manifest-bearing entry whose extension
    /// id is `ext_id`.
    pub fn get_ext_info_by_id(&self, ext_id: &str) -> (r: Result<ManifestInfo, Errors>)
        ensures
            r == manifest_lookup(self.exts(), ext_id@),
    {
        let wanted = ext_id.to_owned();
        let exts = &self.extensions_manager.extensions;
        let mut i: usize = 0;
        while i < exts.len()
            invariant
                wanted@ == ext_id@,
                exts@ == self.exts(),
                i <= exts@.len(),
                forall|j: int| 0 <= j < i ==> !manifest_id_is(exts@[j], ext_id@),
            decreases exts@.len() - i,
        {
            let found = match &exts[i] {
                LoadedExtension::ManifestFile { manifest } => {
                    if manifest.info.extension.id == wanted {
                        Some(manifest.info.duplicate())
                    } else {
                        None
                    }
                },
                LoadedExtension::ManifestBuiltin { info, .. } => {
                    if info.extension.id == wanted {
                        Some(info.duplicate())
                    } else {
                        None
                    }
                },
                LoadedExtension::ExtensionInstance { .. } => None,
            };
            if let Some(info) = found {
                proof {
                    assert(is_first_manifest(exts@, ext_id@, i as int));
                    let k = choose|k: int| is_first_manifest(exts@, ext_id@, k);
                    lemma_first_manifest_unique(exts@, ext_id@, i as int, k);
                }
                return Ok(info);
            }
            i = i + 1;
        }
        Err(Errors::Ext(ExtensionErrors::ExtensionNotFound))
    }

    /// The runtime info of the first running instance whose runtime id is
    /// `ext_id`.
    pub fn get_ext_run_info_by_id(&self, ext_id: &str) -> (r: Result<ExtensionInfo, Errors>)
        ensures
            r == runtime_lookup(self.exts(), ext_id@),
    {
        let wanted = ext_id.to_owned();
        let exts = &self.extensions_manager.extensions;
        let mut i: usize = 0;
        while i < exts.len()
            invariant
                wanted@ == ext_id@,
                exts@ == self.exts(),
                i <= exts@.len(),
                forall|j: int| 0 <= j < i ==> !runtime_id_is(exts@[j], ext_id@),
            decreases exts@.len() - i,
        {
            if let LoadedExtension::ExtensionInstance { info, .. } = &exts[i] {
                if info.id == wanted {
                    proof {
                        assert(is_first_instance(exts@, ext_id@, i as int));
                        let k = choose|k: int| is_first_instance(exts@, ext_id@, k);
                        lemma_first_instance_unique(exts@, ext_id@, i as int, k);
                    }
                    return Ok(info.duplicate());
                }
            }
            i = i + 1;
        }
        Err(Errors::Ext(ExtensionErrors::ExtensionNotFound))
    }

    /// The manifest ids of the manifest-bearing entries, in registration order.
    pub fn get_ext_list_by_id(&self) -> (r: Vec<String>)
        ensures
            r@ == manifest_ids(self.exts()),
    {
        let exts = &self.extensions_manager.extensions;
        let mut r: Vec<String> = Vec::new();
        let mut i: usize = 0;
        while i < exts.len()
            invariant
                i <= exts@.len(),
                exts@ == self.exts(),
                r@ == manifest_ids(exts@.subrange(0, i as int)),
            decreases exts@.len() - i,
        {
            proof {
                assert(exts@.subrange(0, i + 1).drop_last() =~= exts@.subrange(0, i as int));
            }
            match &exts[i] {
                LoadedExtension::ManifestBuiltin { info, .. } => {
                    r.push(info.extension.id.clone());
                },
                LoadedExtension::ManifestFile { manifest } => {
                    r.push(manifest.info.extension.id.clone());
                },
                LoadedExtension::ExtensionInstance { .. } => {},
            }
            i = i + 1;
        }
        assert(exts@.subrange(0, exts@.len() as int) =~= exts@);
        r
    }
}

impl State {
    /// What `update` would do with `new_data`, without doing it. The caller
    /// saves `new_data` through the persistor exactly when this is `Save`.
    pub fn update_outcome(&self, new_data: &StateData) -> (r: UpdateOutcome)
        ensures
            r == outcome_of(self.persistor is Some, self.data, *new_data),
    {
        if self.persistor.is_none() {
            UpdateOutcome::NoPersistor
        } else if *new_data == self.data {
            UpdateOutcome::Unchanged
        } else {
            UpdateOutcome::Save
        }
    }

    /// Makes `new_data` the current data when it differs from it and a
    /// persistor exists; otherwise leaves the data as it was.
    pub fn update(&mut self, new_data: StateData) -> (r: UpdateOutcome)
        ensures
            r == outcome_of(old(self).persistor is Some, old(self).data, new_data),
            final(self).data == (if r == UpdateOutcome::Save {
                new_data
            } else {
                old(self).data
            }),
            final(self).persistor == old(self).persistor,
            final(self).filesystems == old(self).filesystems,
            final(self).extensions_manager == old(self).extensions_manager,
            final(self).tokens == old(self).tokens,
            final(self).language_servers == old(self).language_servers,
            final(self).terminal_shell_builders == old(self).terminal_shell_builders,
            final(self).terminal_shells == old(self).terminal_shells,
    {
        let outcome = self.update_outcome(&new_data);
        if let UpdateOutcome::Save = outcome {
            self.data = new_data;
        }
        outcome
    }

    /// Registers `language_servers`; on a name already present the new
    /// server wins.
    pub fn register_language_servers(&mut self, language_servers: Registry<LanguageServer>)
        requires
            old(self).wf(),
            language_servers.wf(),
        ensures
            final(self).wf(),
            final(self).language_servers@ == old(self).language_servers@.union_prefer_right(
                language_servers@,
            ),
            final(self).filesystems == old(self).filesystems,
            final(self).terminal_shell_builders == old(self).terminal_shell_builders,
            final(self).terminal_shells == old(self).terminal_shells,
            final(self).data == old(self).data,
    {
        let n = language_servers.len();
        let mut i: usize = 0;
        proof {
            language_servers.lemma_view();
        }
        while i < n
            invariant
                n == language_servers.keys().len(),
                n == language_servers.values().len(),
                i <= n,
                language_servers.wf(),
                self.wf(),
                forall|j: int|
                    0 <= j < n ==> language_servers@.contains_key(
                        #[trigger] language_servers.keys()[j],
                    ) && language_servers@[language_servers.keys()[j]]
                        == language_servers.values()[j],
                forall|k: Seq<char>| #[trigger]
                    language_servers@.contains_key(k) <==> language_servers.keys().contains(k),
                self.language_servers@ == old(self).language_servers@.union_prefer_right(
                    language_servers@.restrict(language_servers.keys().subrange(0, i as int).to_set()),
                ),
                self.filesystems == old(self).filesystems,
                self.terminal_shell_builders == old(self).terminal_shell_builders,
                self.terminal_shells == old(self).terminal_shells,
                self.data == old(self).data,
            decreases n - i,
        {
            let name = language_servers.key_at(i).clone();
            let server = language_servers.value_at(i).duplicate();
            self.language_servers.insert(name, server);
            proof {
                let ks = language_servers.keys();
                assert(ks.subrange(0, i + 1).to_set() =~= ks.subrange(0, i as int).to_set().insert(ks[i as int])) by {
                    assert forall|x: Seq<char>| ks.subrange(0, i + 1).to_set().contains(x) implies ks.subrange(0, i as int).to_set().insert(ks[i as int]).contains(x) by {
                        let j = choose|j: int| 0 <= j < i + 1 && #[trigger] ks.subrange(0, i + 1)[j] == x;
                        if j < i {
                            assert(ks.subrange(0, i as int)[j] == x);
                        }
                    }
                    assert forall|x: Seq<char>| ks.subrange(0, i as int).to_set().contains(x) implies ks.subrange(0, i + 1).to_set().contains(x) by {
                        let j = choose|j: int| 0 <= j < i && #[trigger] ks.subrange(0, i as int)[j] == x;
                        assert(ks.subrange(0, i + 1)[j] == x);
                    }
                    assert(ks.subrange(0, i + 1)[i as int] == ks[i as int]);
                }
                assert(self.language_servers@ =~= old(self).language_servers@.union_prefer_right(
                    language_servers@.restrict(ks.subrange(0, i + 1).to_set()),
                ));
            }
            i = i + 1;
        }
        proof {
            let ks = language_servers.keys();
            assert(ks.subrange(0, n as int) =~= ks);
            assert(language_servers@.restrict(ks.to_set()) =~= language_servers@);
        }
    }

    /// Every registered language server, in registration order.
    pub fn get_all_language_servers(&self) -> (r: Vec<LanguageServer>)
        ensures
            r@ == self.language_servers.values(),
    {
        let n = self.language_servers.len();
        let mut r: Vec<LanguageServer> = Vec::new();
        let mut i: usize = 0;
        while i < n
            invariant
                n == self.language_servers.values().len(),
                i <= n,
                r@ == self.language_servers.values().subrange(0, i as int),
            decreases n - i,
        {
            r.push(self.language_servers.value_at(i).duplicate());
            assert(r@ =~= self.language_servers.values().subrange(0, i + 1));
            i = i + 1;
        }
        assert(r@ =~= self.language_servers.values());
        r
    }

    /// The handles of the registered terminal shell builders, in
    /// registration order; the caller asks each for its info.
    pub fn get_terminal_shell_builders(&self) -> (r: Vec<u64>)
        ensures
            r@ == self.terminal_shell_builders.values(),
    {
        let n = self.terminal_shell_builders.len();
        let mut r: Vec<u64> = Vec::new();
        let mut i: usize = 0;
        while i < n
            invariant
                n == self.terminal_shell_builders.values().len(),
                i <= n,
                r@ == self.terminal_shell_builders.values().subrange(0, i as int),
            decreases n - i,
        {
            r.push(*self.terminal_shell_builders.value_at(i));
            assert(r@ =~= self.terminal_shell_builders.values().subrange(0, i + 1));
            i = i + 1;
        }
        assert(r@ =~= self.terminal_shell_builders.values());
        r
    }

    /// The handle of the builder registered under `terminal_shell_builder_id`,
    /// which the caller asks to build a shell.
    pub fn get_terminal_shell_builder(&self, terminal_shell_builder_id: &str) -> (r: Option<u64>)
        requires
            self.wf(),
        ensures
            r == (if self.terminal_shell_builders@.contains_key(terminal_shell_builder_id@) {
                Some(self.terminal_shell_builders@[terminal_shell_builder_id@])
            } else {
                None
            }),
    {
        match self.terminal_shell_builders.get(terminal_shell_builder_id) {
            Some(h) => Some(*h),
            None => None,
        }
    }

    /// Records `shell`, built by the builder `terminal_shell_builder_id`,
    /// under `terminal_shell_id`, replacing any shell recorded there. Without
    /// such a builder nothing changes. Returns whether the shell was recorded.
    pub fn create_terminal_shell(
        &mut self,
        terminal_shell_builder_id: String,
        terminal_shell_id: String,
        shell: u64,
    ) -> (r: bool)
        requires
            old(self).wf(),
        ensures
            final(self).wf(),
            r == old(self).terminal_shell_builders@.contains_key(terminal_shell_builder_id@),
            final(self).terminal_shells@ == (if r {
                old(self).terminal_shells@.insert(terminal_shell_id@, shell)
            } else {
                old(self).terminal_shells@
            }),
            final(self).terminal_shell_builders == old(self).terminal_shell_builders,
            final(self).filesystems == old(self).filesystems,
            final(self).data == old(self).data,
    {
        if self.terminal_shell_builders.contains_key(terminal_shell_builder_id.as_str()) {
            self.terminal_shells.insert(terminal_shell_id, shell);
            true
        } else {
            false
        }
    }

    /// The handle of the shell to which data for `terminal_shell_id` is
    /// written; none when no such shell is open.
    pub fn write_to_terminal_shell(&self, terminal_shell_id: &str) -> (r: Option<u64>)
        requires
            self.wf(),
        ensures
            r == (if self.terminal_shells@.contains_key(terminal_shell_id@) {
                Some(self.terminal_shells@[terminal_shell_id@])
            } else {
                None
            }),
    {
        match self.terminal_shells.get(terminal_shell_id) {
            Some(h) => Some(*h),
            None => None,
        }
    }

    /// Forgets the shell recorded under `terminal_shell_id`, if any.
    pub fn close_terminal_shell(&mut self, terminal_shell_id: &str)
        requires
            old(self).wf(),
        ensures
            final(self).wf(),
            final(self).terminal_shells@ == old(self).terminal_shells@.remove(terminal_shell_id@),
            final(self).terminal_shell_builders == old(self).terminal_shell_builders,
            final(self).filesystems == old(self).filesystems,
            final(self).data == old(self).data,
    {
        self.terminal_shells.remove(terminal_shell_id);
    }

    /// The handle of the open shell `terminal_shell_id`, to be resized.
    pub fn resize_terminal_shell(&self, terminal_shell_id: &str) -> (r: u64)
        requires
            self.wf(),
            self.terminal_shells@.contains_key(terminal_shell_id@),
        ensures
            r == self.terminal_shells@[terminal_shell_id@],
    {
        match self.terminal_shells.get(terminal_shell_id) {
            Some(h) => *h,
            None => 0,
        }
    }
}

} // verus!
