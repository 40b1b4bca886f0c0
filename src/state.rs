use vstd::prelude::*;

use crate::extensions::{
    declares, find_manifest, find_runtime, instance_plugins, manifest_ids, runs_as,
    ExtensionInfo, ExtensionsManager, LoadedExtension, ManifestInfo, PluginHandle,
};

use crate::registry::{
    find_fs, fs_lookup, server_map, server_values, unique_names, upsert_server, FsHandle,
    LanguageServer, LOCAL_FS,
};
use crate::state_data::{same_contents, same_strings, StateData};

verus! {

/// Failures of extension lookups.
#[derive(Debug, PartialEq, Eq, Structural)]
pub enum ExtensionErrors {
    ExtensionNotFound,
}

/// Errors reported by a state.
#[derive(Debug, PartialEq, Eq, Structural)]
pub enum Errors {
    Ext(ExtensionErrors),
}

/// `r` answers a lookup whose match is `found`: the value found, or
/// `ExtensionNotFound` when there is none.
pub open spec fn found_or_not<T>(r: Result<T, Errors>, found: Option<T>) -> bool {
    match found {
        Some(v) => r == Ok::<T, Errors>(v),
        None => r == Err::<T, Errors>(Errors::Ext(ExtensionErrors::ExtensionNotFound)),
    }
}

/// What is to be done with the persistence backend after an update.
#[derive(Debug, PartialEq, Eq, Structural)]
pub enum Persist {
    /// The views or the commands changed: save the merged data.
    Save,
    /// Nothing that is persisted changed: do not save.
    Unchanged,
    /// The state has no persistence backend: nothing can be saved, which
    /// deserves a warning.
    NoPersistor,
}

/// The outcome of an update, given whether a backend is configured and
/// whether the persisted fields changed.
pub open spec fn persist_decision(has_persistor: bool, changed: bool) -> Persist {
    if !has_persistor {
        Persist::NoPersistor
    } else if changed {
        Persist::Save
    } else {
        Persist::Unchanged
    }
}

/// The tokens of a state, as character sequences.
pub open spec fn token_views(tokens: Seq<String>) -> Seq<Seq<char>> {
    tokens.map_values(|t: String| t@)
}

/// A token grants access exactly when it was added: after adding `t`, a
/// token is accepted iff it is `t` or was accepted before.
pub proof fn law_token_added(before: Seq<String>, after: Seq<String>, t: String, q: Seq<char>)
    requires
        token_views(after) == token_views(before).push(t@),
    ensures
        token_views(after).contains(q) <==> (q == t@ || token_views(before).contains(q)),
{
    let b = token_views(before);
    if token_views(after).contains(q) && q != t@ {
        let j = choose|j: int| 0 <= j < b.push(t@).len() && b.push(t@)[j] == q;
        assert(b[j] == q);
    }
    if q == t@ {
        assert(b.push(t@)[b.len() as int] == q);
    }
    if b.contains(q) {
        let j = choose|j: int| 0 <= j < b.len() && b[j] == q;
        assert(b.push(t@)[j] == q);
    }
}

/// A state without tokens accepts none, the empty token included.
pub proof fn law_no_token_accepted(tokens: Seq<String>, q: Seq<char>)
    requires
        tokens.len() == 0,
    ensures
        !token_views(tokens).contains(q),
{
}

/// A state: the extensions, the persisted data and the side tables of one session.
#[derive(Debug)]
pub struct State {
    /// Storage backends by name; the latest registration of a name wins.
    pub filesystems: Vec<(String, FsHandle)>,
    pub extensions_manager: ExtensionsManager,
    /// Whether a persistence backend is attached.
    pub has_persistor: bool,
    pub data: StateData,
    pub tokens: Vec<String>,
    pub language_servers: Vec<(String, LanguageServer)>,
}

impl Default for State {
    /// A state with the local filesystem as its one storage backend, no
    /// extension, no token, no language server, and no persistence.
    fn default() -> (r: Self)
        ensures
            r.filesystems@.len() == 1,
            r.filesystems@[0].0@ == seq!['l', 'o', 'c', 'a', 'l'],
            r.filesystems@[0].1 == LOCAL_FS,
            r.extensions_manager.extensions@.len() == 0,
            !r.has_persistor,
            r.data.id == 0,
            r.data.views@.len() == 0,
            r.data.commands@.len() == 0,
            r.tokens@.len() == 0,
            r.language_servers@.len() == 0,
    {
        let mut filesystems: Vec<(String, FsHandle)> = Vec::new();
        let local = "local".to_string();
        proof {
            reveal_strlit("local");
        }
        filesystems.push((local, LOCAL_FS));
        State {
            filesystems,
            extensions_manager: ExtensionsManager::new(),
            has_persistor: false,
            data: StateData::default(),
            tokens: Vec::new(),
            language_servers: Vec::new(),
        }
    }
}

impl State {
    /// The language servers are registered under distinct names.
    pub open spec fn well_formed(&self) -> bool {
        unique_names(self.language_servers@)
    }

    /// A state whose data was loaded from its persistence backend, with the
    /// session id `id` laid over the loaded one.
    pub fn new(id: u8, extensions_manager: ExtensionsManager, loaded: StateData) -> (r: Self)
        ensures
            r.well_formed(),
            r.has_persistor,
            r.data.id == id,
            r.data.views == loaded.views,
            r.data.commands == loaded.commands,
            r.extensions_manager == extensions_manager,
            r.filesystems@.len() == 1,
            r.filesystems@[0].0@ == seq!['l', 'o', 'c', 'a', 'l'],
            r.filesystems@[0].1 == LOCAL_FS,
            r.tokens@.len() == 0,
            r.language_servers@.len() == 0,
    {
        let base = State::default();
        State {
            data: StateData { id, views: loaded.views, commands: loaded.commands },
            extensions_manager,
            has_persistor: true,
            ..base
        }
    }

    /// Retrieves the storage backend registered under `filesystem`.
    pub fn get_fs_by_name(&self, filesystem: &str) -> (r: Option<FsHandle>)
        ensures
            r == fs_lookup(self.filesystems@, filesystem@),
    {
        find_fs(&self.filesystems, filesystem)
    }

    /// Registers a storage backend under `name`, replacing any earlier one.
    pub fn register_fs(&mut self, name: String, handle: FsHandle)
        ensures
            forall|n: Seq<char>|
                fs_lookup(final(self).filesystems@, n) == if n == name@ {
                    Some(handle)
                } else {
                    fs_lookup(old(self).filesystems@, n)
                },
            final(self).extensions_manager == old(self).extensions_manager,
            final(self).has_persistor == old(self).has_persistor,
            final(self).data == old(self).data,
            final(self).tokens == old(self).tokens,
            final(self).language_servers == old(self).language_servers,
    {
        let ghost before = self.filesystems@;
        self.filesystems.push((name, handle));
        assert(self.filesystems@.drop_last() =~= before);
    }

    /// Whether `token` grants access to this state.
    pub fn has_token(&self, token: &str) -> (r: bool)
        ensures
            r == token_views(self.tokens@).contains(token@),
    {
        let wanted = token.to_string();
        let mut i: usize = 0;
        while i < self.tokens.len()
            invariant
                0 <= i <= self.tokens@.len(),
                wanted@ == token@,
                forall|j: int| 0 <= j < i ==> self.tokens@[j]@ != token@,
            decreases self.tokens@.len() - i,
        {
            if self.tokens[i] == wanted {
                assert(token_views(self.tokens@)[i as int] == token@);
                return true;
            }
            i = i + 1;
        }
        false
    }

    /// Grants access to this state with `token`.
    pub fn add_token(&mut self, token: String)
        ensures
            token_views(final(self).tokens@) == token_views(old(self).tokens@).push(token@),
            final(self).filesystems == old(self).filesystems,
            final(self).extensions_manager == old(self).extensions_manager,
            final(self).has_persistor == old(self).has_persistor,
            final(self).data == old(self).data,
            final(self).language_servers == old(self).language_servers,
    {
        let ghost before = self.tokens@;
        self.tokens.push(token);
        assert(token_views(self.tokens@) =~= token_views(before).push(token@));
    }

    /// Merges `new_data` into the live data: the views and the commands are
    /// taken from `new_data`, the session id is kept. The result says whether
    /// the merged data is to be saved: only when the views or the commands
    /// changed and a persistence backend is attached.
    pub fn update(&mut self, new_data: StateData) -> (r: Persist)
        ensures
            final(self).data.id == old(self).data.id,
            final(self).data.views == new_data.views,
            final(self).data.commands == new_data.commands,
            r == persist_decision(old(self).has_persistor, !same_contents(old(self).data, new_data)),
            final(self).filesystems == old(self).filesystems,
            final(self).extensions_manager == old(self).extensions_manager,
            final(self).has_persistor == old(self).has_persistor,
            final(self).tokens == old(self).tokens,
            final(self).language_servers == old(self).language_servers,
    {
        let mut any_diff = false;
        if !same_strings(&self.data.views, &new_data.views) {
            any_diff = true;
        }
        if !same_strings(&self.data.commands, &new_data.commands) {
            any_diff = true;
        }
        self.data = StateData { id: self.data.id, views: new_data.views, commands: new_data.commands };
        if !self.has_persistor {
            Persist::NoPersistor
        } else if any_diff {
            Persist::Save
        } else {
            Persist::Unchanged
        }
    }

    /// Registers each language server of `language_servers` under its name,
    /// replacing the ones registered before under the same names.
    pub fn register_language_servers(&mut self, language_servers: Vec<(String, LanguageServer)>)
        requires
            old(self).well_formed(),
        ensures
            final(self).well_formed(),
            server_map(final(self).language_servers@) == server_map(
                old(self).language_servers@,
            ).union_prefer_right(server_map(language_servers@)),
            final(self).filesystems == old(self).filesystems,
            final(self).extensions_manager == old(self).extensions_manager,
            final(self).has_persistor == old(self).has_persistor,
            final(self).data == old(self).data,
            final(self).tokens == old(self).tokens,
    {
        let ghost start = server_map(self.language_servers@);
        let ghost all = language_servers@;
        let mut n: usize = 0;
        assert(all.take(0) =~= Seq::<(String, LanguageServer)>::empty());
        while n < language_servers.len()
            invariant
                self.well_formed(),
                all == language_servers@,
                0 <= n <= all.len(),
                server_map(self.language_servers@) == start.union_prefer_right(
                    server_map(all.take(n as int)),
                ),
                self.filesystems == old(self).filesystems,
                self.extensions_manager == old(self).extensions_manager,
                self.has_persistor == old(self).has_persistor,
                self.data == old(self).data,
                self.tokens == old(self).tokens,
            decreases all.len() - n,
        {
            let name = language_servers[n].0.clone();
            let server = language_servers[n].1.clone();
            assert(all.take(n + 1).drop_last() =~= all.take(n as int));
            upsert_server(&mut self.language_servers, name, server);
            assert(server_map(self.language_servers@) =~= start.union_prefer_right(
                server_map(all.take(n + 1)),
            ));
            n = n + 1;
        }
        assert(all.take(n as int) =~= all);
    }

    /// The registered language servers, in registration order.
    pub fn get_all_language_servers(&self) -> (r: Vec<LanguageServer>)
        ensures
            r@ == server_values(self.language_servers@),
    {
        let mut out: Vec<LanguageServer> = Vec::new();
        let mut i: usize = 0;
        while i < self.language_servers.len()
            invariant
                0 <= i <= self.language_servers@.len(),
                out@ == server_values(self.language_servers@.take(i as int)),
            decreases self.language_servers@.len() - i,
        {
            out.push(self.language_servers[i].1.clone());
            assert(out@ =~= server_values(self.language_servers@.take(i + 1)));
            i = i + 1;
        }
        assert(self.language_servers@.take(i as int) =~= self.language_servers@);
        out
    }
    /// Retrieves the manifest information of the first manifest record
    /// (builtin or file) that declares `ext_id`; running instances are not
    /// consulted.
    pub fn get_ext_info_by_id(&self, ext_id: &str) -> (r: Result<ManifestInfo, Errors>)
        ensures
            found_or_not(r, find_manifest(self.extensions_manager.extensions@, ext_id@)),
    {
        let extensions = &self.extensions_manager.extensions;
        let id = ext_id.to_string();
        let mut i: usize = 0;
        assert(extensions@.skip(0) =~= extensions@);
        while i < extensions.len()
            invariant
                extensions@ == self.extensions_manager.extensions@,
                0 <= i <= extensions@.len(),
                id@ == ext_id@,
                find_manifest(extensions@, id@) == find_manifest(extensions@.skip(i as int), id@),
            decreases extensions@.len() - i,
        {
            assert(extensions@.skip(i as int).drop_first() =~= extensions@.skip(i + 1));
            assert(extensions@.skip(i as int)[0] == extensions@[i as int]);
            match &extensions[i] {
                LoadedExtension::ManifestFile { manifest } => {
                    if manifest.info.extension.id == id {
                        assert(declares(extensions@.skip(i as int)[0], id@));
                        return Ok(manifest.info.clone());
                    }
                },
                LoadedExtension::ManifestBuiltin { info } => {
                    if info.extension.id == id {
                        assert(declares(extensions@.skip(i as int)[0], id@));
                        return Ok(info.clone());
                    }
                },
                LoadedExtension::ExtensionInstance { .. } => {},
            }
            i = i + 1;
        }
        Err(Errors::Ext(ExtensionErrors::ExtensionNotFound))
    }

    /// Retrieves the runtime information of the first running instance whose
    /// own id (not its parent's) is `ext_id`.
    pub fn get_ext_run_info_by_id(&self, ext_id: &str) -> (r: Result<ExtensionInfo, Errors>)
        ensures
            found_or_not(r, find_runtime(self.extensions_manager.extensions@, ext_id@)),
    {
        let extensions = &self.extensions_manager.extensions;
        let id = ext_id.to_string();
        let mut i: usize = 0;
        assert(extensions@.skip(0) =~= extensions@);
        while i < extensions.len()
            invariant
                extensions@ == self.extensions_manager.extensions@,
                0 <= i <= extensions@.len(),
                id@ == ext_id@,
                find_runtime(extensions@, id@) == find_runtime(extensions@.skip(i as int), id@),
            decreases extensions@.len() - i,
        {
            assert(extensions@.skip(i as int).drop_first() =~= extensions@.skip(i + 1));
            assert(extensions@.skip(i as int)[0] == extensions@[i as int]);
            if let LoadedExtension::ExtensionInstance { info, .. } = &extensions[i] {
                if info.id == id {
                    assert(runs_as(extensions@.skip(i as int)[0], id@));
                    return Ok(info.clone());
                }
            }
            i = i + 1;
        }
        Err(Errors::Ext(ExtensionErrors::ExtensionNotFound))
    }

    /// Lists the ids declared by the manifest records, in catalog order.
    pub fn get_ext_list_by_id(&self) -> (r: Vec<String>)
        ensures
            r.deep_view() == manifest_ids(self.extensions_manager.extensions@),
    {
        let extensions = &self.extensions_manager.extensions;
        let mut ids: Vec<String> = Vec::new();
        let mut i: usize = 0;
        while i < extensions.len()
            invariant
                extensions@ == self.extensions_manager.extensions@,
                0 <= i <= extensions@.len(),
                ids.deep_view() == manifest_ids(extensions@.take(i as int)),
            decreases extensions@.len() - i,
        {
            assert(extensions@.take(i + 1).drop_last() =~= extensions@.take(i as int));
            let ghost before = ids.deep_view();
            match &extensions[i] {
                LoadedExtension::ManifestBuiltin { info } => {
                    ids.push(info.extension.id.clone());
                },
                LoadedExtension::ManifestFile { manifest } => {
                    ids.push(manifest.info.extension.id.clone());
                },
                LoadedExtension::ExtensionInstance { .. } => {},
            }
            assert(ids.deep_view() =~= manifest_ids(extensions@.take(i + 1)));
            i = i + 1;
        }
        assert(extensions@.take(extensions@.len() as int) =~= extensions@);
        ids
    }

    /// The plugins of the running instances selected by `parent` (all of
    /// them when `parent` is `None`), in catalog order.
    fn select_plugins(&self, parent: Option<&str>) -> (r: Vec<PluginHandle>)
        ensures
            r@ == instance_plugins(
                self.extensions_manager.extensions@,
                match parent {
                    Some(p) => Some(p@),
                    None => None,
                },
            ),
    {
        let extensions = &self.extensions_manager.extensions;
        let ghost want = match parent {
            Some(p) => Some(p@),
            None => None,
        };
        let wanted: Option<String> = match parent {
            Some(p) => Some(p.to_string()),
            None => None,
        };
        let mut plugins: Vec<PluginHandle> = Vec::new();
        let mut i: usize = 0;
        while i < extensions.len()
            invariant
                extensions@ == self.extensions_manager.extensions@,
                0 <= i <= extensions@.len(),
                want == match wanted {
                    Some(p) => Some(p@),
                    None => None::<Seq<char>>,
                },
                plugins@ == instance_plugins(extensions@.take(i as int), want),
            decreases extensions@.len() - i,
        {
            assert(extensions@.take(i + 1).drop_last() =~= extensions@.take(i as int));
            if let LoadedExtension::ExtensionInstance { plugin, parent_id, .. } = &extensions[i] {
                let selected = match &wanted {
                    Some(p) => *parent_id == *p,
                    None => true,
                };
                if selected {
                    plugins.push(*plugin);
                }
            }
            assert(plugins@ =~= instance_plugins(extensions@.take(i + 1), want));
            i = i + 1;
        }
        assert(extensions@.take(extensions@.len() as int) =~= extensions@);
        plugins
    }

    /// The plugins to reset, unload then init one after the other: every
    /// running instance, in catalog order.
    pub fn run_extensions(&self) -> (r: Vec<PluginHandle>)
        ensures
            r@ == instance_plugins(self.extensions_manager.extensions@, None),
    {
        self.select_plugins(None)
    }

    /// The plugins that receive a message addressed to the extension
    /// `extension_id`: each running instance whose parent is that extension.
    pub fn notify_extension(&self, extension_id: &str) -> (r: Vec<PluginHandle>)
        ensures
            r@ == instance_plugins(self.extensions_manager.extensions@, Some(extension_id@)),
    {
        self.select_plugins(Some(extension_id))
    }

    /// The plugins that receive a message sent to every extension: each
    /// running instance.
    pub fn notify_extensions(&self) -> (r: Vec<PluginHandle>)
        ensures
            r@ == instance_plugins(self.extensions_manager.extensions@, None),
    {
        self.select_plugins(None)
    }
}

} // verus!
