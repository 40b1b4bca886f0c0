use vstd::prelude::*;

verus! {

/// Descriptive information about an extension: its id and its display name.
#[derive(Debug, PartialEq, Eq)]
pub struct ExtensionInfo {
    pub id: String,
    pub name: String,
}

impl Clone for ExtensionInfo {
    fn clone(&self) -> (r: Self)
        ensures
            r == *self,
    {
        ExtensionInfo { id: self.id.clone(), name: self.name.clone() }
    }
}

/// What a manifest says of the extension it describes.
#[derive(Debug, PartialEq, Eq)]
pub struct ManifestInfo {
    pub extension: ExtensionInfo,
}

impl Clone for ManifestInfo {
    fn clone(&self) -> (r: Self)
        ensures
            r == *self,
    {
        ManifestInfo { extension: self.extension.clone() }
    }
}

/// A manifest read from a file.
#[derive(Debug, PartialEq, Eq)]
pub struct Manifest {
    pub info: ManifestInfo,
}

/// Handle of a running plugin. The plugin itself is owned by the host that
/// loaded it; the catalog only refers to it.
pub type PluginHandle = u64;

/// One record of the extension catalog.
#[derive(Debug)]
#[allow(inconsistent_fields)]
pub enum LoadedExtension {
    /// A builtin manifest, known but not running.
    ManifestBuiltin { info: ManifestInfo },
    /// A manifest loaded from a file, known but not running.
    ManifestFile { manifest: Manifest },
    /// A running plugin, belonging to the extension `parent_id`.
    ExtensionInstance { plugin: PluginHandle, parent_id: String, info: ExtensionInfo },
}

/// The manifest information of a record, for the two manifest variants.
pub open spec fn manifest_of(e: LoadedExtension) -> Option<ManifestInfo> {
    match e {
        LoadedExtension::ManifestBuiltin { info } => Some(info),
        LoadedExtension::ManifestFile { manifest } => Some(manifest.info),
        LoadedExtension::ExtensionInstance { .. } => None,
    }
}

/// The record is a manifest (builtin or file) declaring the id `id`.
pub open spec fn declares(e: LoadedExtension, id: Seq<char>) -> bool {
    match manifest_of(e) {
        Some(m) => m.extension.id@ == id,
        None => false,
    }
}

/// The record is a running instance whose own id is `id`.
pub open spec fn runs_as(e: LoadedExtension, id: Seq<char>) -> bool {
    match e {
        LoadedExtension::ExtensionInstance { info, .. } => info.id@ == id,
        _ => false,
    }
}

/// The record is a running instance that belongs to the extension `parent`.
pub open spec fn instance_of(e: LoadedExtension, parent: Seq<char>) -> bool {
    match e {
        LoadedExtension::ExtensionInstance { parent_id, .. } => parent_id@ == parent,
        _ => false,
    }
}

/// The record is a running instance.
pub open spec fn is_instance(e: LoadedExtension) -> bool {
    e is ExtensionInstance
}

/// The manifest of the first record that declares `id`.
pub open spec fn find_manifest(s: Seq<LoadedExtension>, id: Seq<char>) -> Option<ManifestInfo>
    decreases s.len(),
{
    if s.len() == 0 {
        None
    } else if declares(s[0], id) {
        manifest_of(s[0])
    } else {
        find_manifest(s.drop_first(), id)
    }
}

/// The runtime information of the first running instance whose id is `id`.
pub open spec fn find_runtime(s: Seq<LoadedExtension>, id: Seq<char>) -> Option<ExtensionInfo>
    decreases s.len(),
{
    if s.len() == 0 {
        None
    } else if runs_as(s[0], id) {
        Some(s[0]->ExtensionInstance_info)
    } else {
        find_runtime(s.drop_first(), id)
    }
}

/// The ids declared by the manifest records, in catalog order.
pub open spec fn manifest_ids(s: Seq<LoadedExtension>) -> Seq<Seq<char>>
    decreases s.len(),
{
    if s.len() == 0 {
        Seq::empty()
    } else {
        let rest = manifest_ids(s.drop_last());
        match manifest_of(s.last()) {
            Some(m) => rest.push(m.extension.id@),
            None => rest,
        }
    }
}

/// The plugins of the running instances selected by `parent` (all of them
/// when `parent` is `None`), in catalog order.
pub open spec fn instance_plugins(s: Seq<LoadedExtension>, parent: Option<Seq<char>>) -> Seq<
    PluginHandle,
>
    decreases s.len(),
{
    if s.len() == 0 {
        Seq::empty()
    } else {
        let rest = instance_plugins(s.drop_last(), parent);
        let e = s.last();
        let selected = match parent {
            Some(p) => instance_of(e, p),
            None => is_instance(e),
        };
        if selected {
            rest.push(e->ExtensionInstance_plugin)
        } else {
            rest
        }
    }
}

/// Manifest ids are unique among manifest records, and instance ids among
/// running instances.
pub open spec fn unique_ids(s: Seq<LoadedExtension>) -> bool {
    &&& forall|i: int, j: int, id: Seq<char>|
        0 <= i < s.len() && 0 <= j < s.len() && declares(s[i], id) && declares(s[j], id) ==> i == j
    &&& forall|i: int, j: int, id: Seq<char>|
        0 <= i < s.len() && 0 <= j < s.len() && runs_as(s[i], id) && runs_as(s[j], id) ==> i == j
}

/// A running instance is found by its own id: when instance ids are unique,
/// looking up the id of any instance yields that instance's information.
pub proof fn law_runtime_lookup_finds_instance(s: Seq<LoadedExtension>, k: int, x: Seq<char>)
    requires
        unique_ids(s),
        0 <= k < s.len(),
        runs_as(s[k], x),
    ensures
        find_runtime(s, x) == Some(s[k]->ExtensionInstance_info),
    decreases s.len(),
{
    if k > 0 {
        let t = s.drop_first();
        assert(!runs_as(s[0], x));
        assert(t[k - 1] == s[k]);
        assert forall|i: int, j: int, id: Seq<char>|
            0 <= i < t.len() && 0 <= j < t.len() && declares(t[i], id) && declares(t[j], id)
            implies i == j by {
            assert(t[i] == s[i + 1] && t[j] == s[j + 1]);
        }
        assert forall|i: int, j: int, id: Seq<char>|
            0 <= i < t.len() && 0 <= j < t.len() && runs_as(t[i], id) && runs_as(t[j], id)
            implies i == j by {
            assert(t[i] == s[i + 1] && t[j] == s[j + 1]);
        }
        law_runtime_lookup_finds_instance(t, k - 1, x);
    }
}

/// An id that no running instance has is not found among the instances.
pub proof fn law_runtime_lookup_absent(s: Seq<LoadedExtension>, x: Seq<char>)
    requires
        forall|i: int| 0 <= i < s.len() ==> !runs_as(s[i], x),
    ensures
        find_runtime(s, x) == None::<ExtensionInfo>,
    decreases s.len(),
{
    if s.len() > 0 {
        let t = s.drop_first();
        assert(!runs_as(s[0], x));
        assert forall|i: int| 0 <= i < t.len() implies !runs_as(t[i], x) by {
            assert(t[i] == s[i + 1]);
        }
        law_runtime_lookup_absent(t, x);
    }
}

/// A manifest is found by the id it declares: when manifest ids are unique,
/// looking up that id yields the manifest's information, whatever running
/// instances the catalog holds besides.
pub proof fn law_manifest_lookup_finds_manifest(s: Seq<LoadedExtension>, k: int, y: Seq<char>)
    requires
        unique_ids(s),
        0 <= k < s.len(),
        declares(s[k], y),
    ensures
        find_manifest(s, y) == manifest_of(s[k]),
    decreases s.len(),
{
    if k > 0 {
        let t = s.drop_first();
        assert(!declares(s[0], y));
        assert(t[k - 1] == s[k]);
        assert forall|i: int, j: int, id: Seq<char>|
            0 <= i < t.len() && 0 <= j < t.len() && declares(t[i], id) && declares(t[j], id)
            implies i == j by {
            assert(t[i] == s[i + 1] && t[j] == s[j + 1]);
        }
        assert forall|i: int, j: int, id: Seq<char>|
            0 <= i < t.len() && 0 <= j < t.len() && runs_as(t[i], id) && runs_as(t[j], id)
            implies i == j by {
            assert(t[i] == s[i + 1] && t[j] == s[j + 1]);
        }
        law_manifest_lookup_finds_manifest(t, k - 1, y);
    }
}

/// The listed ids are exactly the ids that manifest records declare; ids of
/// running instances alone are not listed.
pub proof fn law_listed_ids(s: Seq<LoadedExtension>, id: Seq<char>)
    ensures
        manifest_ids(s).contains(id) <==> exists|i: int| 0 <= i < s.len() && declares(s[i], id),
    decreases s.len(),
{
    if s.len() > 0 {
        let t = s.drop_last();
        law_listed_ids(t, id);
        let rest = manifest_ids(t);
        if manifest_ids(s).contains(id) {
            if declares(s.last(), id) {
                assert(declares(s[s.len() - 1], id));
            } else {
                if let Some(m) = manifest_of(s.last()) {
                    let j = choose|j: int| 0 <= j < rest.push(m.extension.id@).len() && rest.push(m.extension.id@)[j] == id;
                    assert(j < rest.len());
                    assert(rest.contains(id));
                }
                let i = choose|i: int| 0 <= i < t.len() && declares(t[i], id);
                assert(s[i] == t[i]);
            }
        }
        if exists|i: int| 0 <= i < s.len() && declares(s[i], id) {
            let i = choose|i: int| 0 <= i < s.len() && declares(s[i], id);
            if i == s.len() - 1 {
                let m = manifest_of(s.last())->Some_0;
                assert(manifest_ids(s) == rest.push(m.extension.id@));
                assert(manifest_ids(s)[rest.len() as int] == id);
            } else {
                assert(t[i] == s[i]);
                let j = choose|j: int| 0 <= j < rest.len() && rest[j] == id;
                match manifest_of(s.last()) {
                    Some(m) => {
                        assert(rest.push(m.extension.id@)[j] == id);
                    },
                    None => {},
                }
            }
        }
    }
}

/// The catalog of extensions: manifests that are known and instances that run.
#[derive(Debug)]
pub struct ExtensionsManager {
    pub extensions: Vec<LoadedExtension>,
}

impl ExtensionsManager {
    pub fn new() -> (r: Self)
        ensures
            r.extensions@.len() == 0,
    {
        ExtensionsManager { extensions: Vec::new() }
    }

    /// Adds a running instance of the extension `parent_id`.
    pub fn register(&mut self, parent_id: &str, info: ExtensionInfo, plugin: PluginHandle)
        ensures
            final(self).extensions@.len() == old(self).extensions@.len() + 1,
            final(self).extensions@.drop_last() == old(self).extensions@,
            final(self).extensions@.last() matches LoadedExtension::ExtensionInstance {
                plugin: p,
                parent_id: q,
                info: i,
            } && p == plugin && q@ == parent_id@ && i == info,
    {
        let parent = parent_id.to_string();
        let ghost before = self.extensions@;
        self.extensions.push(LoadedExtension::ExtensionInstance { plugin, parent_id: parent, info });
        assert(self.extensions@.drop_last() =~= before);
    }
}

} // verus!
