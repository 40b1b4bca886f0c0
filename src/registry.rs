use vstd::prelude::*;

verus! {

/// Handle of a storage backend. The backend itself is owned by the host; the
/// registry hands out the handle, and users lock the backend before use.
pub type FsHandle = u64;

/// The handle under which the local filesystem backend is registered.
pub const LOCAL_FS: FsHandle = 0;

/// The storage backend registered last under `name`.
pub open spec fn fs_lookup(s: Seq<(String, FsHandle)>, name: Seq<char>) -> Option<FsHandle>
    decreases s.len(),
{
    if s.len() == 0 {
        None
    } else if s.last().0@ == name {
        Some(s.last().1)
    } else {
        fs_lookup(s.drop_last(), name)
    }
}

/// Looks `name` up among the registered storage backends; the latest
/// registration wins.
pub fn find_fs(entries: &Vec<(String, FsHandle)>, name: &str) -> (r: Option<FsHandle>)
    ensures
        r == fs_lookup(entries@, name@),
{
    let key = name.to_string();
    let mut i: usize = entries.len();
    assert(entries@.take(i as int) =~= entries@);
    while i > 0
        invariant
            0 <= i <= entries@.len(),
            key@ == name@,
            fs_lookup(entries@, name@) == fs_lookup(entries@.take(i as int), name@),
        decreases i,
    {
        assert(entries@.take(i as int).drop_last() =~= entries@.take(i - 1));
        if entries[i - 1].0 == key {
            return Some(entries[i - 1].1);
        }
        i = i - 1;
    }
    None
}

/// Descriptor of a language server. The state serves these without
/// interpreting them.
#[derive(Debug, PartialEq, Eq)]
pub struct LanguageServer {
    pub name: String,
    pub extension_id: String,
}

impl Clone for LanguageServer {
    fn clone(&self) -> (r: Self)
        ensures
            r == *self,
    {
        LanguageServer { name: self.name.clone(), extension_id: self.extension_id.clone() }
    }
}

/// The registered language servers by name.
pub open spec fn server_map(s: Seq<(String, LanguageServer)>) -> Map<Seq<char>, LanguageServer>
    decreases s.len(),
{
    if s.len() == 0 {
        Map::empty()
    } else {
        server_map(s.drop_last()).insert(s.last().0@, s.last().1)
    }
}

/// No name is registered twice.
pub open spec fn unique_names(s: Seq<(String, LanguageServer)>) -> bool {
    forall|i: int, j: int| 0 <= i < s.len() && 0 <= j < s.len() && s[i].0@ == s[j].0@ ==> i == j
}

/// The descriptors in registration order.
pub open spec fn server_values(s: Seq<(String, LanguageServer)>) -> Seq<LanguageServer> {
    s.map_values(|e: (String, LanguageServer)| e.1)
}

proof fn lemma_server_map_update(s: Seq<(String, LanguageServer)>, i: int, e: (String, LanguageServer))
    requires
        unique_names(s),
        0 <= i < s.len(),
        s[i].0@ == e.0@,
    ensures
        server_map(s.update(i, e)) == server_map(s).insert(e.0@, e.1),
    decreases s.len(),
{
    let t = s.update(i, e);
    if i == s.len() - 1 {
        assert(t.drop_last() =~= s.drop_last());
        assert(server_map(t) =~= server_map(s).insert(e.0@, e.1));
    } else {
        assert(t.drop_last() =~= s.drop_last().update(i, e));
        lemma_server_map_update(s.drop_last(), i, e);
        assert(s.last().0@ != e.0@);
        assert(server_map(t) =~= server_map(s).insert(e.0@, e.1));
    }
}

proof fn lemma_server_map_has(s: Seq<(String, LanguageServer)>, name: Seq<char>)
    ensures
        server_map(s).contains_key(name) <==> exists|i: int| 0 <= i < s.len() && s[i].0@ == name,
    decreases s.len(),
{
    if s.len() > 0 {
        lemma_server_map_has(s.drop_last(), name);
        if server_map(s).contains_key(name) && s.last().0@ != name {
            let i = choose|i: int| 0 <= i < s.len() - 1 && s.drop_last()[i].0@ == name;
            assert(s[i].0@ == name);
        }
        if exists|i: int| 0 <= i < s.len() && s[i].0@ == name {
            let i = choose|i: int| 0 <= i < s.len() && s[i].0@ == name;
            if i < s.len() - 1 {
                assert(s.drop_last()[i].0@ == name);
            }
        }
    }
}

/// Registers `server` under `name`, replacing the descriptor registered
/// under that name before, if any.
pub fn upsert_server(entries: &mut Vec<(String, LanguageServer)>, name: String, server: LanguageServer)
    requires
        unique_names(old(entries)@),
    ensures
        unique_names(final(entries)@),
        server_map(final(entries)@) == server_map(old(entries)@).insert(name@, server),
{
    let mut i: usize = 0;
    while i < entries.len()
        invariant
            entries@ == old(entries)@,
            unique_names(entries@),
            0 <= i <= entries@.len(),
            forall|j: int| 0 <= j < i ==> entries@[j].0@ != name@,
        decreases entries@.len() - i,
    {
        if entries[i].0 == name {
            let ghost before = entries@;
            proof {
                lemma_server_map_update(before, i as int, (name, server));
            }
            entries.set(i, (name, server));
            assert(entries@ =~= before.update(i as int, (name, server)));
            assert(forall|j: int| 0 <= j < entries@.len() ==> entries@[j].0@ == before[j].0@);
            return;
        }
        i = i + 1;
    }
    let ghost before = entries@;
    entries.push((name, server));
    assert(entries@.drop_last() =~= before);
    assert forall|a: int, b: int|
        0 <= a < entries@.len() && 0 <= b < entries@.len() && entries@[a].0@ == entries@[b].0@ implies a
        == b by {
        if a < before.len() && b < before.len() {
            assert(entries@[a] == before[a] && entries@[b] == before[b]);
        }
    }
}

} // verus!
