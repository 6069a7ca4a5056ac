//! In-memory WASM module registry of the control plane.
//!
//! Modules are keyed by `"name:version"` and held in memory alongside their
//! raw bytes so the control plane can serve them to edge nodes on demand.

use vstd::prelude::*;
use vstd::string::StringExecFns;

use crate::clock::{may_be_utc_now, utc_now, Timestamp};
use crate::codec::{sha256_hex, sha256_text};
use crate::common::{ModuleMetadata, RegistryError};
use crate::ids::{is_fresh_id, new_uuid};
use crate::table::{has_key, law_lookup_stored, lookup, stored, KeyedTable};
use crate::text::{comes_before, is_before, law_text_order_total, law_text_order_transitive};

verus! {

/// The key of a module: its name, a colon and its version.
pub open spec fn key_of(name: Seq<char>, version: Seq<char>) -> Seq<char> {
    name + ":"@ + version
}

/// The key of a module: its name, a colon and its version.
pub fn module_key(name: &str, version: &str) -> (key: String)
    ensures
        key@ == key_of(name@, version@),
{
    name.to_string().concat(":").concat(version)
}

/// What the registry holds under a key.
pub type StoredModule = (ModuleMetadata, Vec<u8>);

/// Whether `meta` describes a module of this name and version with these
/// bytes.
pub open spec fn describes(meta: ModuleMetadata, name: Seq<char>, version: Seq<char>, bytes: Seq<u8>) -> bool {
    &&& meta.name@ == name
    &&& meta.version@ == version
    &&& meta.size_bytes == bytes.len()
    &&& meta.hash@ == sha256_text(bytes)
}

/// The order in which modules are listed: by name, then by version.
pub open spec fn listed_before(a: ModuleMetadata, b: ModuleMetadata) -> bool {
    comes_before(a.name@, b.name@) || (a.name@ == b.name@ && comes_before(a.version@, b.version@))
}

/// The metadata of all entries, in the table's order.
pub open spec fn metadata_of(entries: Seq<(Seq<char>, StoredModule)>) -> Seq<ModuleMetadata> {
    Seq::new(entries.len(), |i: int| entries[i].1.0)
}

/// Registered modules with their bytes.
#[derive(Debug)]
pub struct ModuleRegistry {
    /// key: "name:version"
    modules: KeyedTable<StoredModule>,
}

impl View for ModuleRegistry {
    type V = Seq<(Seq<char>, StoredModule)>;

    closed spec fn view(&self) -> Seq<(Seq<char>, StoredModule)> {
        self.modules@
    }
}

impl ModuleRegistry {
    /// No key occurs twice, and each entry's metadata describes its bytes
    /// under its key.
    pub open spec fn wf(&self) -> bool {
        &&& crate::table::distinct_keys(self@)
        &&& forall|i: int| 0 <= i < self@.len() ==> {
            let entry = #[trigger] self@[i];
            &&& entry.0 == key_of(entry.1.0.name@, entry.1.0.version@)
            &&& describes(entry.1.0, entry.1.0.name@, entry.1.0.version@, entry.1.1@)
        }
    }

    /// A registry without modules.
    pub fn new() -> (registry: Self)
        ensures
            registry@ == Seq::<(Seq<char>, StoredModule)>::empty(),
            registry.wf(),
    {
        ModuleRegistry { modules: KeyedTable::new() }
    }

    /// The number of registered modules.
    pub fn len(&self) -> (n: usize)
        ensures
            n == self@.len(),
    {
        self.modules.len()
    }

    /// Store a WASM module. Returns the metadata (including generated id and
    /// SHA-256 hash). Returns [`RegistryError::AlreadyExists`] if that
    /// name+version combination is already registered.
    pub fn store(&mut self, name: &str, version: &str, bytes: Vec<u8>) -> (r: Result<ModuleMetadata, RegistryError>)
        requires
            old(self).wf(),
        ensures
            final(self).wf(),
            match r {
                Ok(meta) => {
                    &&& !has_key(old(self)@, key_of(name@, version@))
                    &&& describes(meta, name@, version@, bytes@)
                    &&& is_fresh_id(meta.id@)
                    &&& may_be_utc_now(meta.created_at)
                    &&& final(self)@ == stored(old(self)@, key_of(name@, version@), (meta, bytes))
                },
                Err(e) => {
                    &&& has_key(old(self)@, key_of(name@, version@))
                    &&& e is AlreadyExists
                    &&& e->AlreadyExists_0@ == name@
                    &&& e->AlreadyExists_1@ == version@
                    &&& final(self)@ == old(self)@
                },
            },
    {
        let id = new_uuid();
        let created_at = utc_now();
        self.store_as(name, version, bytes, id, created_at)
    }

    /// [`store`](Self::store) under the given id and time.
    pub fn store_as(&mut self, name: &str, version: &str, bytes: Vec<u8>, id: String, created_at: Timestamp) -> (r: Result<
        ModuleMetadata,
        RegistryError,
    >)
        requires
            old(self).wf(),
        ensures
            final(self).wf(),
            match r {
                Ok(meta) => {
                    &&& !has_key(old(self)@, key_of(name@, version@))
                    &&& describes(meta, name@, version@, bytes@)
                    &&& meta.id == id
                    &&& meta.created_at == created_at
                    &&& final(self)@ == stored(old(self)@, key_of(name@, version@), (meta, bytes))
                },
                Err(e) => {
                    &&& has_key(old(self)@, key_of(name@, version@))
                    &&& e is AlreadyExists
                    &&& e->AlreadyExists_0@ == name@
                    &&& e->AlreadyExists_1@ == version@
                    &&& final(self)@ == old(self)@
                },
            },
    {
        let key = module_key(name, version);
        if self.modules.contains_key(key.as_str()) {
            return Err(RegistryError::AlreadyExists(name.to_string(), version.to_string()));
        }
        let meta = ModuleMetadata {
            id,
            name: name.to_string(),
            version: version.to_string(),
            size_bytes: bytes.len(),
            created_at,
            hash: sha256_hex(bytes.as_slice()),
        };
        proof {
            law_lookup_stored(self@, key@, (meta, bytes), key@);
        }
        self.modules.insert(key, (meta.clone(), bytes));
        Ok(meta)
    }

    /// Retrieve the metadata and raw bytes for a module.
    pub fn get(&self, name: &str, version: &str) -> (r: Option<&StoredModule>)
        requires
            self.wf(),
        ensures
            match r {
                Some(module) => lookup(self@, key_of(name@, version@)) == Some(*module),
                None => lookup(self@, key_of(name@, version@)) is None,
            },
    {
        self.modules.get(module_key(name, version).as_str())
    }

    /// List the metadata of all registered modules, sorted by name, then by
    /// version.
    pub fn list(&self) -> (r: Vec<&ModuleMetadata>)
        ensures
            Seq::new(r@.len(), |i: int| *r@[i]).to_multiset() == metadata_of(self@).to_multiset(),
            forall|i: int, j: int| 0 <= i < j < r@.len() ==> !listed_before(*(#[trigger] r@[j]), *(#[trigger] r@[i])),
    {
        let mut r: Vec<&ModuleMetadata> = Vec::new();
        let ghost all = metadata_of(self@);
        let mut i: usize = 0;
        assert(Seq::new(r@.len(), |k: int| *r@[k]) =~= all.take(0));
        while i < self.modules.len()
            invariant
                i <= self@.len(),
                self@ == self.modules@,
                all == metadata_of(self@),
                Seq::new(r@.len(), |k: int| *r@[k]).to_multiset() == all.take(i as int).to_multiset(),
                r@.len() == i,
                forall|k: int, l: int| 0 <= k < l < r@.len() ==> !listed_before(*(#[trigger] r@[l]), *(#[trigger] r@[k])),
            decreases self@.len() - i,
        {
            let meta = &self.modules.value_at(i).0;
            let mut place: usize = i;
            while place > 0 && is_listed_before(meta, r[place - 1])
                invariant
                    place <= i,
                    r@.len() == i,
                    forall|k: int| place <= k < i ==> listed_before(*meta, *(#[trigger] r@[k])),
                decreases place,
            {
                place = place - 1;
            }
            let ghost before = r@;
            let ghost flat_before = Seq::new(before.len(), |k: int| *before[k]);
            r.insert(place, meta);
            proof {
                let flat = Seq::new(r@.len(), |k: int| *r@[k]);
                assert(flat =~= flat_before.insert(place as int, *meta));
                vstd::seq_lib::to_multiset_insert(flat_before, place as int, *meta);
                assert(all.take(i + 1) =~= all.take(i as int).push(*meta));
                all.take(i as int).to_multiset_ensures();
                assert forall|k: int, l: int| 0 <= k < l < r@.len() implies !listed_before(*(#[trigger] r@[l]), *(#[trigger] r@[k])) by {
                    let kb = if k < place { k } else { k - 1 };
                    let lb = if l < place { l } else { l - 1 };
                    if k == place {
                        lemma_listed_order(*meta, *before[lb], *meta);
                    } else if l == place {
                        if k < place - 1 {
                            if listed_before(*meta, *before[k]) {
                                assert(!listed_before(*before[place - 1], *before[k]));
                                lemma_listed_order(*meta, *before[k], *before[place - 1]);
                                lemma_listed_total(*before[k], *before[place - 1]);
                                if !listed_before(*before[k], *before[place - 1]) {
                                    lemma_listed_same(*meta, *before[k], *before[place - 1]);
                                }
                            }
                        }
                    } else {
                        assert(r@[k] == before[kb]);
                        assert(r@[l] == before[lb]);
                    }
                }
            }
            i = i + 1;
        }
        assert(all.take(i as int) =~= all);
        r
    }
}

fn is_listed_before(a: &ModuleMetadata, b: &ModuleMetadata) -> (before: bool)
    ensures
        before == listed_before(*a, *b),
{
    if is_before(a.name.as_str(), b.name.as_str()) {
        true
    } else if a.name == b.name {
        is_before(a.version.as_str(), b.version.as_str())
    } else {
        false
    }
}

proof fn lemma_listed_order(a: ModuleMetadata, b: ModuleMetadata, c: ModuleMetadata)
    ensures
        listed_before(a, b) && listed_before(b, c) ==> listed_before(a, c),
        listed_before(a, b) ==> !listed_before(b, a),
{
    law_text_order_total(a.name@, b.name@);
    law_text_order_total(a.version@, b.version@);
    law_text_order_total(b.name@, a.name@);
    if listed_before(a, b) && listed_before(b, c) {
        if comes_before(a.name@, b.name@) && comes_before(b.name@, c.name@) {
            law_text_order_transitive(a.name@, b.name@, c.name@);
        }
        if comes_before(a.version@, b.version@) && comes_before(b.version@, c.version@) {
            law_text_order_transitive(a.version@, b.version@, c.version@);
        }
    }
}

proof fn lemma_listed_total(a: ModuleMetadata, b: ModuleMetadata)
    ensures
        listed_before(a, b) || listed_before(b, a) || (a.name@ == b.name@ && a.version@ == b.version@),
{
    law_text_order_total(a.name@, b.name@);
    law_text_order_total(a.version@, b.version@);
}

proof fn lemma_listed_same(a: ModuleMetadata, b: ModuleMetadata, c: ModuleMetadata)
    requires
        b.name@ == c.name@,
        b.version@ == c.version@,
    ensures
        listed_before(a, b) == listed_before(a, c),
{
}

impl Default for ModuleRegistry {
    fn default() -> (registry: Self)
        ensures
            registry@ == Seq::<(Seq<char>, StoredModule)>::empty(),
            registry.wf(),
    {
        Self::new()
    }
}

/// A module that was stored is found again under its name and version, with
/// the bytes that were stored and their digest; what is found under any other
/// key stays the same.
pub proof fn law_stored_module_is_found(
    entries: Seq<(Seq<char>, StoredModule)>,
    name: Seq<char>,
    version: Seq<char>,
    module: StoredModule,
    other: Seq<char>,
)
    requires
        crate::table::distinct_keys(entries),
        !has_key(entries, key_of(name, version)),
        describes(module.0, name, version, module.1@),
    ensures
        lookup(stored(entries, key_of(name, version), module), key_of(name, version)) == Some(module),
        module.0.hash@ == sha256_text(module.1@),
        other != key_of(name, version) ==> lookup(stored(entries, key_of(name, version), module), other)
            == lookup(entries, other),
{
    law_lookup_stored(entries, key_of(name, version), module, key_of(name, version));
    law_lookup_stored(entries, key_of(name, version), module, other);
}

/// Two modules whose names hold no colon have the same key only if both name
/// and version are the same.
pub proof fn law_keys_without_colon_are_unique(
    name: Seq<char>,
    version: Seq<char>,
    other_name: Seq<char>,
    other_version: Seq<char>,
)
    requires
        !name.contains(':'),
        !other_name.contains(':'),
        key_of(name, version) == key_of(other_name, other_version),
    ensures
        name == other_name,
        version == other_version,
{
    reveal_strlit(":");
    let a = key_of(name, version);
    let b = key_of(other_name, other_version);
    assert(a[name.len() as int] == ':');
    assert(b[other_name.len() as int] == ':');
    if name.len() < other_name.len() {
        assert(b[name.len() as int] == other_name[name.len() as int]);
        assert(other_name.contains(':'));
    }
    if other_name.len() < name.len() {
        assert(a[other_name.len() as int] == name[other_name.len() as int]);
        assert(name.contains(':'));
    }
    assert(name =~= a.take(name.len() as int));
    assert(other_name =~= b.take(name.len() as int));
    assert(version =~= a.skip(name.len() as int + 1));
    assert(other_version =~= b.skip(name.len() as int + 1));
}

/// What the registry says of a stored module is true of its bytes: their number and their
/// digest, and the name and the version under which they were stored.
pub proof fn law_metadata_is_true(meta: ModuleMetadata, name: Seq<char>, version: Seq<char>, bytes: Seq<u8>)
    requires
        describes(meta, name, version, bytes),
    ensures
        meta.name@ == name,
        meta.version@ == version,
        meta.size_bytes == bytes.len(),
        meta.hash@ == sha256_text(bytes),
{
}

/// A key holds the name, a colon and the version, in this order.
pub proof fn law_key_is_name_colon_version(name: Seq<char>, version: Seq<char>)
    ensures
        key_of(name, version).len() == name.len() + 1 + version.len(),
        key_of(name, version).take(name.len() as int) == name,
        key_of(name, version)[name.len() as int] == ':',
        key_of(name, version).skip(name.len() as int + 1) == version,
{
    reveal_strlit(":");
    assert(key_of(name, version).take(name.len() as int) =~= name);
    assert(key_of(name, version).skip(name.len() as int + 1) =~= version);
}

/// Modules are listed by the order of their names, and those of one name by the order of
/// their versions.
pub proof fn law_listed_by_name_and_version(a: ModuleMetadata, b: ModuleMetadata)
    ensures
        a.name@ != b.name@ ==> listed_before(a, b) == comes_before(a.name@, b.name@),
        a.name@ == b.name@ ==> listed_before(a, b) == comes_before(a.version@, b.version@),
{
    law_text_order_total(a.name@, b.name@);
}

/// The metadata of the registry are those of its modules, one for each.
pub proof fn law_every_module_has_its_metadata(entries: Seq<(Seq<char>, StoredModule)>, i: int)
    requires
        0 <= i < entries.len(),
    ensures
        metadata_of(entries).len() == entries.len(),
        metadata_of(entries)[i] == entries[i].1.0,
{
}

} // verus!
