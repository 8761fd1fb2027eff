use vstd::prelude::*;

use crate::contracts::common::Address;
use crate::str_map::{key_position, StrMap};

verus! {

#[derive(Clone, Copy, PartialEq, Eq, Structural, Debug)]
pub enum Error {
    Unauthorized,
    ConfigNotFound,
    SchemaValidationFailed,
    ConfigAlreadyExists,
    InvalidVersion,
    NotInitialized,
    AlreadyInitialized,
    ConfigNotModified,
}

impl Error {
    /// The contract error code.
    pub fn code(&self) -> (c: u32)
        ensures
            c == match *self {
                Error::Unauthorized => 1u32,
                Error::ConfigNotFound => 2u32,
                Error::SchemaValidationFailed => 3u32,
                Error::ConfigAlreadyExists => 4u32,
                Error::InvalidVersion => 5u32,
                Error::NotInitialized => 6u32,
                Error::AlreadyInitialized => 7u32,
                Error::ConfigNotModified => 8u32,
            },
            1 <= c <= 8,
    {
        match self {
            Error::Unauthorized => 1,
            Error::ConfigNotFound => 2,
            Error::SchemaValidationFailed => 3,
            Error::ConfigAlreadyExists => 4,
            Error::InvalidVersion => 5,
            Error::NotInitialized => 6,
            Error::AlreadyInitialized => 7,
            Error::ConfigNotModified => 8,
        }
    }
}

#[derive(Clone, Debug, PartialEq, Eq)]
pub struct ConfigValue {
    pub value: String,
    pub schema_type: String,
    pub updated_at: u64,
    pub version: u32,
}

impl ConfigValue {
    pub fn duplicate(&self) -> (r: Self)
        ensures
            r == *self,
    {
        ConfigValue {
            value: self.value.clone(),
            schema_type: self.schema_type.clone(),
            updated_at: self.updated_at,
            version: self.version,
        }
    }
}

#[derive(Clone, Debug, PartialEq, Eq)]
pub struct ConfigEntry {
    pub key: String,
    pub value: ConfigValue,
    pub description: String,
}

pub struct ConfigSnapshot {
    pub keys: Vec<String>,
    pub values: Vec<ConfigValue>,
    pub snapshot_at: u64,
    pub total_entries: u32,
}

// ---------------------------------------------------------------------
// Value validation
// ---------------------------------------------------------------------

/// Whether `b` is an ASCII decimal digit.
pub open spec fn is_digit(b: u8) -> bool {
    48 <= b <= 57
}

/// Unsigned decimal text: one or more digits.
pub open spec fn is_unsigned_text(bytes: Seq<u8>) -> bool {
    bytes.len() > 0 && forall|i: int| 0 <= i < bytes.len() ==> is_digit(#[trigger] bytes[i])
}

/// Signed decimal text: one or more bytes, each a digit, but for a leading
/// minus sign.
pub open spec fn is_signed_text(bytes: Seq<u8>) -> bool {
    bytes.len() > 0 && forall|i: int| 0 <= i < bytes.len() ==> (i == 0 && bytes[i] == 45) || is_digit(#[trigger] bytes[i])
}

/// Boolean text: `true`, `false`, `1` or `0`.
pub open spec fn is_bool_text(value: Seq<char>) -> bool {
    value == "true"@ || value == "false"@ || value == "1"@ || value == "0"@
}

/// Whether `value` is acceptable for a key with the given schema: the
/// schemas `u64`, `i128` and `bool` constrain the text, every other schema
/// and a key without schema accept anything.
pub open spec fn value_fits_schema(schema: Option<Seq<char>>, value: Seq<char>) -> bool {
    match schema {
        None => true,
        Some(s) => if s == "u64"@ {
            is_unsigned_text(vstd::utf8::encode_utf8(value))
        } else if s == "i128"@ {
            is_signed_text(vstd::utf8::encode_utf8(value))
        } else if s == "bool"@ {
            is_bool_text(value)
        } else {
            true
        },
    }
}

fn unsigned_text(v: &[u8]) -> (b: bool)
    ensures
        b == is_unsigned_text(v@),
{
    if v.len() == 0 {
        return false;
    }
    let mut i: usize = 0;
    while i < v.len()
        invariant
            i <= v.len(),
            forall|j: int| 0 <= j < i ==> is_digit(#[trigger] v@[j]),
        decreases v.len() - i,
    {
        let byte = v[i];
        if !(48 <= byte && byte <= 57) {
            return false;
        }
        i = i + 1;
    }
    true
}

fn signed_text(v: &[u8]) -> (b: bool)
    ensures
        b == is_signed_text(v@),
{
    if v.len() == 0 {
        return false;
    }
    let mut i: usize = 0;
    while i < v.len()
        invariant
            i <= v.len(),
            forall|j: int| 0 <= j < i ==> (j == 0 && v@[j] == 45) || is_digit(#[trigger] v@[j]),
        decreases v.len() - i,
    {
        let byte = v[i];
        if !(i == 0 && byte == 45) && !(48 <= byte && byte <= 57) {
            return false;
        }
        i = i + 1;
    }
    true
}

fn text_is(s: &String, lit: &str) -> (b: bool)
    ensures
        b == (s@ == lit@),
{
    let t = lit.to_owned();
    *s == t
}

// ---------------------------------------------------------------------
// The contract
// ---------------------------------------------------------------------

/// Versioned key/value configuration, administered by one account. Every
/// change bumps the version; keys are listed in the order they were added.
pub struct ConfigManager {
    admin: Option<Address>,
    initialized: bool,
    version: u32,
    configs: StrMap<ConfigValue>,
}

/// The entry listed for a stored key: its value, described by its schema.
pub open spec fn entry_of(kv: (String, ConfigValue)) -> ConfigEntry {
    ConfigEntry { key: kv.0, value: kv.1, description: kv.1.schema_type }
}


/// The position of the last of the first `n` batch keys that equals `k`,
/// or -1 when none does.
pub open spec fn last_index(batch: Seq<String>, k: Seq<char>, n: int) -> int
    decreases n,
{
    if n <= 0 {
        -1
    } else if batch[n - 1]@ == k {
        n - 1
    } else {
        last_index(batch, k, n - 1)
    }
}

/// Whether a key equal to `k` is in `keys`.
pub open spec fn listed(keys: Seq<String>, k: Seq<char>) -> bool {
    exists|j: int| 0 <= j < keys.len() && keys[j]@ == k
}

/// The index once the first `n` batch keys are stored: each key not yet
/// listed goes last.
pub open spec fn index_after(keys: Seq<String>, batch: Seq<String>, n: int) -> Seq<String>
    decreases n,
{
    if n <= 0 {
        keys
    } else {
        let prev = index_after(keys, batch, n - 1);
        if listed(prev, batch[n - 1]@) { prev } else { prev.push(batch[n - 1]) }
    }
}

/// The text at position `i` of a batch column, or `default` past its end.
pub open spec fn batch_text(column: Seq<String>, i: int, default: Seq<char>) -> Seq<char> {
    if i < column.len() { column[i]@ } else { default }
}

/// Whether `after` holds the configuration `before` with the first `n`
/// entries of the batch stored at `now`, the entry at position `j` with
/// version `base + j + 1`.
pub open spec fn batch_stored(
    before: Map<Seq<char>, ConfigValue>,
    after: Map<Seq<char>, ConfigValue>,
    keys: Seq<String>,
    values: Seq<String>,
    schemas: Seq<String>,
    n: int,
    base: u32,
    now: u64,
) -> bool {
    &&& forall|k: Seq<char>| #[trigger] after.contains_key(k) <==> before.contains_key(k) || last_index(keys, k, n) >= 0
    &&& forall|k: Seq<char>| #[trigger] after.contains_key(k) ==> {
        let j = last_index(keys, k, n);
        if j >= 0 {
            &&& after[k].value@ == batch_text(values, j, Seq::empty())
            &&& after[k].schema_type@ == batch_text(schemas, j, "string"@)
            &&& after[k].updated_at == now
            &&& after[k].version == base + j + 1
        } else {
            after[k] == before[k]
        }
    }
}

proof fn lemma_last_index_bounds(batch: Seq<String>, k: Seq<char>, n: int)
    requires
        0 <= n <= batch.len(),
    ensures
        -1 <= last_index(batch, k, n) < n,
        last_index(batch, k, n) >= 0 ==> batch[last_index(batch, k, n)]@ == k,
    decreases n,
{
    if n > 0 {
        lemma_last_index_bounds(batch, k, n - 1);
    }
}

impl ConfigManager {
    #[verifier::type_invariant]
    spec fn consistent(self) -> bool {
        &&& self.configs.entries().len() <= self.version
        &&& (self.admin is Some <==> self.initialized)
        &&& !self.initialized ==> self.configs.entries().len() == 0
    }

    pub closed spec fn admin(&self) -> Option<Address> {
        self.admin
    }

    pub closed spec fn initialized(&self) -> bool {
        self.initialized
    }

    pub closed spec fn version(&self) -> u32 {
        self.version
    }

    /// The stored keys with their values, in index order.
    pub closed spec fn entries(&self) -> Seq<(String, ConfigValue)> {
        self.configs.entries()
    }

    /// The stored values by key.
    pub closed spec fn configs(&self) -> Map<Seq<char>, ConfigValue> {
        self.configs.view_map()
    }

    /// The keys, in index order.
    pub open spec fn keys(&self) -> Seq<String> {
        self.entries().map_values(|kv: (String, ConfigValue)| kv.0)
    }

    /// Why `caller` may not change the configuration, if it may not.
    pub open spec fn admin_refusal(&self, caller: Address) -> Option<Error> {
        match self.admin() {
            None => Some(Error::NotInitialized),
            Some(a) => if a@ != caller@ { Some(Error::Unauthorized) } else { None },
        }
    }

    /// The storage of a freshly deployed contract.
    pub fn new() -> (c: Self)
        ensures
            c.admin() is None,
            !c.initialized(),
            c.version() == 0,
            c.entries() == Seq::<(String, ConfigValue)>::empty(),
            c.configs() == Map::<Seq<char>, ConfigValue>::empty(),
    {
        ConfigManager { admin: None, initialized: false, version: 0, configs: StrMap::new() }
    }

    /// Sets the admin once and starts the version at one.
    pub fn initialize(&mut self, admin: Address) -> (r: Result<(), Error>)
        ensures
            old(self).initialized() ==> r == Err::<(), Error>(Error::AlreadyInitialized) && *final(self) == *old(self),
            !old(self).initialized() ==> {
                &&& r is Ok
                &&& final(self).admin() == Some(admin)
                &&& final(self).initialized()
                &&& final(self).version() == 1
                &&& final(self).entries() == old(self).entries()
            },
    {
        proof { use_type_invariant(&*self); }
        if self.initialized {
            return Err(Error::AlreadyInitialized);
        }
        *self = ConfigManager { admin: Some(admin), initialized: true, version: 1, configs: StrMap::new() };
        Ok(())
    }

    /// Stores `cv` under `key` and bumps the version; a new key goes last
    /// in the index.
    fn put(&mut self, key: String, cv: ConfigValue)
        requires
            old(self).version() < u32::MAX,
            old(self).initialized(),
        ensures
            final(self).version() == old(self).version() + 1,
            final(self).configs() == old(self).configs().insert(key@, cv),
            final(self).keys() == (if old(self).configs().contains_key(key@) {
                old(self).keys()
            } else {
                old(self).keys().push(key)
            }),
            final(self).admin() == old(self).admin(),
            final(self).initialized() == old(self).initialized(),
    {
        proof { use_type_invariant(&*self); }
        self.version = self.version + 1;
        let mut configs: StrMap<ConfigValue> = StrMap::new();
        std::mem::swap(&mut configs, &mut self.configs);
        let ghost before = configs.entries();
        let ghost k = key;
        configs.insert(key, cv);
        proof {
            let after = configs.entries();
            if old(self).configs().contains_key(k@) {
                let i = choose|i: int| key_position(before, k@, i) && after == before.update(i, (before[i].0, cv));
                assert(after.map_values(|kv: (String, ConfigValue)| kv.0) =~= before.map_values(
                    |kv: (String, ConfigValue)| kv.0,
                ));
            } else {
                assert(after.map_values(|kv: (String, ConfigValue)| kv.0) =~= before.map_values(
                    |kv: (String, ConfigValue)| kv.0,
                ).push(k));
            }
        }
        self.configs = configs;
    }

    /// The admin stores a value with its schema type; the new version is
    /// returned.
    pub fn set_config(
        &mut self,
        admin: Address,
        key: String,
        value: String,
        schema_type: String,
        description: String,
        now: u64,
    ) -> (r: Result<u32, Error>)
        requires
            old(self).version() < u32::MAX,
        ensures
            match old(self).admin_refusal(admin) {
                Some(e) => r == Err::<u32, Error>(e) && *final(self) == *old(self),
                None => {
                    let v = (old(self).version() + 1) as u32;
                    &&& r == Ok::<u32, Error>(v)
                    &&& final(self).version() == v
                    &&& final(self).configs() == old(self).configs().insert(
                        key@,
                        ConfigValue { value, schema_type, updated_at: now, version: v },
                    )
                    &&& final(self).keys() == (if old(self).configs().contains_key(key@) {
                        old(self).keys()
                    } else {
                        old(self).keys().push(key)
                    })
                    &&& final(self).admin() == old(self).admin()
                    &&& final(self).initialized() == old(self).initialized()
                },
            },
    {
        proof { use_type_invariant(&*self); }
        match &self.admin {
            None => {
                return Err(Error::NotInitialized);
            },
            Some(a) => {
                if *a != admin {
                    return Err(Error::Unauthorized);
                }
            },
        }
        let new_version = self.version + 1;
        let config_value = ConfigValue { value, schema_type, updated_at: now, version: new_version };
        self.put(key, config_value);
        Ok(new_version)
    }

    proof fn lemma_listed_iff_stored(&self, k: Seq<char>)
        ensures
            self.configs().contains_key(k) <==> listed(self.keys(), k),
    {
        crate::str_map::lemma_assoc_dom(self.entries(), k);
        if self.configs().contains_key(k) {
            let i = choose|i: int| key_position(self.entries(), k, i);
            assert(self.keys()[i]@ == k);
        }
        if listed(self.keys(), k) {
            let j = choose|j: int| 0 <= j < self.keys().len() && self.keys()[j]@ == k;
            assert(key_position(self.entries(), k, j));
        }
    }

    /// The admin stores a batch of keys with their values and schema types,
    /// in order, each with a version of its own; a missing value is empty
    /// and a missing schema is `string`. The last version is returned.
    pub fn batch_import_configs(
        &mut self,
        admin: Address,
        keys: Vec<String>,
        values: Vec<String>,
        schema_types: Vec<String>,
        descriptions: Vec<String>,
        now: u64,
    ) -> (r: Result<u32, Error>)
        requires
            old(self).version() + keys.len() <= u32::MAX,
        ensures
            match old(self).admin_refusal(admin) {
                Some(e) => r == Err::<u32, Error>(e) && *final(self) == *old(self),
                None => {
                    &&& r == Ok::<u32, Error>(final(self).version())
                    &&& final(self).version() == old(self).version() + keys.len()
                    &&& batch_stored(old(self).configs(), final(self).configs(), keys@, values@, schema_types@,
                        keys.len() as int, old(self).version(), now)
                    &&& final(self).keys() == index_after(old(self).keys(), keys@, keys.len() as int)
                    &&& final(self).admin() == old(self).admin()
                    &&& final(self).initialized() == old(self).initialized()
                },
            },
    {
        proof { use_type_invariant(&*self); }
        match &self.admin {
            None => {
                return Err(Error::NotInitialized);
            },
            Some(a) => {
                if *a != admin {
                    return Err(Error::Unauthorized);
                }
            },
        }
        let ghost base = self.version;
        let ghost before = self.configs();
        let ghost keys0 = self.keys();
        let count = keys.len();
        let mut i: usize = 0;
        while i < count
            invariant
                i <= count,
                count == keys.len(),
                base + count <= u32::MAX,
                self.version() == base + i,
                self.initialized(),
                self.admin() == old(self).admin(),
                batch_stored(before, self.configs(), keys@, values@, schema_types@, i as int, base, now),
                self.keys() == index_after(keys0, keys@, i as int),
            decreases count - i,
        {
            let key = keys[i].clone();
            let value = if i < values.len() { values[i].clone() } else { String::new() };
            let schema = if i < schema_types.len() { schema_types[i].clone() } else { "string".to_owned() };
            let cv = ConfigValue { value, schema_type: schema, updated_at: now, version: self.version + 1 };
            let ghost prev_map = self.configs();
            let ghost prev_keys = self.keys();
            proof { self.lemma_listed_iff_stored(keys@[i as int]@); }
            self.put(key, cv);
            proof {
                let n = i as int;
                assert forall|k: Seq<char>| #[trigger] self.configs().contains_key(k) <==> before.contains_key(k)
                    || last_index(keys@, k, n + 1) >= 0 by {
                    lemma_last_index_bounds(keys@, k, n);
                }
                assert forall|k: Seq<char>| #[trigger] self.configs().contains_key(k) implies {
                    let j = last_index(keys@, k, n + 1);
                    if j >= 0 {
                        &&& self.configs()[k].value@ == batch_text(values@, j, Seq::empty())
                        &&& self.configs()[k].schema_type@ == batch_text(schema_types@, j, "string"@)
                        &&& self.configs()[k].updated_at == now
                        &&& self.configs()[k].version == base + j + 1
                    } else {
                        self.configs()[k] == before[k]
                    }
                } by {
                    lemma_last_index_bounds(keys@, k, n);
                    if k != keys@[n]@ {
                        assert(prev_map.contains_key(k));
                    } else {
                        reveal_strlit("string");
                    }
                }
                assert(batch_stored(before, self.configs(), keys@, values@, schema_types@, n + 1, base, now));
            }
            i = i + 1;
        }
        Ok(self.version)
    }

    pub fn get_config(&self, key: String) -> (r: Option<ConfigValue>)
        ensures
            r == (if self.configs().contains_key(key@) {
                Some(self.configs()[key@])
            } else {
                None::<ConfigValue>
            }),
    {
        match self.configs.get(&key) {
            Some(cv) => Some(cv.duplicate()),
            None => None,
        }
    }

    pub fn get_config_string(&self, key: String) -> (r: Option<String>)
        ensures
            r == (if self.configs().contains_key(key@) {
                Some(self.configs()[key@].value)
            } else {
                None::<String>
            }),
    {
        match self.configs.get(&key) {
            Some(cv) => Some(cv.value.clone()),
            None => None,
        }
    }

    pub fn has_config(&self, key: String) -> (b: bool)
        ensures
            b == self.configs().contains_key(key@),
    {
        self.configs.contains_key(&key)
    }

    /// The admin removes a stored key; the version is bumped.
    pub fn remove_config(&mut self, admin: Address, key: String) -> (r: Result<(), Error>)
        requires
            old(self).version() < u32::MAX,
        ensures
            match old(self).admin_refusal(admin) {
                Some(e) => r == Err::<(), Error>(e) && *final(self) == *old(self),
                None => if !old(self).configs().contains_key(key@) {
                    r == Err::<(), Error>(Error::ConfigNotFound) && *final(self) == *old(self)
                } else {
                    &&& r is Ok
                    &&& final(self).version() == old(self).version() + 1
                    &&& final(self).configs() == old(self).configs().remove(key@)
                    &&& exists|i: int| 0 <= i < old(self).keys().len() && old(self).keys()[i]@ == key@
                        && final(self).keys() == old(self).keys().remove(i)
                    &&& final(self).admin() == old(self).admin()
                    &&& final(self).initialized() == old(self).initialized()
                },
            },
    {
        proof { use_type_invariant(&*self); }
        match &self.admin {
            None => {
                return Err(Error::NotInitialized);
            },
            Some(a) => {
                if *a != admin {
                    return Err(Error::Unauthorized);
                }
            },
        }
        if !self.configs.contains_key(&key) {
            return Err(Error::ConfigNotFound);
        }
        self.version = self.version + 1;
        let mut configs: StrMap<ConfigValue> = StrMap::new();
        std::mem::swap(&mut configs, &mut self.configs);
        let ghost before = configs.entries();
        let _ = configs.remove(&key);
        proof {
            let after = configs.entries();
            let i = choose|i: int| key_position(before, key@, i) && after == before.remove(i);
            assert(after.map_values(|kv: (String, ConfigValue)| kv.0) =~= before.map_values(
                |kv: (String, ConfigValue)| kv.0,
            ).remove(i));
            assert(old(self).keys()[i]@ == key@);
        }
        self.configs = configs;
        proof {
            let i = choose|i: int| key_position(before, key@, i) && self.configs.entries() == before.remove(i);
            assert(0 <= i < old(self).keys().len() && old(self).keys()[i]@ == key@ && self.keys() == old(self).keys().remove(i));
        }
        Ok(())
    }

    /// Every stored key with its value and schema, in index order.
    pub fn get_all_configs(&self) -> (v: Vec<ConfigEntry>)
        ensures
            v@ == self.entries().map_values(|kv: (String, ConfigValue)| entry_of(kv)),
    {
        let mut entries: Vec<ConfigEntry> = Vec::new();
        let n = self.configs.len();
        let mut i: usize = 0;
        while i < n
            invariant
                i <= n,
                n == self.entries().len(),
                entries@ == self.entries().take(i as int).map_values(|kv: (String, ConfigValue)| entry_of(kv)),
            decreases n - i,
        {
            let key = self.configs.key_at(i);
            let value = self.configs.value_at(i);
            entries.push(ConfigEntry {
                key: key.clone(),
                value: value.duplicate(),
                description: value.schema_type.clone(),
            });
            proof {
                assert(self.entries().take(i + 1) =~= self.entries().take(i as int).push(self.entries()[i as int]));
            }
            i = i + 1;
        }
        proof {
            assert(self.entries().take(n as int) =~= self.entries());
        }
        entries
    }

    /// The number of stored keys, which never exceeds the version.
    pub fn get_config_count(&self) -> (c: u32)
        ensures
            c == self.entries().len(),
            c <= self.version(),
    {
        proof { use_type_invariant(self); }
        self.configs.len() as u32
    }

    pub fn get_version_number(&self) -> (v: u32)
        ensures
            v == self.version(),
    {
        self.version
    }

    /// Whether `value` fits the schema stored for `key`.
    pub fn validate_config_value(&self, key: String, value: String) -> (b: bool)
        ensures
            b == value_fits_schema(
                if self.configs().contains_key(key@) {
                    Some(self.configs()[key@].schema_type@)
                } else {
                    None::<Seq<char>>
                },
                value@,
            ),
    {
        match self.configs.get(&key) {
            None => true,
            Some(cv) => {
                let schema = &cv.schema_type;
                if text_is(schema, "u64") {
                    unsigned_text(value.as_str().as_bytes())
                } else if text_is(schema, "i128") {
                    signed_text(value.as_str().as_bytes())
                } else if text_is(schema, "bool") {
                    text_is(&value, "true") || text_is(&value, "false") || text_is(&value, "1")
                        || text_is(&value, "0")
                } else {
                    true
                }
            },
        }
    }

    /// The keys, in index order.
    pub fn get_all_config_keys(&self) -> (v: Vec<String>)
        ensures
            v@ == self.keys(),
    {
        let mut keys: Vec<String> = Vec::new();
        let n = self.configs.len();
        let mut i: usize = 0;
        while i < n
            invariant
                i <= n,
                n == self.entries().len(),
                keys@ == self.keys().take(i as int),
            decreases n - i,
        {
            keys.push(self.configs.key_at(i).clone());
            proof {
                assert(self.keys().take(i + 1) =~= self.keys().take(i as int).push(self.keys()[i as int]));
            }
            i = i + 1;
        }
        proof {
            assert(self.keys().take(n as int) =~= self.keys());
        }
        keys
    }

    /// The keys and their values, in index order, taken at `now`.
    pub fn get_snapshot(&self, now: u64) -> (s: ConfigSnapshot)
        ensures
            s.keys@ == self.keys(),
            s.values@ == self.entries().map_values(|kv: (String, ConfigValue)| kv.1),
            s.snapshot_at == now,
            s.total_entries == self.entries().len(),
    {
        let keys = self.get_all_config_keys();
        let mut values: Vec<ConfigValue> = Vec::new();
        let n = self.configs.len();
        let mut i: usize = 0;
        while i < n
            invariant
                i <= n,
                n == self.entries().len(),
                values@ == self.entries().take(i as int).map_values(|kv: (String, ConfigValue)| kv.1),
            decreases n - i,
        {
            values.push(self.configs.value_at(i).duplicate());
            proof {
                assert(self.entries().take(i + 1) =~= self.entries().take(i as int).push(self.entries()[i as int]));
            }
            i = i + 1;
        }
        proof {
            assert(self.entries().take(n as int) =~= self.entries());
        }
        ConfigSnapshot { keys, values, snapshot_at: now, total_entries: self.get_config_count() }
    }
}

} // verus!
