//! Configuration values and secrets, resolved with the process environment
//! taking precedence over what is stored.
use crate::json::{
    json_parse_of, json_string, json_text, json_text_of, member_view, object_members,
    object_members_of, object_of, object_value, parse_json, parse_yaml, string_value, yaml_parse_of,
    yaml_text, yaml_text_of,
};
use crate::keymap::{mapping_of, KeyMap};
use serde_json::Value;
use vstd::prelude::*;

verus! {

/// The service under which the default configuration keeps its secrets in
/// the system vault.
pub const KEYRING_SERVICE: &'static str = "goose";

/// The account name of the single vault credential that holds all secrets.
pub const KEYRING_USERNAME: &'static str = "secrets";

/// What a path reads as for a configuration held only in memory.
pub const IN_MEMORY_PATH: &'static str = "<in-memory>";

/// A stored mapping from keys to values.
pub type ValueMap = KeyMap<Value>;

/// A snapshot of the process environment: variable names to their values.
pub type Environment = KeyMap<String>;

/// Why reading or writing configuration failed.
#[derive(Debug)]
pub enum ConfigError {
    /// The key is neither in the environment nor stored.
    NotFound(String),
    /// Stored text, or a value, does not have the expected shape.
    DeserializeError(String),
    /// A backing file could not be read or written.
    FileError(String),
    /// The configuration directory could not be created.
    DirectoryError(String),
    /// The system vault reported a failure other than a missing entry.
    KeyringError(String),
}

/// Where configuration values live between runs.
#[derive(Debug)]
pub enum ConfigStorage {
    File { path: String },
    Memory,
}

/// Where secrets live between runs.
#[derive(Debug)]
pub enum SecretStorage {
    Keyring { service: String },
    File { path: String },
    Memory,
}

/// What reading the secret backend gave.
#[derive(Debug)]
pub enum SecretRead {
    /// There is no vault entry, or no secrets file, yet.
    Absent,
    /// The vault credential's JSON text, or the secrets file's YAML text.
    Text(String),
    /// The vault reported a failure other than a missing entry.
    VaultFailure(String),
}

/// The name of the environment variable that shadows a key: the key in
/// upper case.
pub uninterp spec fn upper_of(s: Seq<char>) -> Seq<char>;

/// Relies on str::to_uppercase: the upper-case form depends on the
/// characters alone.
#[verifier::external_body]
fn uppercase(s: &str) -> (r: String)
    ensures
        r@ == upper_of(s@),
{
    s.to_uppercase()
}

/// The value that an environment variable's text stands for: the JSON value
/// it denotes, or else the text itself as a string.
pub open spec fn env_value_of(s: Seq<char>) -> Value {
    match json_parse_of(s) {
        Some(v) => v,
        None => json_string(s),
    }
}

/// The value of `key`: the environment variable named after it where there is
/// one, else the stored value, else none.
pub open spec fn resolve(
    key: Seq<char>,
    env: Map<Seq<char>, String>,
    stored: Map<Seq<char>, Value>,
) -> Option<Value> {
    if env.contains_key(upper_of(key)) {
        Some(env_value_of(env[upper_of(key)]@))
    } else if stored.contains_key(key) {
        Some(stored[key])
    } else {
        None
    }
}

/// The mapping that a stored YAML text holds: that of its top-level object,
/// empty where the top level is no object; `None` where the text is no YAML.
pub open spec fn yaml_mapping_of(text: Seq<char>) -> Option<Map<Seq<char>, Value>> {
    match yaml_parse_of(text) {
        None => None,
        Some(v) => match object_members_of(v) {
            Some(ms) => Some(mapping_of(ms)),
            None => Some(Map::empty()),
        },
    }
}

/// The mapping that a vault credential's JSON text holds; `None` where the
/// text is not a JSON object.
pub open spec fn json_mapping_of(text: Seq<char>) -> Option<Map<Seq<char>, Value>> {
    match json_parse_of(text) {
        None => None,
        Some(v) => match object_members_of(v) {
            Some(ms) => Some(mapping_of(ms)),
            None => None,
        },
    }
}

/// The object value that a stored mapping is written as.
pub open spec fn object_of_map(m: &ValueMap) -> Value {
    object_of(member_view(m.pairs()))
}

/// `e` is the error for a key that was not found.
pub open spec fn is_not_found(e: ConfigError, key: Seq<char>) -> bool {
    e matches ConfigError::NotFound(k) && k@ == key
}

fn resolve_in(key: &str, env: &Environment, stored: &ValueMap) -> (r: Result<Value, ConfigError>)
    requires
        env.wf(),
        stored.wf(),
    ensures
        match r {
            Ok(v) => resolve(key@, env@, stored@) == Some(v),
            Err(e) => resolve(key@, env@, stored@) is None && is_not_found(e, key@),
        },
{
    let name = uppercase(key);
    match env.get(name.as_str()) {
        Some(text) => match parse_json(text.as_str()) {
            Some(v) => Ok(v),
            None => Ok(string_value(text.clone())),
        },
        None => match stored.get(key) {
            Some(v) => Ok(v.clone()),
            None => Err(ConfigError::NotFound(key.to_owned())),
        },
    }
}

/// Copies the pairs of a stored mapping out, in their kept order.
fn members_of(m: &ValueMap) -> (r: Vec<(String, Value)>)
    requires
        m.wf(),
    ensures
        r@ == m.pairs(),
{
    let mut out: Vec<(String, Value)> = Vec::new();
    let n = m.pair_count();
    let mut i: usize = 0;
    while i < n
        invariant
            m.wf(),
            n == m.pairs().len(),
            i <= n,
            out@ == m.pairs().take(i as int),
        decreases n - i,
    {
        let (k, v) = m.entry_at(i);
        out.push((k.clone(), v.clone()));
        assert(out@ =~= m.pairs().take(i + 1));
        i = i + 1;
    }
    assert(out@ =~= m.pairs());
    out
}

/// Reads a stored YAML text: the mapping of its top-level object, an empty
/// one where the top level is no object.
pub fn decode_yaml_mapping(text: &str) -> (r: Result<ValueMap, ConfigError>)
    ensures
        match r {
            Ok(m) => m.wf() && yaml_mapping_of(text@) == Some(m@),
            Err(e) => yaml_mapping_of(text@) is None && e is DeserializeError,
        },
{
    match parse_yaml(text) {
        Err(msg) => Err(ConfigError::DeserializeError(msg)),
        Ok(v) => match object_members(&v) {
            Some(ms) => Ok(KeyMap::from_pairs(ms)),
            None => {
                let m = KeyMap::new();
                assert(m@ =~= Map::<Seq<char>, Value>::empty());
                Ok(m)
            },
        },
    }
}

/// Reads a vault credential's JSON text: it must be one JSON object.
pub fn decode_json_mapping(text: &str) -> (r: Result<ValueMap, ConfigError>)
    ensures
        match r {
            Ok(m) => m.wf() && json_mapping_of(text@) == Some(m@),
            Err(e) => json_mapping_of(text@) is None && e is DeserializeError,
        },
{
    match parse_json(text) {
        None => Err(ConfigError::DeserializeError(String::from_str("the vault entry is no JSON"))),
        Some(v) => match object_members(&v) {
            Some(ms) => Ok(KeyMap::from_pairs(ms)),
            None => Err(
                ConfigError::DeserializeError(String::from_str("the vault entry is no JSON object")),
            ),
        },
    }
}

/// The YAML text that a stored mapping is written as.
pub fn encode_yaml_mapping(m: &ValueMap) -> (r: Result<String, ConfigError>)
    requires
        m.wf(),
    ensures
        match r {
            Ok(s) => yaml_text_of(object_of_map(m)) == Some(s@),
            Err(e) => yaml_text_of(object_of_map(m)) is None && e is DeserializeError,
        },
{
    let obj = object_value(members_of(m));
    match yaml_text(&obj) {
        Ok(s) => Ok(s),
        Err(msg) => Err(ConfigError::DeserializeError(msg)),
    }
}

/// The JSON text that a stored mapping is written as.
pub fn encode_json_mapping(m: &ValueMap) -> (r: Result<String, ConfigError>)
    requires
        m.wf(),
    ensures
        match r {
            Ok(s) => json_text_of(object_of_map(m)) == Some(s@),
            Err(e) => json_text_of(object_of_map(m)) is None && e is DeserializeError,
        },
{
    let obj = object_value(members_of(m));
    match json_text(&obj) {
        Ok(s) => Ok(s),
        Err(msg) => Err(ConfigError::DeserializeError(msg)),
    }
}

/// A configuration: where its values and secrets are kept, and the values and
/// secrets themselves as last loaded or set.
pub struct Config {
    config_storage: ConfigStorage,
    secrets: SecretStorage,
    values: ValueMap,
    secret_values: ValueMap,
}

impl Config {
    /// Both stored mappings are well formed.
    pub closed spec fn wf(&self) -> bool {
        self.values.wf() && self.secret_values.wf()
    }

    /// The stored configuration values.
    pub closed spec fn stored(&self) -> Map<Seq<char>, Value> {
        self.values@
    }

    /// The stored secrets.
    pub closed spec fn stored_secrets(&self) -> Map<Seq<char>, Value> {
        self.secret_values@
    }

    /// The object value that the stored configuration values are written as.
    pub closed spec fn stored_object(&self) -> Value {
        object_of_map(&self.values)
    }

    /// The object value that the stored secrets are written as.
    pub closed spec fn stored_secrets_object(&self) -> Value {
        object_of_map(&self.secret_values)
    }

    /// Where the configuration values are kept.
    pub closed spec fn config_storage_spec(&self) -> ConfigStorage {
        self.config_storage
    }

    /// Where the secrets are kept.
    pub closed spec fn secret_storage_spec(&self) -> SecretStorage {
        self.secrets
    }

    /// Chooses the backends from the environment's signals: in-memory mode
    /// puts both in memory; otherwise values go to `config_path`, and secrets
    /// to the vault, or to `secrets_path` where the vault is disabled.
    pub fn with_signals(
        in_memory: bool,
        keyring_disabled: bool,
        config_path: String,
        secrets_path: String,
    ) -> (r: Config)
        ensures
            r.wf(),
            r.stored() == Map::<Seq<char>, Value>::empty(),
            r.stored_secrets() == Map::<Seq<char>, Value>::empty(),
            in_memory ==> r.config_storage_spec() is Memory && r.secret_storage_spec() is Memory,
            !in_memory ==> r.config_storage_spec() == (ConfigStorage::File { path: config_path }),
            !in_memory && keyring_disabled ==> r.secret_storage_spec() == (SecretStorage::File {
                path: secrets_path,
            }),
            !in_memory && !keyring_disabled ==> match r.secret_storage_spec() {
                SecretStorage::Keyring { service } => service@ == KEYRING_SERVICE@,
                _ => false,
            },
    {
        if in_memory {
            return Config::new_in_memory();
        }
        let secrets = if keyring_disabled {
            SecretStorage::File { path: secrets_path }
        } else {
            SecretStorage::Keyring { service: KEYRING_SERVICE.to_owned() }
        };
        Config {
            config_storage: ConfigStorage::File { path: config_path },
            secrets,
            values: KeyMap::new(),
            secret_values: KeyMap::new(),
        }
    }

    /// A configuration kept in the file `config_path`, with its secrets in the
    /// vault under `service`.
    pub fn new(config_path: &str, service: &str) -> (r: Result<Config, ConfigError>)
        ensures
            match r {
                Ok(c) => {
                    &&& c.wf()
                    &&& c.stored() == Map::<Seq<char>, Value>::empty()
                    &&& c.stored_secrets() == Map::<Seq<char>, Value>::empty()
                    &&& c.config_storage_spec() matches ConfigStorage::File { path } && path@
                        == config_path@
                    &&& c.secret_storage_spec() matches SecretStorage::Keyring { service: s } && s@
                        == service@
                },
                Err(_) => false,
            },
    {
        Ok(
            Config {
                config_storage: ConfigStorage::File { path: config_path.to_owned() },
                secrets: SecretStorage::Keyring { service: service.to_owned() },
                values: KeyMap::new(),
                secret_values: KeyMap::new(),
            },
        )
    }

    /// A configuration kept in the file `config_path`, with its secrets in the
    /// file `secrets_path`.
    pub fn new_with_file_secrets(config_path: &str, secrets_path: &str) -> (r: Result<
        Config,
        ConfigError,
    >)
        ensures
            match r {
                Ok(c) => {
                    &&& c.wf()
                    &&& c.stored() == Map::<Seq<char>, Value>::empty()
                    &&& c.stored_secrets() == Map::<Seq<char>, Value>::empty()
                    &&& c.config_storage_spec() matches ConfigStorage::File { path } && path@
                        == config_path@
                    &&& c.secret_storage_spec() matches SecretStorage::File { path: p } && p@
                        == secrets_path@
                },
                Err(_) => false,
            },
    {
        Ok(
            Config {
                config_storage: ConfigStorage::File { path: config_path.to_owned() },
                secrets: SecretStorage::File { path: secrets_path.to_owned() },
                values: KeyMap::new(),
                secret_values: KeyMap::new(),
            },
        )
    }

    /// A configuration that keeps values and secrets only in memory.
    pub fn new_in_memory() -> (r: Config)
        ensures
            r.wf(),
            r.stored() == Map::<Seq<char>, Value>::empty(),
            r.stored_secrets() == Map::<Seq<char>, Value>::empty(),
            r.config_storage_spec() is Memory,
            r.secret_storage_spec() is Memory,
    {
        Config {
            config_storage: ConfigStorage::Memory,
            secrets: SecretStorage::Memory,
            values: KeyMap::new(),
            secret_values: KeyMap::new(),
        }
    }

    /// Where the configuration values are kept.
    pub fn storage(&self) -> (r: &ConfigStorage)
        ensures
            *r == self.config_storage_spec(),
    {
        &self.config_storage
    }

    /// Where the secrets are kept.
    pub fn secret_storage(&self) -> (r: &SecretStorage)
        ensures
            *r == self.secret_storage_spec(),
    {
        &self.secrets
    }

    /// Whether the configuration exists: one in memory always does, one in a
    /// file does where the file is present.
    pub fn config_exists(&self, file_present: bool) -> (r: bool)
        ensures
            r == (self.config_storage_spec() is Memory || file_present),
    {
        match &self.config_storage {
            ConfigStorage::File { .. } => file_present,
            ConfigStorage::Memory => true,
        }
    }

    /// The path of the configuration file, or `<in-memory>`.
    pub fn path(&self) -> (r: String)
        ensures
            match self.config_storage_spec() {
                ConfigStorage::File { path } => r@ == path@,
                ConfigStorage::Memory => r@ == IN_MEMORY_PATH@,
            },
    {
        match &self.config_storage {
            ConfigStorage::File { path } => path.clone(),
            ConfigStorage::Memory => IN_MEMORY_PATH.to_owned(),
        }
    }

    /// Takes in the configuration file's text (`None` where there is no
    /// file). A configuration in memory keeps its values and ignores it.
    pub fn load_values(&mut self, file_text: Option<&str>) -> (r: Result<(), ConfigError>)
        requires
            old(self).wf(),
        ensures
            final(self).wf(),
            final(self).stored_secrets() == old(self).stored_secrets(),
            final(self).config_storage_spec() == old(self).config_storage_spec(),
            final(self).secret_storage_spec() == old(self).secret_storage_spec(),
            old(self).config_storage_spec() is Memory ==> r is Ok && final(self).stored()
                == old(self).stored(),
            old(self).config_storage_spec() is File ==> match file_text {
                None => r is Ok && final(self).stored() == Map::<Seq<char>, Value>::empty(),
                Some(t) => match yaml_mapping_of(t@) {
                    Some(m) => r is Ok && final(self).stored() == m,
                    None => r matches Err(ConfigError::DeserializeError(_)) && final(self).stored()
                        == old(self).stored(),
                },
            },
    {
        if let ConfigStorage::Memory = &self.config_storage {
            return Ok(());
        }
        match file_text {
            None => {
                self.values = KeyMap::new();
                Ok(())
            },
            Some(t) => {
                let m = decode_yaml_mapping(t)?;
                self.values = m;
                Ok(())
            },
        }
    }

    /// Takes in what reading the secret backend gave. A missing entry or file
    /// means no secrets yet; secrets in memory are kept as they are.
    pub fn load_secrets(&mut self, read: SecretRead) -> (r: Result<(), ConfigError>)
        requires
            old(self).wf(),
        ensures
            final(self).wf(),
            final(self).stored() == old(self).stored(),
            final(self).config_storage_spec() == old(self).config_storage_spec(),
            final(self).secret_storage_spec() == old(self).secret_storage_spec(),
            r is Err ==> final(self).stored_secrets() == old(self).stored_secrets(),
            match old(self).secret_storage_spec() {
                SecretStorage::Memory => r is Ok && final(self).stored_secrets()
                    == old(self).stored_secrets(),
                SecretStorage::Keyring { .. } => match read {
                    SecretRead::Absent => r is Ok && final(self).stored_secrets() == Map::<
                        Seq<char>,
                        Value,
                    >::empty(),
                    SecretRead::Text(t) => match json_mapping_of(t@) {
                        Some(m) => r is Ok && final(self).stored_secrets() == m,
                        None => r matches Err(ConfigError::DeserializeError(_)),
                    },
                    SecretRead::VaultFailure(msg) => r == Err::<(), ConfigError>(
                        ConfigError::KeyringError(msg),
                    ),
                },
                SecretStorage::File { .. } => match read {
                    SecretRead::Text(t) => match yaml_mapping_of(t@) {
                        Some(m) => r is Ok && final(self).stored_secrets() == m,
                        None => r matches Err(ConfigError::DeserializeError(_)),
                    },
                    _ => r is Ok && final(self).stored_secrets() == Map::<Seq<char>, Value>::empty(),
                },
            },
    {
        match &self.secrets {
            SecretStorage::Memory => Ok(()),
            SecretStorage::Keyring { .. } => match read {
                SecretRead::Absent => {
                    self.secret_values = KeyMap::new();
                    Ok(())
                },
                SecretRead::Text(t) => {
                    let m = decode_json_mapping(t.as_str())?;
                    self.secret_values = m;
                    Ok(())
                },
                SecretRead::VaultFailure(msg) => Err(ConfigError::KeyringError(msg)),
            },
            SecretStorage::File { .. } => match read {
                SecretRead::Text(t) => {
                    let m = decode_yaml_mapping(t.as_str())?;
                    self.secret_values = m;
                    Ok(())
                },
                _ => {
                    self.secret_values = KeyMap::new();
                    Ok(())
                },
            },
        }
    }

    /// The text to write to the configuration file, or `None` for a
    /// configuration in memory, which writes nothing.
    pub fn values_text(&self) -> (r: Result<Option<String>, ConfigError>)
        requires
            self.wf(),
        ensures
            self.config_storage_spec() is Memory ==> r == Ok::<Option<String>, ConfigError>(None),
            self.config_storage_spec() is File ==> match r {
                Ok(t) => t matches Some(s) && yaml_text_of(self.stored_object()) == Some(s@),
                Err(e) => yaml_text_of(self.stored_object()) is None && e is DeserializeError,
            },
    {
        match &self.config_storage {
            ConfigStorage::Memory => Ok(None),
            ConfigStorage::File { .. } => {
                let s = encode_yaml_mapping(&self.values)?;
                Ok(Some(s))
            },
        }
    }

    /// The text to write to the secret backend: JSON for the vault, YAML for a
    /// file, `None` for secrets in memory.
    pub fn secrets_text(&self) -> (r: Result<Option<String>, ConfigError>)
        requires
            self.wf(),
        ensures
            match self.secret_storage_spec() {
                SecretStorage::Memory => r == Ok::<Option<String>, ConfigError>(None),
                SecretStorage::Keyring { .. } => match r {
                    Ok(t) => t matches Some(s) && json_text_of(self.stored_secrets_object())
                        == Some(s@),
                    Err(e) => json_text_of(self.stored_secrets_object()) is None
                        && e is DeserializeError,
                },
                SecretStorage::File { .. } => match r {
                    Ok(t) => t matches Some(s) && yaml_text_of(self.stored_secrets_object())
                        == Some(s@),
                    Err(e) => yaml_text_of(self.stored_secrets_object()) is None
                        && e is DeserializeError,
                },
            },
    {
        match &self.secrets {
            SecretStorage::Memory => Ok(None),
            SecretStorage::Keyring { .. } => {
                let s = encode_json_mapping(&self.secret_values)?;
                Ok(Some(s))
            },
            SecretStorage::File { .. } => {
                let s = encode_yaml_mapping(&self.secret_values)?;
                Ok(Some(s))
            },
        }
    }

    /// The value of a configuration key: the environment variable named by
    /// the key in upper case wins; else the stored value; else `NotFound`.
    pub fn get_param(&self, key: &str, env: &Environment) -> (r: Result<Value, ConfigError>)
        requires
            self.wf(),
            env.wf(),
        ensures
            match r {
                Ok(v) => resolve(key@, env@, self.stored()) == Some(v),
                Err(e) => resolve(key@, env@, self.stored()) is None && is_not_found(e, key@),
            },
    {
        resolve_in(key, env, &self.values)
    }

    /// Stores a configuration value; secrets and the environment are left as
    /// they are.
    pub fn set_param(&mut self, key: &str, value: Value) -> (r: Result<(), ConfigError>)
        requires
            old(self).wf(),
        ensures
            r is Ok,
            final(self).wf(),
            final(self).stored() == old(self).stored().insert(key@, value),
            final(self).stored_secrets() == old(self).stored_secrets(),
            final(self).config_storage_spec() == old(self).config_storage_spec(),
            final(self).secret_storage_spec() == old(self).secret_storage_spec(),
    {
        self.values.insert(key.to_owned(), value);
        Ok(())
    }

    /// Removes a configuration value; the other keys and the secrets are left
    /// as they are.
    pub fn delete(&mut self, key: &str) -> (r: Result<(), ConfigError>)
        requires
            old(self).wf(),
        ensures
            r is Ok,
            final(self).wf(),
            final(self).stored() == old(self).stored().remove(key@),
            final(self).stored_secrets() == old(self).stored_secrets(),
            final(self).config_storage_spec() == old(self).config_storage_spec(),
            final(self).secret_storage_spec() == old(self).secret_storage_spec(),
    {
        let _ = self.values.remove(key);
        Ok(())
    }

    /// The value of a secret: the environment variable named by the key in
    /// upper case wins; else the stored secret; else `NotFound`.
    pub fn get_secret(&self, key: &str, env: &Environment) -> (r: Result<Value, ConfigError>)
        requires
            self.wf(),
            env.wf(),
        ensures
            match r {
                Ok(v) => resolve(key@, env@, self.stored_secrets()) == Some(v),
                Err(e) => resolve(key@, env@, self.stored_secrets()) is None && is_not_found(e, key@),
            },
    {
        resolve_in(key, env, &self.secret_values)
    }

    /// Stores a secret; configuration values are left as they are.
    pub fn set_secret(&mut self, key: &str, value: Value) -> (r: Result<(), ConfigError>)
        requires
            old(self).wf(),
        ensures
            r is Ok,
            final(self).wf(),
            final(self).stored_secrets() == old(self).stored_secrets().insert(key@, value),
            final(self).stored() == old(self).stored(),
            final(self).config_storage_spec() == old(self).config_storage_spec(),
            final(self).secret_storage_spec() == old(self).secret_storage_spec(),
    {
        self.secret_values.insert(key.to_owned(), value);
        Ok(())
    }

    /// Removes a secret; the other secrets and the configuration values are
    /// left as they are.
    pub fn delete_secret(&mut self, key: &str) -> (r: Result<(), ConfigError>)
        requires
            old(self).wf(),
        ensures
            r is Ok,
            final(self).wf(),
            final(self).stored_secrets() == old(self).stored_secrets().remove(key@),
            final(self).stored() == old(self).stored(),
            final(self).config_storage_spec() == old(self).config_storage_spec(),
            final(self).secret_storage_spec() == old(self).secret_storage_spec(),
    {
        let _ = self.secret_values.remove(key);
        Ok(())
    }

    /// The value of a key among the secrets or among the configuration values.
    pub fn get(&self, key: &str, is_secret: bool, env: &Environment) -> (r: Result<
        Value,
        ConfigError,
    >)
        requires
            self.wf(),
            env.wf(),
        ensures
            ({
                let stored = if is_secret {
                    self.stored_secrets()
                } else {
                    self.stored()
                };
                match r {
                    Ok(v) => resolve(key@, env@, stored) == Some(v),
                    Err(e) => resolve(key@, env@, stored) is None && is_not_found(e, key@),
                }
            }),
    {
        if is_secret {
            self.get_secret(key, env)
        } else {
            self.get_param(key, env)
        }
    }

    /// Stores a value among the secrets or among the configuration values.
    pub fn set(&mut self, key: &str, value: Value, is_secret: bool) -> (r: Result<(), ConfigError>)
        requires
            old(self).wf(),
        ensures
            r is Ok,
            final(self).wf(),
            is_secret ==> final(self).stored_secrets() == old(self).stored_secrets().insert(
                key@,
                value,
            ) && final(self).stored() == old(self).stored(),
            !is_secret ==> final(self).stored() == old(self).stored().insert(key@, value)
                && final(self).stored_secrets() == old(self).stored_secrets(),
            final(self).config_storage_spec() == old(self).config_storage_spec(),
            final(self).secret_storage_spec() == old(self).secret_storage_spec(),
    {
        if is_secret {
            self.set_secret(key, value)
        } else {
            self.set_param(key, value)
        }
    }
}

/// A value set under a key is what reading the key gives, whatever the
/// storage mode, where no environment variable shadows the key.
pub proof fn law_set_then_get(
    stored: Map<Seq<char>, Value>,
    env: Map<Seq<char>, String>,
    key: Seq<char>,
    value: Value,
)
    requires
        !env.contains_key(upper_of(key)),
    ensures
        resolve(key, env, stored.insert(key, value)) == Some(value),
{
}

/// An environment variable named by the key in upper case decides the value,
/// whatever is stored; without it the stored value counts again.
pub proof fn law_environment_wins(
    stored: Map<Seq<char>, Value>,
    env: Map<Seq<char>, String>,
    key: Seq<char>,
    text: String,
)
    ensures
        resolve(key, env.insert(upper_of(key), text), stored) == Some(env_value_of(text@)),
        resolve(key, env.remove(upper_of(key)), stored) == (if stored.contains_key(key) {
            Some(stored[key])
        } else {
            None
        }),
{
}

/// After a key is deleted, reading it finds nothing where no environment
/// variable shadows it; every other key reads as before.
pub proof fn law_delete_then_get(
    stored: Map<Seq<char>, Value>,
    env: Map<Seq<char>, String>,
    key: Seq<char>,
    other: Seq<char>,
)
    requires
        !env.contains_key(upper_of(key)),
    ensures
        resolve(key, env, stored.remove(key)) is None,
        other != key ==> resolve(other, env, stored.remove(key)) == resolve(other, env, stored),
{
}

} // verus!
