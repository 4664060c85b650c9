//! The node's configuration: what a parsed file means.
//!
//! Two sections are explicit choices: a file must say whether the wire is
//! encrypted, and how admin requests are authenticated. Leaving either out
//! is refused, and so is a section that contradicts itself.

use crate::node::cluster::{Addr, Member, NodeId};
use crate::node::markers::PurgePolicy;
use crate::obs::log;
use crate::obs::log::LogLevel;
use crate::text;
use crate::text::{push_decimal, push_hex_text, quote, same_text};
use vstd::prelude::*;
use vstd::string::StringExecFns;

verus! {

/// Default capacity of the log buffer.
pub const DEFAULT_BUFFER_BYTES: usize = 67_108_864;

/// Default limit of a payload: a frame of this size fits one datagram.
pub const DEFAULT_MAX_PAYLOAD: usize = 512;

/// Default admission budget.
pub const DEFAULT_ADMISSION_BYTES: u64 = 262_144;

/// Default bounds of the election timeout.
pub const DEFAULT_ELECTION_MIN_NS: u64 = 150_000_000;

pub const DEFAULT_ELECTION_MAX_NS: u64 = 300_000_000;

/// Default lifetime of a signed admin request.
pub const DEFAULT_ADMIN_TTL_MS: u64 = 30_000;

/// The least lifetime of a signed admin request.
pub const MIN_ADMIN_TTL_MS: u64 = 1000;

/// Where the metrics endpoint binds unless told otherwise: 127.0.0.1:9600.
pub const DEFAULT_METRICS_BIND: Addr = (0x7F00_0001, 9600);

/// Where a process listens. The cluster's own addresses are of the first
/// kind alone; an endpoint beside them may be of either.
#[derive(Debug, Clone, Copy, PartialEq, Eq)]
pub enum Endpoint {
    V4(Addr),
    V6 { ip: u128, port: u16, flowinfo: u32, scope_id: u32 },
}

/// A key that admin requests are signed with, by name and file.
#[derive(Debug, Clone)]
pub struct AdminKeyEntry {
    pub name: String,
    pub key_path: String,
}

impl View for AdminKeyEntry {
    type V = (Seq<char>, Seq<char>);

    open spec fn view(&self) -> (Seq<char>, Seq<char>) {
        (self.name@, self.key_path@)
    }
}

/// How admin requests are authenticated.
#[derive(Debug, Clone, Copy, PartialEq, Eq, Structural)]
pub enum AdminAuthMode {
    /// Not at all: access to the instance directory is the boundary.
    NoAuth,
    /// By a signature with a named key.
    Hmac,
}

/// The admin section.
#[derive(Debug, Clone)]
pub struct AdminSection {
    pub auth: AdminAuthMode,
    pub keys: Vec<AdminKeyEntry>,
    pub request_ttl_ms: u64,
}

impl Default for AdminSection {
    fn default() -> (s: Self)
        ensures
            s.auth == AdminAuthMode::NoAuth,
            s.keys@.len() == 0,
            s.request_ttl_ms == DEFAULT_ADMIN_TTL_MS,
    {
        AdminSection {
            auth: AdminAuthMode::NoAuth,
            keys: Vec::new(),
            request_ttl_ms: DEFAULT_ADMIN_TTL_MS,
        }
    }
}

/// When the group key is renewed.
#[derive(Debug, Clone, Copy, PartialEq, Eq, Structural)]
pub struct RotationPolicy {
    pub interval_ns: u64,
    pub bytes: u64,
}

/// Whether the wire is encrypted.
#[derive(Debug)]
pub enum CryptoConfig {
    Disabled,
    Enabled { key_path: String, allowlist_path: String, rotation: RotationPolicy },
}

impl Default for CryptoConfig {
    fn default() -> (c: CryptoConfig)
        ensures
            c is Disabled,
    {
        CryptoConfig::Disabled
    }
}

/// What a crypto configuration says.
#[verifier::ext_equal]
pub enum CryptoV {
    Disabled,
    Enabled { key_path: Seq<char>, allowlist_path: Seq<char>, rotation: RotationPolicy },
}

impl View for CryptoConfig {
    type V = CryptoV;

    open spec fn view(&self) -> CryptoV {
        match self {
            CryptoConfig::Disabled => CryptoV::Disabled,
            CryptoConfig::Enabled { key_path, allowlist_path, rotation } => CryptoV::Enabled {
                key_path: key_path@,
                allowlist_path: allowlist_path@,
                rotation: *rotation,
            },
        }
    }
}

/// The crypto section as parsed.
#[derive(Debug)]
pub struct CryptoSection {
    pub enabled: bool,
    pub key_path: Option<String>,
    pub allowlist_path: Option<String>,
    pub rotation_interval_ns: Option<u64>,
    pub rotation_bytes: Option<u64>,
}

/// A configuration file as parsed. What the file left out and has no
/// default of its own is `None`.
#[derive(Debug)]
pub struct NodeConfigFile {
    pub id: NodeId,
    pub bind: Addr,
    pub instance_dir: String,
    pub app_id: String,
    pub members: Vec<Member>,
    pub learners: Vec<Member>,
    pub buffer_bytes: Option<usize>,
    pub max_payload: Option<usize>,
    pub admission_bytes: Option<u64>,
    pub election_timeout_min_ns: Option<u64>,
    pub election_timeout_max_ns: Option<u64>,
    pub seed: Option<u64>,
    pub journal_segment_bytes: Option<u64>,
    /// The slack below a snapshot, where the purge section is there.
    pub purge_slack_bytes: Option<u64>,
    pub crypto: Option<CryptoSection>,
    pub admin: Option<AdminSection>,
    pub allow_volatile_fs: bool,
    pub log_level: Option<String>,
    /// The metrics section, and where it binds.
    pub metrics: Option<Option<Endpoint>>,
}

/// A node's configuration.
#[derive(Debug)]
pub struct NodeConfig {
    pub id: NodeId,
    /// Every voter, this node among them where it votes. Used on a fresh
    /// instance only; after that the recorded configuration holds.
    pub members: Vec<Member>,
    /// Every learner; disjoint from the members.
    pub learners: Vec<Member>,
    pub bind: Addr,
    pub instance_dir: String,
    pub app_id: String,
    /// Capacity of the log buffer, a power of two.
    pub buffer_bytes: usize,
    pub max_payload: usize,
    pub admission_bytes: u64,
    pub election_timeout_min_ns: u64,
    pub election_timeout_max_ns: u64,
    pub seed: u64,
    pub purge: PurgePolicy,
    pub journal_segment_bytes: u64,
    pub crypto: CryptoConfig,
}

/// Logging and metrics.
#[derive(Debug, Clone, Copy)]
pub struct ObsOptions {
    pub log_level: LogLevel,
    /// Where the metrics endpoint binds; none where there is no endpoint.
    pub metrics_bind: Option<Endpoint>,
}

/// What the process needs beside the node's configuration.
#[derive(Debug)]
pub struct StartupOptions {
    pub allow_volatile_fs: bool,
    pub obs: ObsOptions,
    pub admin: AdminSection,
}

/// The setting that a refusal is about.
#[derive(Debug, Clone, Copy, PartialEq, Eq, Structural)]
pub enum Setting {
    CryptoKeyPath,
    CryptoAllowlistPath,
    CryptoEnabled,
    AdminTtl,
    AdminKeys,
    LogLevel,
}

impl Setting {
    /// The setting's name.
    pub open spec fn name(self) -> Seq<char> {
        match self {
            Setting::CryptoKeyPath => "crypto.key_path"@,
            Setting::CryptoAllowlistPath => "crypto.allowlist_path"@,
            Setting::CryptoEnabled => "crypto.enabled"@,
            Setting::AdminTtl => "admin.request_ttl_ms"@,
            Setting::AdminKeys => "admin.keys"@,
            Setting::LogLevel => "log.level"@,
        }
    }

    /// The setting's name.
    pub fn as_str(self) -> (s: &'static str)
        ensures
            s@ == self.name(),
    {
        match self {
            Setting::CryptoKeyPath => "crypto.key_path",
            Setting::CryptoAllowlistPath => "crypto.allowlist_path",
            Setting::CryptoEnabled => "crypto.enabled",
            Setting::AdminTtl => "admin.request_ttl_ms",
            Setting::AdminKeys => "admin.keys",
            Setting::LogLevel => "log.level",
        }
    }
}

/// Why a parsed file is refused.
#[derive(Debug)]
pub enum ConfigError {
    CryptoChoiceRequired,
    AdminChoiceRequired,
    /// A setting that contradicts another, or itself; `detail` names it.
    Invalid { field: Setting, detail: String },
}

/// What a refusal says.
#[verifier::ext_equal]
pub enum ConfigErrorV {
    CryptoChoiceRequired,
    AdminChoiceRequired,
    Invalid { field: Setting, detail: Seq<char> },
}

impl View for ConfigError {
    type V = ConfigErrorV;

    open spec fn view(&self) -> ConfigErrorV {
        match self {
            ConfigError::CryptoChoiceRequired => ConfigErrorV::CryptoChoiceRequired,
            ConfigError::AdminChoiceRequired => ConfigErrorV::AdminChoiceRequired,
            ConfigError::Invalid { field, detail } => ConfigErrorV::Invalid {
                field: *field,
                detail: detail@,
            },
        }
    }
}

impl ConfigErrorV {
    /// The refusal in words.
    pub open spec fn text(self) -> Seq<char> {
        match self {
            ConfigErrorV::CryptoChoiceRequired =>
            "[crypto] section is required: set enabled = false for cleartext (the default posture) or enabled = true with key_path/allowlist_path"@,
            ConfigErrorV::AdminChoiceRequired =>
            "[admin] section is required: auth = \"hmac\" with keys = [...] or auth = \"none\" (filesystem access is the boundary)"@,
            ConfigErrorV::Invalid { detail, .. } => detail,
        }
    }
}

impl ConfigError {
    /// The refusal in words.
    pub fn message(&self) -> (s: String)
        ensures
            s@ == self@.text(),
    {
        match self {
            ConfigError::CryptoChoiceRequired =>
            "[crypto] section is required: set enabled = false for cleartext (the default posture) or enabled = true with key_path/allowlist_path".to_owned(),
            ConfigError::AdminChoiceRequired =>
            "[admin] section is required: auth = \"hmac\" with keys = [...] or auth = \"none\" (filesystem access is the boundary)".to_owned(),
            ConfigError::Invalid { detail, .. } => detail.clone(),
        }
    }
}

/// A refusal of one setting.
fn invalid(field: Setting, detail: &str) -> (e: ConfigError)
    ensures
        e@ == (ConfigErrorV::Invalid { field, detail: detail@ }),
{
    ConfigError::Invalid { field, detail: detail.to_owned() }
}

/// A refusal of one setting.
pub open spec fn refused(field: Setting, detail: Seq<char>) -> ConfigErrorV {
    ConfigErrorV::Invalid { field, detail }
}

/// A node's seed unless the file gives one. Every id has its own, so that
/// no two members time out in step.
pub open spec fn seed_of(id: NodeId) -> u64 {
    1u64 ^ (((id as int * 0x9E37_79B9_7F4A_7C15) % 0x1_0000_0000_0000_0000) as u64)
}

/// A node's seed unless the file gives one.
pub fn default_seed_for(id: NodeId) -> (seed: u64)
    ensures
        seed == seed_of(id),
{
    1u64 ^ (id as u64).wrapping_mul(0x9E37_79B9_7F4A_7C15)
}

/// Multiplying by the inverse of the seeds' multiplier gives the id back.
proof fn lemma_multiplier_has_an_inverse(x: int)
    requires
        0 <= x < 0x1_0000_0000_0000_0000,
    ensures
        (((x * 0x9E37_79B9_7F4A_7C15) % 0x1_0000_0000_0000_0000) * 0xF1DE_83E1_9937_733D)
            % 0x1_0000_0000_0000_0000 == x,
{
    let m: int = 0x1_0000_0000_0000_0000;
    let k: int = 0x9E37_79B9_7F4A_7C15;
    let v: int = 0xF1DE_83E1_9937_733D;
    let q: int = 0x957B_BF35_006E_D677;
    assert((x * k) * v == m * (x * q) + x) by (nonlinear_arith)
        requires
            k * v == m * q + 1,
    ;
    vstd::arithmetic::div_mod::lemma_mul_mod_noop_left(x * k, v, m);
    vstd::arithmetic::div_mod::lemma_mod_multiples_vanish(x * q, x, m);
    vstd::arithmetic::div_mod::lemma_small_mod(x as nat, m as nat);
}

/// No two nodes have the same seed by default.
pub proof fn law_every_id_has_its_own_seed(a: NodeId, b: NodeId)
    requires
        a != b,
    ensures
        seed_of(a) != seed_of(b),
{
    lemma_multiplier_has_an_inverse(a as int);
    lemma_multiplier_has_an_inverse(b as int);
    let x: u64 = ((a as int * 0x9E37_79B9_7F4A_7C15) % 0x1_0000_0000_0000_0000) as u64;
    let y: u64 = ((b as int * 0x9E37_79B9_7F4A_7C15) % 0x1_0000_0000_0000_0000) as u64;
    assert(1u64 ^ x == 1u64 ^ y ==> x == y) by (bit_vector);
}

/// What a value that may be left out comes to.
pub open spec fn given_or<T>(given: Option<T>, default: T) -> T {
    match given {
        Some(v) => v,
        None => default,
    }
}

/// What the purge section asks for.
pub open spec fn purge_policy(slack: Option<u64>) -> PurgePolicy {
    match slack {
        Some(s) => PurgePolicy::BelowSnapshot { slack_bytes: s },
        None => PurgePolicy::Disabled,
    }
}

/// What the crypto section comes to. One that names key material and does
/// not use it is refused: what looks encrypted must not run in the clear.
pub open spec fn crypto_choice(
    section: Option<CryptoSection>,
    defaults: RotationPolicy,
) -> Result<CryptoV, ConfigErrorV> {
    match section {
        None => Err(ConfigErrorV::CryptoChoiceRequired),
        Some(c) => if c.enabled {
            if c.key_path is None {
                Err(
                    refused(
                        Setting::CryptoKeyPath,
                        "crypto.enabled = true requires crypto.key_path"@,
                    ),
                )
            } else if c.allowlist_path is None {
                Err(
                    refused(
                        Setting::CryptoAllowlistPath,
                        "crypto.enabled = true requires crypto.allowlist_path"@,
                    ),
                )
            } else {
                Ok(
                    CryptoV::Enabled {
                        key_path: (c.key_path->0)@,
                        allowlist_path: (c.allowlist_path->0)@,
                        rotation: RotationPolicy {
                            interval_ns: given_or(c.rotation_interval_ns, defaults.interval_ns),
                            bytes: given_or(c.rotation_bytes, defaults.bytes),
                        },
                    },
                )
            }
        } else if c.key_path is Some || c.allowlist_path is Some {
            Err(
                refused(
                    Setting::CryptoEnabled,
                    "enabled = false but key_path/allowlist_path given — remove them or set enabled = true"@,
                ),
            )
        } else {
            Ok(CryptoV::Disabled)
        },
    }
}

/// What the crypto section comes to.
pub fn choose_crypto(section: Option<CryptoSection>, defaults: RotationPolicy) -> (r: Result<
    CryptoConfig,
    ConfigError,
>)
    ensures
        match r {
            Ok(c) => crypto_choice(section, defaults) == Ok::<_, ConfigErrorV>(c@),
            Err(e) => crypto_choice(section, defaults) == Err::<CryptoV, _>(e@),
        },
{
    let c = match section {
        None => {
            return Err(ConfigError::CryptoChoiceRequired);
        },
        Some(c) => c,
    };
    if c.enabled {
        let key_path = match c.key_path {
            None => {
                return Err(
                    invalid(
                        Setting::CryptoKeyPath,
                        "crypto.enabled = true requires crypto.key_path",
                    ),
                );
            },
            Some(p) => p,
        };
        let allowlist_path = match c.allowlist_path {
            None => {
                return Err(
                    invalid(
                        Setting::CryptoAllowlistPath,
                        "crypto.enabled = true requires crypto.allowlist_path",
                    ),
                );
            },
            Some(p) => p,
        };
        let interval_ns: u64 = match c.rotation_interval_ns {
            Some(n) => n,
            None => defaults.interval_ns,
        };
        let bytes: u64 = match c.rotation_bytes {
            Some(n) => n,
            None => defaults.bytes,
        };
        Ok(
            CryptoConfig::Enabled {
                key_path,
                allowlist_path,
                rotation: RotationPolicy { interval_ns, bytes },
            },
        )
    } else {
        if c.key_path.is_some() || c.allowlist_path.is_some() {
            return Err(
                invalid(
                    Setting::CryptoEnabled,
                    "enabled = false but key_path/allowlist_path given — remove them or set enabled = true",
                ),
            );
        }
        Ok(CryptoConfig::Disabled)
    }
}

/// The hash of a byte string that identifies a key on the wire: each byte is
/// mixed in and multiplied by a prime.
pub open spec fn fnv1a64(bytes: Seq<u8>) -> u64
    decreases bytes.len(),
{
    if bytes.len() == 0 {
        0xcbf2_9ce4_8422_2325
    } else {
        (((fnv1a64(bytes.drop_last()) ^ (bytes.last() as u64)) as int * 0x100_0000_01b3)
            % 0x1_0000_0000_0000_0000) as u64
    }
}

/// A key name's hash.
pub open spec fn name_hash(name: Seq<char>) -> u64 {
    fnv1a64(vstd::utf8::encode_utf8(name))
}

/// A key name's hash.
pub fn hash_name(name: &str) -> (h: u64)
    ensures
        h == name_hash(name@),
{
    let bytes = name.as_bytes();
    let mut h: u64 = 0xcbf2_9ce4_8422_2325;
    let ghost b = bytes@;
    assert(b.take(0) =~= Seq::<u8>::empty());
    let mut i: usize = 0;
    while i < bytes.len()
        invariant
            i <= bytes.len(),
            b == bytes@,
            h == fnv1a64(b.take(i as int)),
        decreases bytes.len() - i,
    {
        assert(b.take(i as int + 1).drop_last() =~= b.take(i as int));
        h = (h ^ (bytes[i] as u64)).wrapping_mul(0x100_0000_01b3);
        i = i + 1;
    }
    assert(b.take(i as int) =~= b);
    h
}

/// The names of keys.
pub open spec fn key_names(keys: Seq<AdminKeyEntry>) -> Seq<Seq<char>> {
    keys.map_values(|k: AdminKeyEntry| k.name@)
}

/// The last of `names` with the hash `h`, if any.
pub open spec fn hashed(names: Seq<Seq<char>>, h: u64) -> Option<Seq<char>>
    decreases names.len(),
{
    if names.len() == 0 {
        None
    } else if name_hash(names.last()) == h {
        Some(names.last())
    } else {
        hashed(names.drop_last(), h)
    }
}

/// The refusal of a repeated name.
pub open spec fn duplicate_text(name: Seq<char>) -> Seq<char> {
    "duplicate name "@ + text::quoted(name) + " in admin.keys — key names must be unique"@
}

/// The refusal of two names with one hash.
pub open spec fn collision_text(prev: Seq<char>, name: Seq<char>) -> Seq<char> {
    "admin.keys entries "@ + text::quoted(prev) + " and "@ + text::quoted(name)
        + " collide in the 64-bit FNV-1a name hash ("@ + text::hex_text(name_hash(name))
        + ") that identifies a key on the wire — rename one of them"@
}

/// What is wrong with a key name, given those before it.
pub open spec fn name_fault(before: Seq<Seq<char>>, name: Seq<char>) -> Option<Seq<char>> {
    if name.len() == 0 {
        Some(
            "an entry in admin.keys has an empty name — every admin key needs a name (it is what uc2ctl passes as --admin-key-name and what audit.jsonl records as the actor)"@,
        )
    } else if before.contains(name) {
        Some(duplicate_text(name))
    } else {
        match hashed(before, name_hash(name)) {
            Some(prev) => Some(collision_text(prev, name)),
            None => None,
        }
    }
}

/// What is wrong with the first faulty key name, if any is.
pub open spec fn names_fault(names: Seq<Seq<char>>) -> Option<Seq<char>>
    decreases names.len(),
{
    if names.len() == 0 {
        None
    } else {
        match names_fault(names.drop_last()) {
            Some(f) => Some(f),
            None => name_fault(names.drop_last(), names.last()),
        }
    }
}

/// What is wrong with the key name at `i`, given those before it.
fn check_name(keys: &Vec<AdminKeyEntry>, i: usize) -> (r: Option<String>)
    requires
        i < keys.len(),
    ensures
        crate::node::effects::text_view(r) == name_fault(
            key_names(keys@).take(i as int),
            keys@[i as int].name@,
        ),
{
    let ghost names = key_names(keys@);
    let ghost before = names.take(i as int);
    let name = keys[i].name.as_str();
    if name.is_empty() {
        return Some(
            "an entry in admin.keys has an empty name — every admin key needs a name (it is what uc2ctl passes as --admin-key-name and what audit.jsonl records as the actor)".to_owned(),
        );
    }
    let mut j: usize = 0;
    while j < i
        invariant
            j <= i < keys.len(),
            names == key_names(keys@),
            before == names.take(i as int),
            name@ == keys@[i as int].name@,
            name@.len() > 0,
            forall|k: int| 0 <= k < j ==> names[k] != name@,
        decreases i - j,
    {
        if same_text(keys[j].name.as_str(), name) {
            assert(before[j as int] == name@);
            let mut m = "duplicate name ".to_owned();
            let q = quote(name);
            m.append(q.as_str());
            m.append(" in admin.keys — key names must be unique");
            assert(m@ =~= duplicate_text(name@));
            return Some(m);
        }
        j = j + 1;
    }
    assert(!before.contains(name@));
    let h: u64 = hash_name(name);
    assert(before.take(i as int) =~= before);
    let mut k: usize = i;
    while k > 0
        invariant
            k <= i < keys.len(),
            names == key_names(keys@),
            before == names.take(i as int),
            name@ == keys@[i as int].name@,
            name@.len() > 0,
            !before.contains(name@),
            h == name_hash(name@),
            hashed(before, h) == hashed(before.take(k as int), h),
        decreases k,
    {
        assert(before.take(k as int).drop_last() =~= before.take(k as int - 1));
        assert(before.take(k as int).last() == keys@[k as int - 1].name@);
        let prev = keys[k - 1].name.as_str();
        if hash_name(prev) == h {
            let mut m = "admin.keys entries ".to_owned();
            let q = quote(prev);
            m.append(q.as_str());
            m.append(" and ");
            let q = quote(name);
            m.append(q.as_str());
            m.append(" collide in the 64-bit FNV-1a name hash (");
            push_hex_text(&mut m, h);
            m.append(") that identifies a key on the wire — rename one of them");
            assert(m@ =~= collision_text(prev@, name@));
            return Some(m);
        }
        k = k - 1;
    }
    None
}

/// What the admin section comes to.
pub open spec fn admin_fault(section: Option<AdminSection>) -> Option<ConfigErrorV> {
    match section {
        None => Some(ConfigErrorV::AdminChoiceRequired),
        Some(a) => if a.request_ttl_ms < MIN_ADMIN_TTL_MS {
            Some(
                refused(
                    Setting::AdminTtl,
                    "admin.request_ttl_ms must be >= 1000, got "@ + text::digits(
                        a.request_ttl_ms as nat,
                    ),
                ),
            )
        } else if a.auth is NoAuth {
            if a.keys@.len() > 0 {
                Some(
                    refused(
                        Setting::AdminKeys,
                        "admin.auth = \"none\" but admin.keys is non-empty — remove the keys or set auth = \"hmac\""@,
                    ),
                )
            } else {
                None
            }
        } else if a.keys@.len() == 0 {
            Some(
                refused(
                    Setting::AdminKeys,
                    "admin.auth = \"hmac\" requires at least one entry in admin.keys"@,
                ),
            )
        } else {
            match names_fault(key_names(a.keys@)) {
                Some(detail) => Some(refused(Setting::AdminKeys, detail)),
                None => None,
            }
        },
    }
}

/// Check the names of the keys.
fn check_names(keys: &Vec<AdminKeyEntry>) -> (r: Option<String>)
    ensures
        crate::node::effects::text_view(r) == names_fault(key_names(keys@)),
{
    let ghost names = key_names(keys@);
    assert(names.take(0) =~= Seq::<Seq<char>>::empty());
    let mut i: usize = 0;
    while i < keys.len()
        invariant
            i <= keys.len(),
            names == key_names(keys@),
            names_fault(names.take(i as int)) is None,
        decreases keys.len() - i,
    {
        assert(names.take(i as int + 1).drop_last() =~= names.take(i as int));
        match check_name(keys, i) {
            Some(m) => {
                proof {
                    lemma_fault_persists(names, i as int + 1);
                }
                return Some(m);
            },
            None => {},
        }
        i = i + 1;
    }
    assert(names.take(i as int) =~= names);
    None
}

proof fn lemma_fault_persists(names: Seq<Seq<char>>, n: int)
    requires
        0 <= n <= names.len(),
        names_fault(names.take(n)) is Some,
    ensures
        names_fault(names) == names_fault(names.take(n)),
    decreases names.len(),
{
    if n == names.len() {
        assert(names.take(n) =~= names);
    } else {
        assert(names.drop_last().take(n) =~= names.take(n));
        lemma_fault_persists(names.drop_last(), n);
    }
}

/// Check the admin section.
pub fn choose_admin(section: Option<AdminSection>) -> (r: Result<AdminSection, ConfigError>)
    ensures
        match r {
            Ok(a) => admin_fault(section) is None && section == Some(a),
            Err(e) => admin_fault(section) == Some(e@),
        },
{
    let a = match section {
        None => {
            return Err(ConfigError::AdminChoiceRequired);
        },
        Some(a) => a,
    };
    if a.request_ttl_ms < MIN_ADMIN_TTL_MS {
        let mut detail = "admin.request_ttl_ms must be >= 1000, got ".to_owned();
        push_decimal(&mut detail, a.request_ttl_ms as u128);
        return Err(ConfigError::Invalid { field: Setting::AdminTtl, detail });
    }
    match a.auth {
        AdminAuthMode::NoAuth => {
            if a.keys.len() > 0 {
                return Err(
                    invalid(
                        Setting::AdminKeys,
                        "admin.auth = \"none\" but admin.keys is non-empty — remove the keys or set auth = \"hmac\"",
                    ),
                );
            }
        },
        AdminAuthMode::Hmac => {
            if a.keys.len() == 0 {
                return Err(
                    invalid(
                        Setting::AdminKeys,
                        "admin.auth = \"hmac\" requires at least one entry in admin.keys",
                    ),
                );
            }
            match check_names(&a.keys) {
                Some(detail) => {
                    return Err(ConfigError::Invalid { field: Setting::AdminKeys, detail });
                },
                None => {},
            }
        },
    }
    Ok(a)
}

/// The level that the log section asks for.
pub open spec fn level_choice(level: Option<Seq<char>>) -> Result<LogLevel, ConfigErrorV> {
    match level {
        None => Ok(LogLevel::Info),
        Some(s) => if s == LogLevel::Error.name() {
            Ok(LogLevel::Error)
        } else if s == LogLevel::Warn.name() {
            Ok(LogLevel::Warn)
        } else if s == LogLevel::Info.name() {
            Ok(LogLevel::Info)
        } else {
            Err(refused(Setting::LogLevel, log::bad_level_text(s)))
        },
    }
}

/// The level that the log section asks for.
pub fn choose_level(level: &Option<String>) -> (r: Result<LogLevel, ConfigError>)
    ensures
        match r {
            Ok(l) => level_choice(crate::node::effects::text_view(*level)) == Ok::<
                _,
                ConfigErrorV,
            >(l),
            Err(e) => level_choice(crate::node::effects::text_view(*level)) == Err::<LogLevel, _>(
                e@,
            ),
        },
{
    proof {
        reveal_strlit("error");
        reveal_strlit("warn");
        reveal_strlit("info");
        assert("error"@[0] == 'e');
        assert("warn"@[0] == 'w');
        assert("info"@[0] == 'i');
    }
    match level {
        None => Ok(LogLevel::default()),
        Some(s) => match LogLevel::parse(s.as_str()) {
            Ok(l) => Ok(l),
            Err(detail) => Err(ConfigError::Invalid { field: Setting::LogLevel, detail }),
        },
    }
}

/// Where the metrics section binds.
pub open spec fn metrics_choice(section: Option<Option<Endpoint>>) -> Option<Endpoint> {
    match section {
        Some(bind) => Some(given_or(bind, Endpoint::V4(DEFAULT_METRICS_BIND))),
        None => None,
    }
}

/// The first refusal that a parsed file meets, in the order of its sections.
pub open spec fn file_fault(f: NodeConfigFile, defaults: RotationPolicy) -> Option<ConfigErrorV> {
    match crypto_choice(f.crypto, defaults) {
        Err(e) => Some(e),
        Ok(_) => match admin_fault(f.admin) {
            Some(e) => Some(e),
            None => match level_choice(crate::node::effects::text_view(f.log_level)) {
                Err(e) => Some(e),
                Ok(_) => None,
            },
        },
    }
}

/// What a parsed file means, or the first reason to refuse it. `defaults`
/// are the key renewals where the file gives none.
pub fn load_parsed(f: NodeConfigFile, defaults: RotationPolicy) -> (r: Result<
    (NodeConfig, StartupOptions),
    ConfigError,
>)
    ensures
        match r {
            Err(e) => file_fault(f, defaults) == Some(e@),
            Ok((cfg, opts)) => {
                &&& file_fault(f, defaults) is None
                &&& means(f, defaults, cfg, opts)
            },
        },
{
    let purge = match f.purge_slack_bytes {
        Some(slack_bytes) => PurgePolicy::BelowSnapshot { slack_bytes },
        None => PurgePolicy::Disabled,
    };
    let crypto = match choose_crypto(f.crypto, defaults) {
        Ok(c) => c,
        Err(e) => {
            return Err(e);
        },
    };
    let admin = match choose_admin(f.admin) {
        Ok(a) => a,
        Err(e) => {
            return Err(e);
        },
    };
    let log_level = match choose_level(&f.log_level) {
        Ok(l) => l,
        Err(e) => {
            return Err(e);
        },
    };
    let metrics_bind = match f.metrics {
        Some(Some(a)) => Some(a),
        Some(None) => Some(Endpoint::V4(DEFAULT_METRICS_BIND)),
        None => None,
    };
    Ok(
        (
            NodeConfig {
                id: f.id,
                members: f.members,
                learners: f.learners,
                bind: f.bind,
                instance_dir: f.instance_dir,
                app_id: f.app_id,
                buffer_bytes: match f.buffer_bytes {
                    Some(n) => n,
                    None => DEFAULT_BUFFER_BYTES,
                },
                max_payload: match f.max_payload {
                    Some(n) => n,
                    None => DEFAULT_MAX_PAYLOAD,
                },
                admission_bytes: match f.admission_bytes {
                    Some(n) => n,
                    None => DEFAULT_ADMISSION_BYTES,
                },
                election_timeout_min_ns: match f.election_timeout_min_ns {
                    Some(n) => n,
                    None => DEFAULT_ELECTION_MIN_NS,
                },
                election_timeout_max_ns: match f.election_timeout_max_ns {
                    Some(n) => n,
                    None => DEFAULT_ELECTION_MAX_NS,
                },
                seed: match f.seed {
                    Some(n) => n,
                    None => default_seed_for(f.id),
                },
                purge,
                journal_segment_bytes: match f.journal_segment_bytes {
                    Some(n) => n,
                    None => crate::node::boot::DEFAULT_JOURNAL_SEGMENT_BYTES,
                },
                crypto,
            },
            StartupOptions {
                allow_volatile_fs: f.allow_volatile_fs,
                obs: ObsOptions { log_level, metrics_bind },
                admin,
            },
        ),
    )
}

/// A file that says nothing of the wire, or nothing of admin requests, is
/// never accepted.
pub proof fn law_choices_are_explicit(f: NodeConfigFile, defaults: RotationPolicy)
    requires
        f.crypto is None || f.admin is None,
    ensures
        file_fault(f, defaults) is Some,
{
}

/// A file that names key material and is accepted runs encrypted.
pub proof fn law_named_keys_are_used(f: NodeConfigFile, defaults: RotationPolicy)
    requires
        file_fault(f, defaults) is None,
        f.crypto matches Some(c) && (c.key_path is Some || c.allowlist_path is Some),
    ensures
        crypto_choice(f.crypto, defaults) matches Ok(c) && c is Enabled,
{
}

/// Signing keys that are accepted have distinct names, and no two of them
/// share a name hash: a signature names one key.
pub proof fn law_accepted_keys_are_told_apart(names: Seq<Seq<char>>, i: int, j: int)
    requires
        names_fault(names) is None,
        0 <= i < j < names.len(),
    ensures
        names[i] != names[j],
        name_hash(names[i]) != name_hash(names[j]),
    decreases names.len(),
{
    let before = names.drop_last();
    if j < names.len() - 1 {
        law_accepted_keys_are_told_apart(before, i, j);
    } else {
        assert(before[i] == names[i]);
        lemma_unhashed(before, name_hash(names[j]), i);
    }
}

proof fn lemma_unhashed(names: Seq<Seq<char>>, h: u64, i: int)
    requires
        hashed(names, h) is None,
        0 <= i < names.len(),
    ensures
        name_hash(names[i]) != h,
    decreases names.len(),
{
    if i < names.len() - 1 {
        lemma_unhashed(names.drop_last(), h, i);
    }
}

/// Whether an accepted file means this.
pub open spec fn means(
    f: NodeConfigFile,
    defaults: RotationPolicy,
    cfg: NodeConfig,
    opts: StartupOptions,
) -> bool {
    &&& cfg.id == f.id
    &&& cfg.members == f.members
    &&& cfg.learners == f.learners
    &&& cfg.bind == f.bind
    &&& cfg.instance_dir == f.instance_dir
    &&& cfg.app_id == f.app_id
    &&& cfg.buffer_bytes == given_or(f.buffer_bytes, DEFAULT_BUFFER_BYTES)
    &&& cfg.max_payload == given_or(f.max_payload, DEFAULT_MAX_PAYLOAD)
    &&& cfg.admission_bytes == given_or(f.admission_bytes, DEFAULT_ADMISSION_BYTES)
    &&& cfg.election_timeout_min_ns == given_or(
        f.election_timeout_min_ns,
        DEFAULT_ELECTION_MIN_NS,
    )
    &&& cfg.election_timeout_max_ns == given_or(
        f.election_timeout_max_ns,
        DEFAULT_ELECTION_MAX_NS,
    )
    &&& cfg.seed == given_or(f.seed, seed_of(f.id))
    &&& cfg.purge == purge_policy(f.purge_slack_bytes)
    &&& cfg.journal_segment_bytes == given_or(
        f.journal_segment_bytes,
        crate::node::boot::DEFAULT_JOURNAL_SEGMENT_BYTES,
    )
    &&& crypto_choice(f.crypto, defaults) == Ok::<_, ConfigErrorV>(cfg.crypto@)
    &&& opts.allow_volatile_fs == f.allow_volatile_fs
    &&& level_choice(crate::node::effects::text_view(f.log_level)) == Ok::<
        _,
        ConfigErrorV,
    >(opts.obs.log_level)
    &&& opts.obs.metrics_bind == metrics_choice(f.metrics)
    &&& f.admin == Some(opts.admin)
}

/// What a file gives is what the node runs with: its id and members, where it
/// binds and keeps its data, and every size, timeout and seed. What it leaves
/// out has its default.
pub proof fn law_file_is_carried_over(
    f: NodeConfigFile,
    defaults: RotationPolicy,
    cfg: NodeConfig,
    opts: StartupOptions,
)
    requires
        means(f, defaults, cfg, opts),
    ensures
        cfg.id == f.id && cfg.bind == f.bind,
        cfg.members@ == f.members@ && cfg.learners@ == f.learners@,
        cfg.instance_dir@ == f.instance_dir@ && cfg.app_id@ == f.app_id@,
        f.buffer_bytes matches Some(n) ==> cfg.buffer_bytes == n,
        f.buffer_bytes is None ==> cfg.buffer_bytes == 67_108_864,
        f.max_payload matches Some(n) ==> cfg.max_payload == n,
        f.max_payload is None ==> cfg.max_payload == 512,
        f.admission_bytes matches Some(n) ==> cfg.admission_bytes == n,
        f.admission_bytes is None ==> cfg.admission_bytes == 262_144,
        f.election_timeout_min_ns matches Some(n) ==> cfg.election_timeout_min_ns == n,
        f.election_timeout_min_ns is None ==> cfg.election_timeout_min_ns == 150_000_000,
        f.election_timeout_max_ns matches Some(n) ==> cfg.election_timeout_max_ns == n,
        f.election_timeout_max_ns is None ==> cfg.election_timeout_max_ns == 300_000_000,
        f.seed matches Some(n) ==> cfg.seed == n,
        f.seed is None ==> cfg.seed == seed_of(f.id),
        f.journal_segment_bytes matches Some(n) ==> cfg.journal_segment_bytes == n,
        f.journal_segment_bytes is None ==> cfg.journal_segment_bytes == 67_108_864,
        f.purge_slack_bytes matches Some(n) ==> cfg.purge == (PurgePolicy::BelowSnapshot {
            slack_bytes: n,
        }),
        f.purge_slack_bytes is None ==> cfg.purge == PurgePolicy::Disabled,
        opts.allow_volatile_fs == f.allow_volatile_fs,
        f.metrics is None ==> opts.obs.metrics_bind is None,
        f.metrics matches Some(Some(at)) ==> opts.obs.metrics_bind == Some(at),
        f.metrics matches Some(None) ==> opts.obs.metrics_bind == Some(
            Endpoint::V4((0x7F00_0001, 9600)),
        ),
        f.log_level is None ==> opts.obs.log_level == LogLevel::Info,
        f.log_level matches Some(s) ==> s@ == opts.obs.log_level.name(),
        f.admin == Some(opts.admin),
        f.crypto is Some,
        f.crypto->0.enabled <==> cfg.crypto is Enabled,
        f.crypto->0.enabled ==> (cfg.crypto matches CryptoConfig::Enabled {
            key_path,
            allowlist_path,
            rotation,
        } && key_path@ == (f.crypto->0.key_path->0)@ && allowlist_path@ == (
        f.crypto->0.allowlist_path->0)@ && (f.crypto->0.rotation_interval_ns matches Some(n)
            ==> rotation.interval_ns == n) && (f.crypto->0.rotation_interval_ns is None
            ==> rotation.interval_ns == defaults.interval_ns) && (
        f.crypto->0.rotation_bytes matches Some(n) ==> rotation.bytes == n) && (
        f.crypto->0.rotation_bytes is None ==> rotation.bytes == defaults.bytes)),
{
}

/// A crypto section is accepted exactly where it is there and names all of
/// its key material or, switched off, none of it. What is missing, or too
/// much, is the setting that the refusal names.
pub proof fn law_crypto_section_is_whole(c: CryptoSection, defaults: RotationPolicy)
    ensures
        crypto_choice(None, defaults) == Err::<CryptoV, _>(ConfigErrorV::CryptoChoiceRequired),
        crypto_choice(Some(c), defaults) is Ok <==> (c.enabled ==> c.key_path is Some
            && c.allowlist_path is Some) && (!c.enabled ==> c.key_path is None
            && c.allowlist_path is None),
        crypto_choice(Some(c), defaults) matches Ok(v) ==> (v is Enabled <==> c.enabled),
        c.enabled && c.key_path is None ==> (crypto_choice(Some(c), defaults) matches Err(
            ConfigErrorV::Invalid { field, .. },
        ) && field == Setting::CryptoKeyPath),
        c.enabled && c.key_path is Some && c.allowlist_path is None ==> (crypto_choice(
            Some(c),
            defaults,
        ) matches Err(ConfigErrorV::Invalid { field, .. }) && field
            == Setting::CryptoAllowlistPath),
        !c.enabled && (c.key_path is Some || c.allowlist_path is Some) ==> (crypto_choice(
            Some(c),
            defaults,
        ) matches Err(ConfigErrorV::Invalid { field, .. }) && field == Setting::CryptoEnabled),
{
}

/// An admin section is accepted exactly where it is there, lets a request
/// live a second or more, and either asks for signatures and has keys with
/// names that are told apart, or asks for none and has no keys.
pub proof fn law_admin_section_is_whole(a: AdminSection)
    ensures
        admin_fault(None) == Some(ConfigErrorV::AdminChoiceRequired),
        admin_fault(Some(a)) is None <==> a.request_ttl_ms >= 1000 && (a.auth is NoAuth
            ==> a.keys@.len() == 0) && (a.auth is Hmac ==> a.keys@.len() > 0 && names_fault(
            key_names(a.keys@),
        ) is None),
        a.request_ttl_ms < 1000 ==> (admin_fault(Some(a)) matches Some(
            ConfigErrorV::Invalid { field, .. },
        ) && field == Setting::AdminTtl),
        a.request_ttl_ms >= 1000 && admin_fault(Some(a)) is Some ==> (admin_fault(
            Some(a),
        ) matches Some(ConfigErrorV::Invalid { field, .. }) && field == Setting::AdminKeys),
{
}

/// Key names are accepted exactly where none is empty, none is repeated and
/// no two have the same hash.
pub proof fn law_key_names_are_told_apart(names: Seq<Seq<char>>)
    ensures
        names_fault(names) is None <==> (forall|i: int|
            0 <= i < names.len() ==> (#[trigger] names[i]).len() > 0) && (forall|i: int, j: int|
            0 <= i < j < names.len() ==> name_hash(#[trigger] names[i]) != name_hash(
                #[trigger] names[j],
            )),
    decreases names.len(),
{
    if names.len() > 0 {
        let head = names.drop_last();
        law_key_names_are_told_apart(head);
        assert(forall|i: int| 0 <= i < head.len() ==> head[i] == names[i]);
        assert(names[names.len() - 1] == names.last());
        let h = name_hash(names.last());
        if names_fault(names) is None {
            assert forall|i: int, j: int| 0 <= i < j < names.len() implies name_hash(
                #[trigger] names[i],
            ) != name_hash(#[trigger] names[j]) by {
                law_accepted_keys_are_told_apart(names, i, j);
            }
            assert forall|i: int| 0 <= i < names.len() implies (#[trigger] names[i]).len() > 0 by {
                if i < head.len() {
                    assert(head[i].len() > 0);
                }
            }
        } else if names_fault(head) is None {
            lemma_hashed_is_there(head, h);
            if head.contains(names.last()) {
                let i = choose|i: int| 0 <= i < head.len() && head[i] == names.last();
                assert(name_hash(names[i]) == name_hash(names[names.len() - 1]));
            }
            if hashed(head, h) is Some {
                let i = choose|i: int| 0 <= i < head.len() && name_hash(#[trigger] head[i]) == h;
                assert(name_hash(names[i]) == name_hash(names[names.len() - 1]));
            }
        } else {
            if forall|i: int| 0 <= i < head.len() ==> (#[trigger] head[i]).len() > 0 {
                let (i, j) = choose|i: int, j: int|
                    0 <= i < j < head.len() && name_hash(#[trigger] head[i]) == name_hash(
                        #[trigger] head[j],
                    );
                assert(name_hash(names[i]) == name_hash(names[j]));
            } else {
                let i = choose|i: int| 0 <= i < head.len() && (#[trigger] head[i]).len() == 0;
                assert(names[i].len() == 0);
            }
        }
    }
}

proof fn lemma_hashed_is_there(names: Seq<Seq<char>>, h: u64)
    ensures
        hashed(names, h) is Some ==> exists|i: int|
            0 <= i < names.len() && name_hash(#[trigger] names[i]) == h,
    decreases names.len(),
{
    if names.len() > 0 {
        let head = names.drop_last();
        lemma_hashed_is_there(head, h);
        if name_hash(names.last()) == h {
            assert(name_hash(names[names.len() - 1]) == h);
        } else if hashed(head, h) is Some {
            let i = choose|i: int| 0 <= i < head.len() && name_hash(#[trigger] head[i]) == h;
            assert(name_hash(names[i]) == h);
        }
    }
}

/// The hash starts from its offset, takes every byte in, and multiplies by its
/// prime after each.
pub proof fn law_hash_takes_every_byte_in(bytes: Seq<u8>, b: u8)
    ensures
        fnv1a64(Seq::empty()) == 0xcbf2_9ce4_8422_2325,
        fnv1a64(bytes.push(b)) == ((fnv1a64(bytes) ^ (b as u64)) as int * 0x100_0000_01b3)
            % 0x1_0000_0000_0000_0000,
{
    assert(bytes.push(b).drop_last() =~= bytes);
}

/// A level is asked for by its name, and is information where none is; any
/// other word is refused, and the refusal names the setting.
pub proof fn law_levels_are_asked_for_by_name(l: LogLevel, s: Seq<char>)
    ensures
        level_choice(None) == Ok::<_, ConfigErrorV>(LogLevel::Info),
        level_choice(Some(l.name())) == Ok::<_, ConfigErrorV>(l),
        level_choice(Some(s)) matches Ok(x) ==> s == x.name(),
        level_choice(Some(s)) is Err ==> (level_choice(Some(s)) matches Err(
            ConfigErrorV::Invalid { field, .. },
        ) && field == Setting::LogLevel),
{
    log::law_levels_are_told_apart(LogLevel::Error, LogLevel::Warn, 0);
    log::law_levels_are_told_apart(LogLevel::Error, LogLevel::Info, 0);
    log::law_levels_are_told_apart(LogLevel::Warn, LogLevel::Info, 0);
}

/// There is a metrics endpoint exactly where the file has the section, at the
/// address it gives or else on this host alone.
pub proof fn law_metrics_bind_where_asked(at: Endpoint)
    ensures
        metrics_choice(None) is None,
        metrics_choice(Some(Some(at))) == Some(at),
        metrics_choice(Some(None)) == Some(Endpoint::V4((0x7F00_0001, 9600))),
{
}

/// A file is refused exactly where one of its sections is: the wire first,
/// then admin requests, then the level.
pub proof fn law_file_is_refused_by_its_sections(f: NodeConfigFile, defaults: RotationPolicy)
    ensures
        ({
            let level = level_choice(crate::node::effects::text_view(f.log_level));
            &&& file_fault(f, defaults) is None <==> crypto_choice(f.crypto, defaults) is Ok
                && admin_fault(f.admin) is None && level is Ok
            &&& crypto_choice(f.crypto, defaults) matches Err(e) ==> file_fault(f, defaults)
                == Some(e)
            &&& crypto_choice(f.crypto, defaults) is Ok && admin_fault(f.admin) is Some
                ==> file_fault(f, defaults) == admin_fault(f.admin)
        }),
{
}

} // verus!
