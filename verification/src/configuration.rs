//! The configuration schema: a `[pgmoneta_mcp]` block for the server itself,
//! a `[pgmoneta]` block for the remote instance, and an `[admins]` block of
//! username/password pairs. Two files feed one key space, the user file
//! layered over the main one; every `[pgmoneta_mcp]` field has a documented
//! default, while `[pgmoneta]`'s `host` and `port` are required.

use vstd::prelude::*;

use crate::ini::{lookup, parse_ini, EntryModel, IniDoc};
use crate::text::{parse_i32, spec_i32_chars, spec_parse_i32};

verus! {

/// Configuration properties for connecting to the remote pgmoneta instance:
/// the `[pgmoneta]` section.
#[derive(Debug)]
pub struct PgmonetaConfiguration {
    /// The address of the pgmoneta instance (required).
    pub host: String,
    /// The port of the pgmoneta instance (required; any 32-bit integer is
    /// accepted at parse time).
    pub port: i32,
}

/// Mathematical model of `PgmonetaConfiguration`.
pub struct PgmonetaModel {
    pub host: Seq<char>,
    pub port: i32,
}

impl View for PgmonetaConfiguration {
    type V = PgmonetaModel;

    open spec fn view(&self) -> PgmonetaModel {
        PgmonetaModel { host: self.host@, port: self.port }
    }
}

/// Configuration properties of the MCP server itself: the `[pgmoneta_mcp]`
/// section. Every field is optional in the files and falls back to its
/// documented default.
#[derive(Debug)]
pub struct PgmonetaMcpConfiguration {
    /// The port the MCP server starts on. Default: 8000.
    pub port: i32,
    /// The log file location. Default: `pgmoneta_mcp.log`.
    pub log_path: String,
    /// The logging level (`trace`, `debug`, `info`, `warn`, `error`).
    /// Default: `info`; an unknown value later degrades to `info`.
    pub log_level: String,
    /// The logging type (`console`, `file`, `syslog`). Default: `console`.
    pub log_type: String,
    /// The timestamp format for log lines. Default: `%Y-%m-%d %H:%M:%S`.
    pub log_line_prefix: String,
    /// Append to or truncate the log file (`append`, `create`).
    /// Default: `append`.
    pub log_mode: String,
    /// Rotation granularity, one character (`m`, `h`, `d`, `w`, upper or
    /// lower case, or `0` for never). Default: `0`.
    pub log_rotation_age: String,
}

/// Mathematical model of `PgmonetaMcpConfiguration`.
pub struct McpModel {
    pub port: i32,
    pub log_path: Seq<char>,
    pub log_level: Seq<char>,
    pub log_type: Seq<char>,
    pub log_line_prefix: Seq<char>,
    pub log_mode: Seq<char>,
    pub log_rotation_age: Seq<char>,
}

impl View for PgmonetaMcpConfiguration {
    type V = McpModel;

    open spec fn view(&self) -> McpModel {
        McpModel {
            port: self.port,
            log_path: self.log_path@,
            log_level: self.log_level@,
            log_type: self.log_type@,
            log_line_prefix: self.log_line_prefix@,
            log_mode: self.log_mode@,
            log_rotation_age: self.log_rotation_age@,
        }
    }
}

/// One admin credential from the `[admins]` section.
#[derive(Debug)]
pub struct AdminUser {
    pub name: String,
    pub password: String,
}

impl View for AdminUser {
    type V = (Seq<char>, Seq<char>);

    open spec fn view(&self) -> (Seq<char>, Seq<char>) {
        (self.name@, self.password@)
    }
}

pub open spec fn admins_view(s: Seq<AdminUser>) -> Seq<(Seq<char>, Seq<char>)> {
    Seq::new(s.len(), |i: int| s[i]@)
}

/// The root configuration: the two typed sections plus the admin users, with
/// names unique (a later password for the same name overrides an earlier
/// one).
#[derive(Debug)]
pub struct Configuration {
    /// The overall properties of the MCP server.
    pub pgmoneta_mcp: PgmonetaMcpConfiguration,
    /// Settings for the connection with the remote pgmoneta server.
    pub pgmoneta: PgmonetaConfiguration,
    /// Admin users (username and password), in order of first appearance.
    pub admins: Vec<AdminUser>,
}

/// Mathematical model of `Configuration`.
pub struct ConfigModel {
    pub pgmoneta_mcp: McpModel,
    pub pgmoneta: PgmonetaModel,
    pub admins: Seq<(Seq<char>, Seq<char>)>,
}

impl View for Configuration {
    type V = ConfigModel;

    open spec fn view(&self) -> ConfigModel {
        ConfigModel {
            pgmoneta_mcp: self.pgmoneta_mcp@,
            pgmoneta: self.pgmoneta@,
            admins: admins_view(self.admins@),
        }
    }
}

/// Why loading a configuration failed. Configuration failures are surfaced
/// to the caller; they are never recovered locally.
#[derive(Debug)]
pub enum ConfigError {
    /// A file could not be opened or read.
    Unreadable { path: String },
    /// A file is not valid section/key=value text.
    Parse { path: String },
    /// A required field is absent from both files.
    MissingField { section: String, key: String, config_path: String, user_path: String },
    /// A field's text cannot convert to the target type.
    InvalidValue { section: String, key: String, config_path: String, user_path: String },
}

/// Mathematical model of `ConfigError`.
pub enum ErrModel {
    Unreadable { path: Seq<char> },
    Parse { path: Seq<char> },
    MissingField { section: Seq<char>, key: Seq<char>, config_path: Seq<char>, user_path: Seq<char> },
    InvalidValue { section: Seq<char>, key: Seq<char>, config_path: Seq<char>, user_path: Seq<char> },
}

impl View for ConfigError {
    type V = ErrModel;

    open spec fn view(&self) -> ErrModel {
        match self {
            ConfigError::Unreadable { path } => ErrModel::Unreadable { path: path@ },
            ConfigError::Parse { path } => ErrModel::Parse { path: path@ },
            ConfigError::MissingField { section, key, config_path, user_path } => {
                ErrModel::MissingField {
                    section: section@,
                    key: key@,
                    config_path: config_path@,
                    user_path: user_path@,
                }
            },
            ConfigError::InvalidValue { section, key, config_path, user_path } => {
                ErrModel::InvalidValue {
                    section: section@,
                    key: key@,
                    config_path: config_path@,
                    user_path: user_path@,
                }
            },
        }
    }
}

// The defaults table of the `[pgmoneta_mcp]` section. Each executable
// default is pinned to the spec-level constant beside it.

pub open spec fn spec_default_port() -> i32 {
    8000
}

pub fn default_port() -> (r: i32)
    ensures
        r == spec_default_port(),
{
    8000
}

pub open spec fn spec_default_log_path() -> Seq<char> {
    "pgmoneta_mcp.log"@
}

pub fn default_log_path() -> (r: String)
    ensures
        r@ == spec_default_log_path(),
{
    String::from_str("pgmoneta_mcp.log")
}

pub open spec fn spec_default_log_level() -> Seq<char> {
    "info"@
}

pub fn default_log_level() -> (r: String)
    ensures
        r@ == spec_default_log_level(),
{
    String::from_str("info")
}

pub open spec fn spec_default_log_type() -> Seq<char> {
    "console"@
}

pub fn default_log_type() -> (r: String)
    ensures
        r@ == spec_default_log_type(),
{
    String::from_str("console")
}

pub open spec fn spec_default_log_line_prefix() -> Seq<char> {
    "%Y-%m-%d %H:%M:%S"@
}

pub fn default_log_line_prefix() -> (r: String)
    ensures
        r@ == spec_default_log_line_prefix(),
{
    String::from_str("%Y-%m-%d %H:%M:%S")
}

pub open spec fn spec_default_log_mode() -> Seq<char> {
    "append"@
}

pub fn default_log_mode() -> (r: String)
    ensures
        r@ == spec_default_log_mode(),
{
    String::from_str("append")
}

pub open spec fn spec_default_log_rotation_age() -> Seq<char> {
    "0"@
}

pub fn default_log_rotation_age() -> (r: String)
    ensures
        r@ == spec_default_log_rotation_age(),
{
    String::from_str("0")
}

/// Index of `name` among the admin pairs gathered so far, or the length if
/// absent.
pub open spec fn admin_index(s: Seq<(Seq<char>, Seq<char>)>, name: Seq<char>) -> int
    decreases s.len(),
{
    if s.len() == 0 {
        0
    } else if s[0].0 == name {
        0
    } else {
        1 + admin_index(s.drop_first(), name)
    }
}

pub proof fn lemma_admin_index(s: Seq<(Seq<char>, Seq<char>)>, name: Seq<char>, i: int)
    requires
        0 <= i <= s.len(),
        forall|j: int| 0 <= j < i ==> s[j].0 != name,
        i < s.len() ==> s[i].0 == name,
    ensures
        admin_index(s, name) == i,
    decreases i,
{
    if s.len() == 0 {
    } else if i == 0 {
    } else {
        lemma_admin_index(s.drop_first(), name, i - 1);
    }
}

/// The admin users that a document defines: the `[admins]` entries in order
/// of first appearance of each name, a later entry for the same name
/// overriding the password.
pub open spec fn spec_admins(es: Seq<EntryModel>) -> Seq<(Seq<char>, Seq<char>)>
    decreases es.len(),
{
    if es.len() == 0 {
        Seq::empty()
    } else {
        let prev = spec_admins(es.drop_last());
        let e = es.last();
        if e.section == "admins"@ {
            let i = admin_index(prev, e.key);
            if 0 <= i < prev.len() {
                prev.update(i, (e.key, e.value))
            } else {
                prev.push((e.key, e.value))
            }
        } else {
            prev
        }
    }
}

/// Where `name` stands in the gathered admin pairs: before the index every
/// name differs, and at it (when in range) the name matches.
pub proof fn lemma_admin_index_spec(s: Seq<(Seq<char>, Seq<char>)>, name: Seq<char>)
    ensures
        0 <= admin_index(s, name) <= s.len(),
        admin_index(s, name) < s.len() ==> s[admin_index(s, name)].0 == name,
        forall|j: int| 0 <= j < admin_index(s, name) ==> s[j].0 != name,
    decreases s.len(),
{
    if s.len() == 0 {
    } else if s[0].0 == name {
    } else {
        lemma_admin_index_spec(s.drop_first(), name);
        assert(forall|j: int| 1 <= j < admin_index(s, name) ==> s[j] == s.drop_first()[j - 1]);
    }
}

/// No two admin pairs carry the same name.
pub open spec fn unique_names(s: Seq<(Seq<char>, Seq<char>)>) -> bool {
    forall|i: int, j: int| 0 <= i < j < s.len() ==> s[i].0 != s[j].0
}

/// The admin users a document defines carry pairwise distinct names: a later
/// entry for a known name replaces the password, never adds a second pair.
pub proof fn lemma_admins_unique(es: Seq<EntryModel>)
    ensures
        unique_names(spec_admins(es)),
    decreases es.len(),
{
    if es.len() > 0 {
        lemma_admins_unique(es.drop_last());
        let prev = spec_admins(es.drop_last());
        let e = es.last();
        if e.section == "admins"@ {
            let i = admin_index(prev, e.key);
            lemma_admin_index_spec(prev, e.key);
            if 0 <= i < prev.len() {
                let upd = prev.update(i, (e.key, e.value));
                assert(forall|j: int| 0 <= j < upd.len() ==> upd[j].0 == prev[j].0);
            }
        }
    }
}

/// The corollary at the load level: a loaded configuration's admin names are
/// unique.
pub proof fn lemma_loaded_admins_unique(
    config_text: Seq<char>,
    user_text: Seq<char>,
    config_path: Seq<char>,
    user_path: Seq<char>,
)
    requires
        spec_load(config_text, user_text, config_path, user_path) is Ok,
    ensures
        unique_names(spec_load(config_text, user_text, config_path, user_path)->Ok_0.admins),
{
    lemma_admins_unique(parse_ini(config_text)->Some_0 + parse_ini(user_text)->Some_0);
}

/// How a merged document resolves to a configuration: `host` and `port`
/// under `[pgmoneta]` are required and checked in that order, `port` must be
/// a 32-bit integer, and so must `[pgmoneta_mcp]`'s `port` when present;
/// every other field falls back to its default.
pub open spec fn spec_resolve(
    doc: Seq<EntryModel>,
    config_path: Seq<char>,
    user_path: Seq<char>,
) -> Result<ConfigModel, ErrModel> {
    let host = lookup(doc, "pgmoneta"@, "host"@);
    let port_txt = lookup(doc, "pgmoneta"@, "port"@);
    let mcp_port_txt = lookup(doc, "pgmoneta_mcp"@, "port"@);
    if host is None {
        Err(
            ErrModel::MissingField {
                section: "pgmoneta"@,
                key: "host"@,
                config_path: config_path,
                user_path: user_path,
            },
        )
    } else if port_txt is None {
        Err(
            ErrModel::MissingField {
                section: "pgmoneta"@,
                key: "port"@,
                config_path: config_path,
                user_path: user_path,
            },
        )
    } else if spec_parse_i32(port_txt->Some_0) is None {
        Err(
            ErrModel::InvalidValue {
                section: "pgmoneta"@,
                key: "port"@,
                config_path: config_path,
                user_path: user_path,
            },
        )
    } else if mcp_port_txt is Some && spec_parse_i32(mcp_port_txt->Some_0) is None {
        Err(
            ErrModel::InvalidValue {
                section: "pgmoneta_mcp"@,
                key: "port"@,
                config_path: config_path,
                user_path: user_path,
            },
        )
    } else {
        Ok(
            ConfigModel {
                pgmoneta_mcp: McpModel {
                    port: if mcp_port_txt is Some {
                        spec_parse_i32(mcp_port_txt->Some_0)->Some_0
                    } else {
                        spec_default_port()
                    },
                    log_path: spec_field_or(doc, "log_path"@, spec_default_log_path()),
                    log_level: spec_field_or(doc, "log_level"@, spec_default_log_level()),
                    log_type: spec_field_or(doc, "log_type"@, spec_default_log_type()),
                    log_line_prefix: spec_field_or(
                        doc,
                        "log_line_prefix"@,
                        spec_default_log_line_prefix(),
                    ),
                    log_mode: spec_field_or(doc, "log_mode"@, spec_default_log_mode()),
                    log_rotation_age: spec_field_or(
                        doc,
                        "log_rotation_age"@,
                        spec_default_log_rotation_age(),
                    ),
                },
                pgmoneta: PgmonetaModel {
                    host: host->Some_0,
                    port: spec_parse_i32(port_txt->Some_0)->Some_0,
                },
                admins: spec_admins(doc),
            },
        )
    }
}

/// A `[pgmoneta_mcp]` text field, or its default when absent.
pub open spec fn spec_field_or(
    doc: Seq<EntryModel>,
    key: Seq<char>,
    default: Seq<char>,
) -> Seq<char> {
    match lookup(doc, "pgmoneta_mcp"@, key) {
        Some(v) => v,
        None => default,
    }
}

/// Gathers the admin users of `doc`, matching `spec_admins`.
fn resolve_admins(doc: &IniDoc, config_path: &str, user_path: &str) -> (r: Vec<AdminUser>)
    ensures
        admins_view(r@) == spec_admins(doc@),
{
    let mut admins: Vec<AdminUser> = Vec::new();
    let mut i: usize = 0;
    proof {
        assert(admins_view(admins@) =~= spec_admins(doc@.take(0)));
    }
    while i < doc.entries.len()
        invariant
            i <= doc.entries@.len(),
            admins_view(admins@) == spec_admins(doc@.take(i as int)),
        decreases doc.entries@.len() - i,
    {
        let e = &doc.entries[i];
        proof {
            assert(doc@.take(i + 1).drop_last() =~= doc@.take(i as int));
            assert(doc@.take(i + 1).last() == doc@[i as int]);
        }
        if crate::text::str_eq(e.section.as_str(), "admins") {
            let mut k: usize = 0;
            let n = admins.len();
            let mut found = false;
            while k < n && !found
                invariant
                    n == admins@.len(),
                    k <= n,
                    forall|j: int| 0 <= j < k ==> admins_view(admins@)[j].0 != e.key@,
                    found ==> k < n && admins_view(admins@)[k as int].0 == e.key@,
                decreases n - k + if found { 0int } else { 1int },
            {
                if crate::text::str_eq(admins[k].name.as_str(), e.key.as_str()) {
                    found = true;
                } else {
                    k = k + 1;
                }
            }
            proof {
                if found {
                    lemma_admin_index(admins_view(admins@), e.key@, k as int);
                } else {
                    lemma_admin_index(admins_view(admins@), e.key@, n as int);
                }
            }
            if found {
                let ghost before = admins@;
                admins[k] = AdminUser { name: e.key.clone(), password: e.value.clone() };
                proof {
                    assert(admins_view(admins@) =~= admins_view(before).update(
                        k as int,
                        (e.key@, e.value@),
                    ));
                }
            } else {
                let ghost before = admins@;
                admins.push(AdminUser { name: e.key.clone(), password: e.value.clone() });
                proof {
                    assert(admins_view(admins@) =~= admins_view(before).push(
                        (e.key@, e.value@),
                    ));
                }
            }
        }
        i = i + 1;
    }
    proof {
        assert(doc@.take(doc.entries@.len() as int) =~= doc@);
    }
    admins
}

/// Builds the missing-field error for `section.key`, naming both input
/// paths.
fn missing_field(section: &str, key: &str, config_path: &str, user_path: &str) -> (r: ConfigError)
    ensures
        r@ == (ErrModel::MissingField {
            section: section@,
            key: key@,
            config_path: config_path@,
            user_path: user_path@,
        }),
{
    ConfigError::MissingField {
        section: String::from_str(section),
        key: String::from_str(key),
        config_path: String::from_str(config_path),
        user_path: String::from_str(user_path),
    }
}

/// Builds the type-conversion error for `section.key`, naming both input
/// paths.
fn invalid_value(section: &str, key: &str, config_path: &str, user_path: &str) -> (r: ConfigError)
    ensures
        r@ == (ErrModel::InvalidValue {
            section: section@,
            key: key@,
            config_path: config_path@,
            user_path: user_path@,
        }),
{
    ConfigError::InvalidValue {
        section: String::from_str(section),
        key: String::from_str(key),
        config_path: String::from_str(config_path),
        user_path: String::from_str(user_path),
    }
}

/// Resolves a merged document into the typed configuration, matching
/// `spec_resolve`: required fields checked, defaults filled per field.
pub fn resolve_configuration(doc: &IniDoc, config_path: &str, user_path: &str) -> (r: Result<
    Configuration,
    ConfigError,
>)
    ensures
        r is Ok <==> spec_resolve(doc@, config_path@, user_path@) is Ok,
        r is Ok ==> r->Ok_0@ == spec_resolve(doc@, config_path@, user_path@)->Ok_0,
        r is Err ==> r->Err_0@ == spec_resolve(doc@, config_path@, user_path@)->Err_0,
{
    let host = match doc.get("pgmoneta", "host") {
        Some(h) => h,
        None => {
            return Err(missing_field("pgmoneta", "host", config_path, user_path));
        },
    };
    let port_txt = match doc.get("pgmoneta", "port") {
        Some(t) => t,
        None => {
            return Err(missing_field("pgmoneta", "port", config_path, user_path));
        },
    };
    let port = match parse_i32(port_txt.as_str()) {
        Some(p) => p,
        None => {
            return Err(invalid_value("pgmoneta", "port", config_path, user_path));
        },
    };
    let mcp_port = match doc.get("pgmoneta_mcp", "port") {
        Some(t) => {
            match parse_i32(t.as_str()) {
                Some(p) => p,
                None => {
                    return Err(invalid_value("pgmoneta_mcp", "port", config_path, user_path));
                },
            }
        },
        None => default_port(),
    };
    let log_path = match doc.get("pgmoneta_mcp", "log_path") {
        Some(t) => t,
        None => default_log_path(),
    };
    let log_level = match doc.get("pgmoneta_mcp", "log_level") {
        Some(t) => t,
        None => default_log_level(),
    };
    let log_type = match doc.get("pgmoneta_mcp", "log_type") {
        Some(t) => t,
        None => default_log_type(),
    };
    let log_line_prefix = match doc.get("pgmoneta_mcp", "log_line_prefix") {
        Some(t) => t,
        None => default_log_line_prefix(),
    };
    let log_mode = match doc.get("pgmoneta_mcp", "log_mode") {
        Some(t) => t,
        None => default_log_mode(),
    };
    let log_rotation_age = match doc.get("pgmoneta_mcp", "log_rotation_age") {
        Some(t) => t,
        None => default_log_rotation_age(),
    };
    let admins = resolve_admins(doc, config_path, user_path);
    Ok(
        Configuration {
            pgmoneta_mcp: PgmonetaMcpConfiguration {
                port: mcp_port,
                log_path,
                log_level,
                log_type,
                log_line_prefix,
                log_mode,
                log_rotation_age,
            },
            pgmoneta: PgmonetaConfiguration { host, port },
            admins,
        },
    )
}

/// How the two texts resolve: either file failing to parse is that file's
/// parse error; otherwise the user file is layered over the main one and the
/// merged document resolves as `spec_resolve` says.
pub open spec fn spec_load(
    config_text: Seq<char>,
    user_text: Seq<char>,
    config_path: Seq<char>,
    user_path: Seq<char>,
) -> Result<ConfigModel, ErrModel> {
    if parse_ini(config_text) is None {
        Err(ErrModel::Parse { path: config_path })
    } else if parse_ini(user_text) is None {
        Err(ErrModel::Parse { path: user_path })
    } else {
        spec_resolve(
            parse_ini(config_text)->Some_0 + parse_ini(user_text)->Some_0,
            config_path,
            user_path,
        )
    }
}

/// Loads the configuration from the texts of the main and user files (read
/// by the caller from `config_path` and `user_path`, which are used only to
/// name the offending file in an error).
pub fn load_configuration(
    config_text: &str,
    user_text: &str,
    config_path: &str,
    user_path: &str,
) -> (r: Result<Configuration, ConfigError>)
    ensures
        r is Ok <==> spec_load(config_text@, user_text@, config_path@, user_path@) is Ok,
        r is Ok ==> r->Ok_0@ == spec_load(config_text@, user_text@, config_path@, user_path@)->Ok_0,
        r is Err ==> r->Err_0@ == spec_load(
            config_text@,
            user_text@,
            config_path@,
            user_path@,
        )->Err_0,
{
    let main_doc = match crate::ini::parse_ini_str(config_text) {
        Some(d) => d,
        None => {
            return Err(ConfigError::Parse { path: String::from_str(config_path) });
        },
    };
    let user_doc = match crate::ini::parse_ini_str(user_text) {
        Some(d) => d,
        None => {
            return Err(ConfigError::Parse { path: String::from_str(user_path) });
        },
    };
    let merged = IniDoc::merge(main_doc, user_doc);
    resolve_configuration(&merged, config_path, user_path)
}

/// The parsed user configuration: the raw two-level mapping from section
/// name to key/value pairs, with no schema validation.
pub type UserConf = IniDoc;

/// Loads only the user configuration from the text of the file at
/// `user_path` (the path is used only to name the file in an error): the
/// document itself, every value kept a string.
pub fn load_user_configuration(user_text: &str, user_path: &str) -> (r: Result<
    UserConf,
    ConfigError,
>)
    ensures
        r is Ok <==> parse_ini(user_text@) is Some,
        r is Ok ==> r->Ok_0@ == parse_ini(user_text@)->Some_0,
        r is Err ==> r->Err_0@ == (ErrModel::Parse { path: user_path@ }),
{
    match crate::ini::parse_ini_str(user_text) {
        Some(d) => Ok(d),
        None => Err(ConfigError::Parse { path: String::from_str(user_path) }),
    }
}

// Rendering the two typed sections back to the text format, and the
// round-trip law: the rendered text loads back to the same structures.

/// The `[pgmoneta_mcp]` section's pairs, every field written out.
pub open spec fn mcp_pairs(m: McpModel) -> Seq<(Seq<char>, Seq<char>)> {
    seq![
        ("port"@, spec_i32_chars(m.port as int)),
        ("log_path"@, m.log_path),
        ("log_level"@, m.log_level),
        ("log_type"@, m.log_type),
        ("log_line_prefix"@, m.log_line_prefix),
        ("log_mode"@, m.log_mode),
        ("log_rotation_age"@, m.log_rotation_age),
    ]
}

/// The `[pgmoneta]` section's pairs.
pub open spec fn pg_pairs(p: PgmonetaModel) -> Seq<(Seq<char>, Seq<char>)> {
    seq![("host"@, p.host), ("port"@, spec_i32_chars(p.port as int))]
}

/// The text both sections render to.
pub open spec fn spec_render_config(m: McpModel, p: PgmonetaModel) -> Seq<char> {
    crate::ini::render_section("pgmoneta_mcp"@, mcp_pairs(m)) + crate::ini::render_section(
        "pgmoneta"@,
        pg_pairs(p),
    )
}

/// The entries that text stands for.
pub open spec fn config_entries(m: McpModel, p: PgmonetaModel) -> Seq<EntryModel> {
    crate::ini::entries_of("pgmoneta_mcp"@, mcp_pairs(m)) + crate::ini::entries_of(
        "pgmoneta"@,
        pg_pairs(p),
    )
}

/// String fields the text format can carry and recover: edges not
/// whitespace, no line feeds.
pub open spec fn wf_mcp(m: McpModel) -> bool {
    &&& crate::ini::wf_value(m.log_path)
    &&& crate::ini::wf_value(m.log_level)
    &&& crate::ini::wf_value(m.log_type)
    &&& crate::ini::wf_value(m.log_line_prefix)
    &&& crate::ini::wf_value(m.log_mode)
    &&& crate::ini::wf_value(m.log_rotation_age)
}

pub open spec fn wf_pg(p: PgmonetaModel) -> bool {
    crate::ini::wf_value(p.host)
}

/// A rendered integer is a well-formed value.
proof fn lemma_i32_chars_wf(n: int)
    requires
        -0x8000_0000 <= n <= 0x7fff_ffff,
    ensures
        crate::ini::wf_value(spec_i32_chars(n)),
{
    let s = spec_i32_chars(n);
    if n < 0 {
        crate::text::lemma_digits_val(-n);
        let d = crate::text::spec_digits(-n);
        assert(s[0] == '-');
        assert(s.last() == d.last());
        assert(crate::text::is_digit(d.last()));
        assert(forall|j: int| 1 <= j < s.len() ==> s[j] == d[j - 1]);
        assert(forall|j: int|
            1 <= j < s.len() ==> crate::text::is_digit(#[trigger] s[j]));
    } else {
        crate::text::lemma_digits_val(n);
        assert(forall|j: int|
            0 <= j < s.len() ==> crate::text::is_digit(#[trigger] s[j]));
        assert(crate::text::is_digit(s.last()));
    }
}

/// A document with no `[admins]` entries defines no admin users.
pub proof fn lemma_admins_absent(es: Seq<EntryModel>)
    requires
        forall|i: int| 0 <= i < es.len() ==> #[trigger] es[i].section != "admins"@,
    ensures
        spec_admins(es) == Seq::<(Seq<char>, Seq<char>)>::empty(),
    decreases es.len(),
{
    if es.len() > 0 {
        assert(forall|i: int|
            0 <= i < es.len() - 1 ==> #[trigger] es.drop_last()[i] == es[i]);
        lemma_admins_absent(es.drop_last());
        assert(es.last() == es[es.len() - 1]);
    }
}

/// The schema's keys and section names are well formed for the text format
/// and distinct from one another.
proof fn lemma_schema_names()
    ensures
        crate::ini::wf_key("host"@),
        crate::ini::wf_key("port"@),
        crate::ini::wf_key("log_path"@),
        crate::ini::wf_key("log_level"@),
        crate::ini::wf_key("log_type"@),
        crate::ini::wf_key("log_line_prefix"@),
        crate::ini::wf_key("log_mode"@),
        crate::ini::wf_key("log_rotation_age"@),
        crate::ini::wf_name("pgmoneta"@),
        crate::ini::wf_name("pgmoneta_mcp"@),
        "host"@ != "port"@,
        "pgmoneta"@ != "pgmoneta_mcp"@,
        "pgmoneta"@ != "admins"@,
        "pgmoneta_mcp"@ != "admins"@,
        "log_path"@ != "log_type"@,
        "log_path"@ != "log_mode"@,
        "log_type"@ != "log_mode"@,
        "port"@.len() == 4,
        "host"@.len() == 4,
        "log_path"@.len() == 8,
        "log_level"@.len() == 9,
        "log_type"@.len() == 8,
        "log_line_prefix"@.len() == 15,
        "log_mode"@.len() == 8,
        "log_rotation_age"@.len() == 16,
{
    reveal_strlit("host");
    reveal_strlit("port");
    reveal_strlit("log_path");
    reveal_strlit("log_level");
    reveal_strlit("log_type");
    reveal_strlit("log_line_prefix");
    reveal_strlit("log_mode");
    reveal_strlit("log_rotation_age");
    reveal_strlit("pgmoneta");
    reveal_strlit("pgmoneta_mcp");
    reveal_strlit("admins");
    assert("host"@[0] != "port"@[0]);
    assert("log_path"@[4] != "log_type"@[4]);
    assert("log_path"@[4] != "log_mode"@[4]);
    assert("log_type"@[4] != "log_mode"@[4]);
    assert("pgmoneta"@.len() == 8 && "pgmoneta_mcp"@.len() == 12 && "admins"@.len() == 6);
}

/// Appends `key=value` and a line feed.
fn push_kv(out: &mut String, key: &str, value: &str)
    ensures
        final(out)@ == old(out)@ + crate::ini::kv_line(key@, value@) + seq!['\n'],
{
    out.append(key);
    out.append("=");
    out.append(value);
    out.append("\n");
    proof {
        reveal_strlit("=");
        reveal_strlit("\n");
        assert("="@ =~= seq!['=']);
        assert("\n"@ =~= seq!['\n']);
        assert(out@ =~= old(out)@ + crate::ini::kv_line(key@, value@) + seq!['\n']);
    }
}

/// Appends `[name]` and a line feed.
fn push_header(out: &mut String, name: &str)
    ensures
        final(out)@ == old(out)@ + crate::ini::header_line(name@) + seq!['\n'],
{
    out.append("[");
    out.append(name);
    out.append("]");
    out.append("\n");
    proof {
        reveal_strlit("[");
        reveal_strlit("]");
        reveal_strlit("\n");
        assert("["@ =~= seq!['[']);
        assert("]"@ =~= seq![']']);
        assert("\n"@ =~= seq!['\n']);
        assert(out@ =~= old(out)@ + crate::ini::header_line(name@) + seq!['\n']);
    }
}

impl PgmonetaConfiguration {
    /// Renders the `[pgmoneta]` section in the text format.
    pub fn to_ini(&self) -> (r: String)
        ensures
            r@ == crate::ini::render_section("pgmoneta"@, pg_pairs(self@)),
    {
        let mut s = String::new();
        push_header(&mut s, "pgmoneta");
        push_kv(&mut s, "host", self.host.as_str());
        let port_txt = crate::text::i32_to_string(self.port);
        push_kv(&mut s, "port", port_txt.as_str());
        proof {
            let ps = pg_pairs(self@);
            assert(ps.skip(0) =~= ps);
            crate::ini::lemma_render_pairs_unfold(ps, 0);
            crate::ini::lemma_render_pairs_unfold(ps, 1);
            assert(ps.skip(2).len() == 0);
            assert(crate::ini::render_pairs(ps.skip(2)) =~= Seq::<char>::empty());
            assert(s@ =~= crate::ini::render_section("pgmoneta"@, ps));
        }
        s
    }
}

impl PgmonetaMcpConfiguration {
    /// Renders the `[pgmoneta_mcp]` section in the text format, every field
    /// written out.
    pub fn to_ini(&self) -> (r: String)
        ensures
            r@ == crate::ini::render_section("pgmoneta_mcp"@, mcp_pairs(self@)),
    {
        let mut s = String::new();
        push_header(&mut s, "pgmoneta_mcp");
        let port_txt = crate::text::i32_to_string(self.port);
        push_kv(&mut s, "port", port_txt.as_str());
        push_kv(&mut s, "log_path", self.log_path.as_str());
        push_kv(&mut s, "log_level", self.log_level.as_str());
        push_kv(&mut s, "log_type", self.log_type.as_str());
        push_kv(&mut s, "log_line_prefix", self.log_line_prefix.as_str());
        push_kv(&mut s, "log_mode", self.log_mode.as_str());
        push_kv(&mut s, "log_rotation_age", self.log_rotation_age.as_str());
        proof {
            let ps = mcp_pairs(self@);
            assert(ps.skip(0) =~= ps);
            crate::ini::lemma_render_pairs_unfold(ps, 0);
            crate::ini::lemma_render_pairs_unfold(ps, 1);
            crate::ini::lemma_render_pairs_unfold(ps, 2);
            crate::ini::lemma_render_pairs_unfold(ps, 3);
            crate::ini::lemma_render_pairs_unfold(ps, 4);
            crate::ini::lemma_render_pairs_unfold(ps, 5);
            crate::ini::lemma_render_pairs_unfold(ps, 6);
            assert(ps.skip(7).len() == 0);
            assert(crate::ini::render_pairs(ps.skip(7)) =~= Seq::<char>::empty());
            assert(s@ =~= crate::ini::render_section("pgmoneta_mcp"@, ps));
        }
        s
    }
}

/// The round-trip law: the text both sections render to, loaded back as a
/// main file with an empty user file, resolves to exactly those two
/// structures (and no admin users). It holds of every pair of structures
/// whose string fields the format can carry: edges not whitespace and no
/// line feeds in a value.
pub proof fn lemma_config_round_trip(
    m: McpModel,
    p: PgmonetaModel,
    config_path: Seq<char>,
    user_path: Seq<char>,
)
    requires
        wf_mcp(m),
        wf_pg(p),
    ensures
        spec_load(spec_render_config(m, p), Seq::empty(), config_path, user_path) == Ok::<
            ConfigModel,
            ErrModel,
        >(
            ConfigModel {
                pgmoneta_mcp: m,
                pgmoneta: p,
                admins: Seq::empty(),
            },
        ),
{
    lemma_schema_names();
    lemma_i32_chars_wf(m.port as int);
    lemma_i32_chars_wf(p.port as int);
    let mps = mcp_pairs(m);
    let pps = pg_pairs(p);
    assert(crate::ini::wf_pairs(mps));
    assert(crate::ini::wf_pairs(pps));
    let text = spec_render_config(m, p);
    let s2 = crate::ini::render_section("pgmoneta"@, pps);

    // The rendered text parses to exactly the two sections' entries.
    assert(text =~= crate::ini::render_section("pgmoneta_mcp"@, mps) + s2);
    crate::ini::lemma_parse_section(
        "pgmoneta_mcp"@,
        mps,
        s2,
        Seq::empty(),
        Seq::empty(),
    );
    assert(s2 =~= s2 + Seq::<char>::empty());
    crate::ini::lemma_parse_section(
        "pgmoneta"@,
        pps,
        Seq::empty(),
        "pgmoneta_mcp"@,
        Seq::empty() + crate::ini::entries_of("pgmoneta_mcp"@, mps),
    );
    assert(crate::ini::split_lines(Seq::<char>::empty()) =~= Seq::<Seq<char>>::empty());
    let e1 = crate::ini::entries_of("pgmoneta_mcp"@, mps);
    let e2 = crate::ini::entries_of("pgmoneta"@, pps);
    let doc = config_entries(m, p);
    assert((Seq::empty() + e1) + e2 =~= doc);
    assert(crate::ini::parse_ini(text) == Some(doc));

    // An empty user file parses to no entries and merging adds nothing.
    assert(crate::ini::parse_ini(Seq::empty()) == Some(Seq::<EntryModel>::empty()));
    assert(doc + Seq::<EntryModel>::empty() =~= doc);

    // Every lookup the resolution makes finds the rendered field.
    assert(doc =~= e1 + e2);
    crate::ini::lemma_lookup_unique("pgmoneta"@, pps, 0);
    crate::ini::lemma_lookup_unique("pgmoneta"@, pps, 1);
    crate::ini::lemma_override_wins(e1, e2, "pgmoneta"@, "host"@);
    crate::ini::lemma_override_wins(e1, e2, "pgmoneta"@, "port"@);
    assert(lookup(doc, "pgmoneta"@, "host"@) == Some(p.host));
    assert(lookup(doc, "pgmoneta"@, "port"@) == Some(spec_i32_chars(p.port as int)));
    crate::text::lemma_parse_render_i32(p.port as int);
    crate::text::lemma_parse_render_i32(m.port as int);

    assert forall|key: Seq<char>|
        lookup(doc, "pgmoneta_mcp"@, key) == lookup(e1, "pgmoneta_mcp"@, key) by {
        crate::ini::lemma_lookup_absent("pgmoneta"@, pps, "pgmoneta_mcp"@, key);
        crate::ini::lemma_override_wins(e1, e2, "pgmoneta_mcp"@, key);
    }
    crate::ini::lemma_lookup_unique("pgmoneta_mcp"@, mps, 0);
    crate::ini::lemma_lookup_unique("pgmoneta_mcp"@, mps, 1);
    crate::ini::lemma_lookup_unique("pgmoneta_mcp"@, mps, 2);
    crate::ini::lemma_lookup_unique("pgmoneta_mcp"@, mps, 3);
    crate::ini::lemma_lookup_unique("pgmoneta_mcp"@, mps, 4);
    crate::ini::lemma_lookup_unique("pgmoneta_mcp"@, mps, 5);
    crate::ini::lemma_lookup_unique("pgmoneta_mcp"@, mps, 6);

    // No `[admins]` entries were rendered.
    assert(forall|i: int| 0 <= i < doc.len() ==> #[trigger] doc[i].section != "admins"@);
    lemma_admins_absent(doc);

    let got = spec_resolve(doc, config_path, user_path);
    assert(got is Ok);
    assert(got->Ok_0.pgmoneta_mcp == m);
    assert(got->Ok_0.pgmoneta == p);
    assert(got->Ok_0.admins =~= Seq::<(Seq<char>, Seq<char>)>::empty());
}

/// Defaults are per-field: any `[pgmoneta_mcp]` field absent from the merged
/// document resolves to its own documented default, independently of the
/// other fields.
pub proof fn lemma_defaults_per_field(
    doc: Seq<EntryModel>,
    config_path: Seq<char>,
    user_path: Seq<char>,
)
    requires
        spec_resolve(doc, config_path, user_path) is Ok,
    ensures
        ({
            let m = spec_resolve(doc, config_path, user_path)->Ok_0.pgmoneta_mcp;
            &&& lookup(doc, "pgmoneta_mcp"@, "port"@) is None ==> m.port == spec_default_port()
            &&& lookup(doc, "pgmoneta_mcp"@, "log_path"@) is None ==> m.log_path
                == spec_default_log_path()
            &&& lookup(doc, "pgmoneta_mcp"@, "log_level"@) is None ==> m.log_level
                == spec_default_log_level()
            &&& lookup(doc, "pgmoneta_mcp"@, "log_type"@) is None ==> m.log_type
                == spec_default_log_type()
            &&& lookup(doc, "pgmoneta_mcp"@, "log_line_prefix"@) is None ==> m.log_line_prefix
                == spec_default_log_line_prefix()
            &&& lookup(doc, "pgmoneta_mcp"@, "log_mode"@) is None ==> m.log_mode
                == spec_default_log_mode()
            &&& lookup(doc, "pgmoneta_mcp"@, "log_rotation_age"@) is None ==> m.log_rotation_age
                == spec_default_log_rotation_age()
        }),
{
}

/// A required `[pgmoneta]` field absent from the merged document fails the
/// load with a missing-field error that names both input paths.
pub proof fn lemma_missing_required(
    config_text: Seq<char>,
    user_text: Seq<char>,
    config_path: Seq<char>,
    user_path: Seq<char>,
)
    requires
        parse_ini(config_text) is Some,
        parse_ini(user_text) is Some,
        lookup(
            parse_ini(config_text)->Some_0 + parse_ini(user_text)->Some_0,
            "pgmoneta"@,
            "host"@,
        ) is None,
    ensures
        spec_load(config_text, user_text, config_path, user_path) == Err::<ConfigModel, ErrModel>(
            ErrModel::MissingField {
                section: "pgmoneta"@,
                key: "host"@,
                config_path: config_path,
                user_path: user_path,
            },
        ),
{
}

} // verus!
