//! The server configuration and the values derived from it: bridges,
//! media directory, metadata database path, public base URL and the
//! MusicBrainz client settings.

use vstd::prelude::*;
use crate::bridges::BridgeConfigResolved;
use crate::strings::{chars_of, string_from_chars};
use crate::musicbrainz::views;
use crate::tags::opt_string_view;
use crate::text::{push_str_chars, trim, trim_char_end, trim_chars, trim_end_char_chars};

verus! {

/// MusicBrainz web service used when none is configured.
pub const DEFAULT_MUSICBRAINZ_BASE_URL: &'static str = "https://musicbrainz.org/ws/2";

/// Delay between MusicBrainz requests when none is configured, in
/// milliseconds.
pub const DEFAULT_MUSICBRAINZ_RATE_LIMIT_MS: u64 = 1000;

/// The server configuration.
#[derive(Debug)]
pub struct ServerConfig {
    /// Bind address (host:port).
    pub bind: Option<String>,
    /// Media library root directory.
    pub media_dir: Option<String>,
    /// Path of the metadata database file.
    pub metadata_db_path: Option<String>,
    /// Public base URL used to build stream URLs.
    pub public_base_url: Option<String>,
    pub bridges: Option<Vec<BridgeConfig>>,
    /// Enable local outputs.
    pub local_outputs: Option<bool>,
    pub local_id: Option<String>,
    pub local_name: Option<String>,
    pub local_device: Option<String>,
    pub musicbrainz: Option<MusicBrainzConfig>,
    /// TLS certificate path (PEM).
    pub tls_cert: Option<String>,
    /// TLS private key path (PEM).
    pub tls_key: Option<String>,
    pub outputs: Option<OutputSettingsConfig>,
}

/// A configured bridge.
#[derive(Debug)]
pub struct BridgeConfig {
    /// Stable id used in output ids.
    pub id: String,
    /// Display name (the id when missing).
    pub name: Option<String>,
    /// HTTP address (host:port).
    pub http_addr: String,
}

/// MusicBrainz settings.
#[derive(Debug)]
pub struct MusicBrainzConfig {
    pub enabled: Option<bool>,
    /// User-Agent required by MusicBrainz.
    pub user_agent: Option<String>,
    pub base_url: Option<String>,
    /// Least delay between requests, in milliseconds.
    pub rate_limit_ms: Option<u64>,
}

/// Output settings kept in the configuration.
#[derive(Debug)]
pub struct OutputSettingsConfig {
    pub disabled: Option<Vec<String>>,
    /// Output id and display name pairs, in the order the configuration
    /// map gives them.
    pub renames: Option<Vec<(String, String)>>,
    pub exclusive: Option<Vec<String>>,
}

/// The resolved bridge of a configured one: named by its id when it has
/// no name, with its parsed address.
pub open spec fn resolved_bridge(b: BridgeConfig, addr: Seq<char>) -> (Seq<char>, Seq<char>, Seq<char>) {
    (
        b.id@,
        match b.name {
            Some(n) => n@,
            None => b.id@,
        },
        addr,
    )
}

/// `parse bridge http_addr {addr}`.
pub open spec fn bridge_addr_error(addr: Seq<char>) -> Seq<char> {
    "parse bridge http_addr "@ + addr
}

/// Index of the first bridge whose address did not parse.
pub open spec fn first_unparsed(parsed: Seq<Option<String>>) -> Option<int>
    decreases parsed.len(),
{
    if parsed.len() == 0 {
        None
    } else if parsed[0] is None {
        Some(0)
    } else {
        match first_unparsed(parsed.drop_first()) {
            Some(i) => Some(i + 1),
            None => None,
        }
    }
}

/// The configured bridges, resolved. `parsed_addrs` holds, for each
/// configured bridge in order, its address as parsed (`None` where it does
/// not parse); the first that does not parse fails the whole.
pub fn bridges_from_config(cfg: &ServerConfig, parsed_addrs: &Vec<Option<String>>) -> (r: Result<Vec<BridgeConfigResolved>, String>)
    requires
        parsed_addrs@.len() == match cfg.bridges {
            Some(b) => b@.len(),
            None => 0,
        },
    ensures
        match cfg.bridges {
            None => r matches Ok(v) && v@.len() == 0,
            Some(bs) => match first_unparsed(parsed_addrs@) {
                Some(i) => r matches Err(e) && e@ == bridge_addr_error(bs@[i].http_addr@),
                None => r matches Ok(v) && v@.len() == bs@.len() && forall|i: int|
                    0 <= i < v@.len() ==> (#[trigger] v@[i]).id@ == resolved_bridge(bs@[i], parsed_addrs@[i]->0@).0
                        && v@[i].name@ == resolved_bridge(bs@[i], parsed_addrs@[i]->0@).1
                        && v@[i].http_addr@ == resolved_bridge(bs@[i], parsed_addrs@[i]->0@).2,
            },
        },
{
    let mut out: Vec<BridgeConfigResolved> = Vec::new();
    let bs = match &cfg.bridges {
        Some(b) => b,
        None => {
            return Ok(out);
        },
    };
    let n = bs.len();
    let mut i: usize = 0;
    while i < n
        invariant
            cfg.bridges == Some(*bs),
            n == bs@.len(),
            parsed_addrs@.len() == n,
            i <= n,
            out@.len() == i,
            forall|j: int| 0 <= j < i ==> parsed_addrs@[j] is Some,
            forall|j: int|
                0 <= j < i ==> (#[trigger] out@[j]).id@ == resolved_bridge(bs@[j], parsed_addrs@[j]->0@).0
                    && out@[j].name@ == resolved_bridge(bs@[j], parsed_addrs@[j]->0@).1
                    && out@[j].http_addr@ == resolved_bridge(bs@[j], parsed_addrs@[j]->0@).2,
        decreases n - i,
    {
        let b = &bs[i];
        match &parsed_addrs[i] {
            None => {
                proof {
                    lemma_first_unparsed_at(parsed_addrs@, i as int);
                }
                let mut msg: Vec<char> = Vec::new();
                push_str_chars(&mut msg, "parse bridge http_addr ");
                push_str_chars(&mut msg, b.http_addr.as_str());
                return Err(string_from_chars(msg.as_slice()));
            },
            Some(addr) => {
                let name = match &b.name {
                    Some(n) => n.clone(),
                    None => b.id.clone(),
                };
                out.push(BridgeConfigResolved { id: b.id.clone(), name, http_addr: addr.clone() });
            },
        }
        i = i + 1;
    }
    proof {
        lemma_first_unparsed_none(parsed_addrs@);
    }
    Ok(out)
}

proof fn lemma_first_unparsed_at(parsed: Seq<Option<String>>, i: int)
    requires
        0 <= i < parsed.len(),
        parsed[i] is None,
        forall|j: int| 0 <= j < i ==> parsed[j] is Some,
    ensures
        first_unparsed(parsed) == Some(i),
    decreases parsed.len(),
{
    if i > 0 {
        let t = parsed.drop_first();
        assert forall|j: int| 0 <= j < i - 1 implies t[j] is Some by {
            assert(t[j] == parsed[j + 1]);
        }
        lemma_first_unparsed_at(t, i - 1);
    }
}

proof fn lemma_first_unparsed_none(parsed: Seq<Option<String>>)
    requires
        forall|j: int| 0 <= j < parsed.len() ==> parsed[j] is Some,
    ensures
        first_unparsed(parsed) is None,
    decreases parsed.len(),
{
    if parsed.len() > 0 {
        let t = parsed.drop_first();
        assert forall|j: int| 0 <= j < t.len() implies t[j] is Some by {
            assert(t[j] == parsed[j + 1]);
        }
        lemma_first_unparsed_none(t);
    }
}

/// The media directory, which the configuration must give.
pub fn media_dir_from_config(cfg: &ServerConfig) -> (r: Result<String, String>)
    ensures
        match cfg.media_dir {
            Some(d) => r matches Ok(p) && p@ == d@,
            None => r matches Err(e) && e@ == "media_dir is required in config"@,
        },
{
    match &cfg.media_dir {
        Some(d) => Ok(d.clone()),
        None => Err(string_from_chars(chars_of("media_dir is required in config").as_slice())),
    }
}

/// The metadata database path, trimmed; none when missing or blank.
pub fn metadata_db_path_from_config(cfg: &ServerConfig) -> (r: Option<String>)
    ensures
        opt_string_view(r) == match cfg.metadata_db_path {
            Some(p) => if trim(p@).len() == 0 {
                None
            } else {
                Some(trim(p@))
            },
            None => None,
        },
{
    match &cfg.metadata_db_path {
        None => None,
        Some(p) => {
            let t = trim_chars(chars_of(p.as_str()).as_slice());
            if t.len() == 0 {
                None
            } else {
                Some(string_from_chars(t.as_slice()))
            }
        },
    }
}

/// The public base URL: the configured one without trailing `/`, else
/// `{scheme}://{bind}` with `https` under TLS; an unspecified bind address
/// (`0.0.0.0`) needs the configured one. `bind` is the bind address as
/// text and `bind_unspecified` whether its IP is the unspecified one.
pub fn public_base_url_from_config(cfg: &ServerConfig, bind: &str, bind_unspecified: bool, tls_enabled: bool) -> (r: Result<String, String>)
    ensures
        match cfg.public_base_url {
            Some(u) => r matches Ok(s) && s@ == trim_char_end(u@, '/'),
            None => if bind_unspecified {
                r matches Err(e) && e@ == "public_base_url is required when bind is 0.0.0.0"@
            } else {
                r matches Ok(s) && s@ == (if tls_enabled {
                    "https"@
                } else {
                    "http"@
                }) + "://"@ + bind@
            },
        },
{
    if let Some(u) = &cfg.public_base_url {
        let t = trim_end_char_chars(chars_of(u.as_str()).as_slice(), '/');
        return Ok(string_from_chars(t.as_slice()));
    }
    if bind_unspecified {
        return Err(string_from_chars(chars_of("public_base_url is required when bind is 0.0.0.0").as_slice()));
    }
    let mut c: Vec<char> = Vec::new();
    if tls_enabled {
        push_str_chars(&mut c, "https");
    } else {
        push_str_chars(&mut c, "http");
    }
    push_str_chars(&mut c, "://");
    push_str_chars(&mut c, bind);
    Ok(string_from_chars(c.as_slice()))
}

/// Settings of the MusicBrainz client.
#[derive(Debug)]
pub struct MusicBrainzSettings {
    /// Base URL without trailing `/`.
    pub base_url: String,
    pub user_agent: String,
    pub rate_limit_ms: u64,
}

/// The MusicBrainz client settings: none unless lookups are enabled and a
/// user agent is given; the default base URL and delay fill what is not
/// configured.
pub fn musicbrainz_settings(cfg: &MusicBrainzConfig) -> (r: Option<MusicBrainzSettings>)
    ensures
        !(cfg.enabled == Some(true) && cfg.user_agent is Some) ==> r is None,
        cfg.enabled == Some(true) && cfg.user_agent is Some ==> (r matches Some(s) && s.user_agent@
            == cfg.user_agent->0@ && s.base_url@ == trim_char_end(
            match cfg.base_url {
                Some(b) => b@,
                None => DEFAULT_MUSICBRAINZ_BASE_URL@,
            },
            '/',
        ) && s.rate_limit_ms == match cfg.rate_limit_ms {
            Some(ms) => ms,
            None => DEFAULT_MUSICBRAINZ_RATE_LIMIT_MS,
        }),
{
    let enabled = match cfg.enabled {
        Some(e) => e,
        None => false,
    };
    if !enabled {
        return None;
    }
    let ua = match &cfg.user_agent {
        Some(u) => u,
        None => {
            return None;
        },
    };
    let base: &str = match &cfg.base_url {
        Some(b) => b.as_str(),
        None => DEFAULT_MUSICBRAINZ_BASE_URL,
    };
    let t = trim_end_char_chars(chars_of(base).as_slice(), '/');
    let rate = match cfg.rate_limit_ms {
        Some(ms) => ms,
        None => DEFAULT_MUSICBRAINZ_RATE_LIMIT_MS,
    };
    Some(MusicBrainzSettings { base_url: string_from_chars(t.as_slice()), user_agent: ua.clone(), rate_limit_ms: rate })
}

/// A TOML document of `toml_edit` that keeps the text's formatting.
#[verifier::external_type_specification]
#[verifier::external_body]
pub struct ExDocumentMut(toml_edit::DocumentMut);

/// A TOML table of `toml_edit`.
#[verifier::external_type_specification]
#[verifier::external_body]
pub struct ExTomlTable(toml_edit::Table);

/// A TOML array of `toml_edit`.
#[verifier::external_type_specification]
#[verifier::external_body]
pub struct ExTomlArray(toml_edit::Array);

/// The parse error of `toml_edit`.
#[verifier::external_type_specification]
#[verifier::external_body]
pub struct ExTomlError(toml_edit::TomlError);

/// The top-level items of the document that `str::parse::<DocumentMut>`
/// reads from a text, each key mapped to its item as `Item`'s `Display`
/// writes it; `None` where the text is not TOML.
pub uninterp spec fn toml_items(raw: Seq<char>) -> Option<Map<Seq<char>, Seq<char>>>;

/// The top-level items of a document: each key that holds an item, mapped
/// to that item as `Item`'s `Display` writes it.
pub uninterp spec fn document_items(d: toml_edit::DocumentMut) -> Map<Seq<char>, Seq<char>>;

/// The text that `DocumentMut`'s `Display` writes for a document.
pub uninterp spec fn document_display(d: toml_edit::DocumentMut) -> Seq<char>;

/// What a key of a TOML table holds, as far as this library writes it: a
/// string, an array of strings, or a table of strings.
pub ghost enum TomlEntry {
    Text(Seq<char>),
    Strings(Seq<Seq<char>>),
    Texts(Map<Seq<char>, Seq<char>>),
}

/// The entries of a TOML table: each key that holds an item, with what it
/// holds.
pub uninterp spec fn table_entries(t: toml_edit::Table) -> Map<Seq<char>, TomlEntry>;

/// The entries of an empty table.
pub open spec fn no_entries() -> Map<Seq<char>, TomlEntry> {
    Map::empty()
}

/// The strings of a table whose every entry is a string.
pub open spec fn entry_texts(m: Map<Seq<char>, TomlEntry>) -> Map<Seq<char>, Seq<char>> {
    m.map_values(|e: TomlEntry| e->Text_0)
}

/// Every entry of a table is a string.
pub open spec fn all_texts(m: Map<Seq<char>, TomlEntry>) -> bool {
    forall|k: Seq<char>| m.contains_key(k) ==> #[trigger] m[k] is Text
}

/// The text that `Table`'s `Display` writes for a table, which is also what
/// `Item::Table` of it writes.
pub uninterp spec fn table_display(t: toml_edit::Table) -> Seq<char>;

/// The strings of a TOML array, in order.
pub uninterp spec fn array_items(a: toml_edit::Array) -> Seq<Seq<char>>;

/// `str::parse::<toml_edit::DocumentMut>`: the document of a TOML text,
/// whose top-level items are those the text holds; it fails exactly when
/// the text is not TOML.
#[verifier::external_body]
fn parse_document(raw: &str) -> (r: Result<toml_edit::DocumentMut, toml_edit::TomlError>)
    ensures
        r is Ok <==> toml_items(raw@) is Some,
        r matches Ok(d) ==> toml_items(raw@) == Some(document_items(d)),
{
    raw.parse::<toml_edit::DocumentMut>()
}

/// `TomlError`'s message, as `Display` writes it.
#[verifier::external_body]
fn toml_error_text(e: &toml_edit::TomlError) -> (r: String) {
    e.to_string()
}

/// `toml_edit::Table::new`: an empty table.
#[verifier::external_body]
fn new_table() -> (r: toml_edit::Table)
    ensures
        table_entries(r) == no_entries(),
{
    toml_edit::Table::new()
}

/// `toml_edit::Array::new`: an empty array.
#[verifier::external_body]
fn new_array() -> (r: toml_edit::Array)
    ensures
        array_items(r) == Seq::<Seq<char>>::empty(),
{
    toml_edit::Array::new()
}

/// `toml_edit::Array::push` of a string: appended last, with the default
/// formatting.
#[verifier::external_body]
fn array_push(a: &mut toml_edit::Array, s: &str)
    ensures
        array_items(*final(a)) == array_items(*old(a)).push(s@),
{
    a.push(s);
}

/// `table[key] = toml_edit::value(array)` (`IndexMut` finds or adds the
/// key, then the assignment replaces its item): the key holds the array,
/// the other entries stay.
#[verifier::external_body]
fn table_set_array(t: &mut toml_edit::Table, key: &str, a: toml_edit::Array)
    ensures
        table_entries(*final(t)) == table_entries(*old(t)).insert(key@, TomlEntry::Strings(array_items(a))),
{
    t[key] = toml_edit::value(a);
}

/// `table[key] = toml_edit::value(text)`: the key holds the string, the
/// other entries stay.
#[verifier::external_body]
fn table_set_string(t: &mut toml_edit::Table, key: &str, value: &str)
    ensures
        table_entries(*final(t)) == table_entries(*old(t)).insert(key@, TomlEntry::Text(value@)),
{
    t[key] = toml_edit::value(value);
}

/// `table[key] = toml_edit::Item::Table(sub)` of a table of strings: the
/// key holds that table, the other entries stay.
#[verifier::external_body]
fn table_set_table(t: &mut toml_edit::Table, key: &str, sub: toml_edit::Table)
    requires
        all_texts(table_entries(sub)),
    ensures
        table_entries(*final(t)) == table_entries(*old(t)).insert(
            key@,
            TomlEntry::Texts(entry_texts(table_entries(sub))),
        ),
{
    t[key] = toml_edit::Item::Table(sub);
}

/// `toml_edit::Table::is_empty`: whether no key holds an item.
#[verifier::external_body]
fn table_is_empty(t: &toml_edit::Table) -> (r: bool)
    ensures
        r == (table_entries(*t).dom() == Set::<Seq<char>>::empty()),
{
    t.is_empty()
}

/// `DocumentMut::remove` of a top-level key (the root table's
/// `shift_remove`): the key no longer holds an item, the other items stay
/// as they were.
#[verifier::external_body]
fn document_remove(doc: &mut toml_edit::DocumentMut, key: &str)
    ensures
        document_items(*final(doc)) == document_items(*old(doc)).remove(key@),
{
    doc.remove(key);
}

/// `doc[key] = toml_edit::Item::Table(t)`: the key holds the table, the
/// other items stay as they were.
#[verifier::external_body]
fn document_set_table(doc: &mut toml_edit::DocumentMut, key: &str, t: toml_edit::Table)
    ensures
        document_items(*final(doc)) == document_items(*old(doc)).insert(key@, table_display(t)),
{
    doc[key] = toml_edit::Item::Table(t);
}

/// The text of a document, as `Display` writes it (formatting kept).
#[verifier::external_body]
fn document_text(doc: &toml_edit::DocumentMut) -> (r: String)
    ensures
        r@ == document_display(*doc),
{
    doc.to_string()
}

/// A list that is there and not empty.
pub open spec fn has_entries<T>(v: Option<Vec<T>>) -> bool {
    v matches Some(x) && x@.len() > 0
}

/// The keys written in the `outputs` section: each setting that is there
/// and not empty.
pub open spec fn written_keys(s: OutputSettingsConfig) -> Set<Seq<char>> {
    (if has_entries(s.disabled) {
        set!["disabled"@]
    } else {
        Set::empty()
    }) + (if has_entries(s.renames) {
        set!["renames"@]
    } else {
        Set::empty()
    }) + (if has_entries(s.exclusive) {
        set!["exclusive"@]
    } else {
        Set::empty()
    })
}

/// The map of name pairs, a later pair of the same key replacing an
/// earlier one.
pub open spec fn pairs_map(s: Seq<(String, String)>) -> Map<Seq<char>, Seq<char>>
    decreases s.len(),
{
    if s.len() == 0 {
        Map::empty()
    } else {
        pairs_map(s.drop_last()).insert(s.last().0@, s.last().1@)
    }
}

/// The entries of the `outputs` section for some output settings: the
/// disabled ids and the exclusive ids as arrays in order, the renames as a
/// table of names, each only when there is something to write.
pub open spec fn outputs_entries(s: OutputSettingsConfig) -> Map<Seq<char>, TomlEntry> {
    let m0 = Map::<Seq<char>, TomlEntry>::empty();
    let m1 = match s.disabled {
        Some(v) => if v@.len() > 0 {
            m0.insert("disabled"@, TomlEntry::Strings(views(v@)))
        } else {
            m0
        },
        None => m0,
    };
    let m2 = match s.renames {
        Some(v) => if v@.len() > 0 {
            m1.insert("renames"@, TomlEntry::Texts(pairs_map(v@)))
        } else {
            m1
        },
        None => m1,
    };
    match s.exclusive {
        Some(v) => if v@.len() > 0 {
            m2.insert("exclusive"@, TomlEntry::Strings(views(v@)))
        } else {
            m2
        },
        None => m2,
    }
}

fn string_array(items: &Vec<String>) -> (r: toml_edit::Array)
    ensures
        array_items(r) == crate::playqueue::string_views(items@),
{
    let mut a = new_array();
    let mut i: usize = 0;
    while i < items.len()
        invariant
            i <= items@.len(),
            array_items(a) == crate::playqueue::string_views(items@).take(i as int),
        decreases items@.len() - i,
    {
        array_push(&mut a, items[i].as_str());
        proof {
            crate::playqueue::lemma_views_take(items@, i as int);
        }
        i = i + 1;
    }
    assert(crate::playqueue::string_views(items@).take(items@.len() as int) =~= crate::playqueue::string_views(items@));
    a
}

/// The `outputs` section of the configuration for some output settings:
/// the disabled and exclusive ids as string arrays, the renames as a table,
/// each only when there is something to write.
pub fn output_settings_table(settings: &OutputSettingsConfig) -> (r: toml_edit::Table)
    ensures
        table_entries(r) == outputs_entries(*settings),
        table_entries(r).dom() == written_keys(*settings),
{
    let mut outputs = new_table();
    if let Some(disabled) = &settings.disabled {
        if disabled.len() > 0 {
            table_set_array(&mut outputs, "disabled", string_array(disabled));
        }
    }
    if let Some(renames) = &settings.renames {
        if renames.len() > 0 {
            let mut sub = new_table();
            let mut i: usize = 0;
            while i < renames.len()
                invariant
                    i <= renames@.len(),
                    all_texts(table_entries(sub)),
                    entry_texts(table_entries(sub)) == pairs_map(renames@.take(i as int)),
                decreases renames@.len() - i,
            {
                let ghost before = table_entries(sub);
                table_set_string(&mut sub, renames[i].0.as_str(), renames[i].1.as_str());
                proof {
                    let t = renames@.take(i + 1);
                    assert(t.drop_last() =~= renames@.take(i as int));
                    assert(t.last() == renames@[i as int]);
                    assert(entry_texts(table_entries(sub)) =~= pairs_map(t));
                }
                i = i + 1;
            }
            assert(renames@.take(renames@.len() as int) =~= renames@);
            table_set_table(&mut outputs, "renames", sub);
        }
    }
    if let Some(exclusive) = &settings.exclusive {
        if exclusive.len() > 0 {
            table_set_array(&mut outputs, "exclusive", string_array(exclusive));
        }
    }
    proof {
        reveal_strlit("disabled");
        reveal_strlit("renames");
        reveal_strlit("exclusive");
    }
    assert(table_entries(outputs) =~= outputs_entries(*settings));
    assert(table_entries(outputs).dom() =~= written_keys(*settings));
    outputs
}

/// Why the configuration could not be rewritten.
#[derive(Debug, Clone)]
pub enum ConfigEditError {
    /// The configuration is not TOML; the parser's message.
    InvalidToml(String),
}

/// The top-level items of the configuration once its `outputs` section is
/// set to a table: removed when the table would be empty, else replaced by
/// it; every other item stays.
pub open spec fn items_with_outputs(items: Map<Seq<char>, Seq<char>>, keys: Set<Seq<char>>, outputs: Seq<char>) -> Map<
    Seq<char>,
    Seq<char>,
> {
    if keys == Set::<Seq<char>>::empty() {
        items.remove("outputs"@)
    } else {
        items.insert("outputs"@, outputs)
    }
}

/// The configuration text with its `outputs` section set to the output
/// settings: replaced by the settings that are there and not empty, or
/// removed when none is; the rest of the text keeps its formatting. Fails
/// exactly when the text is not TOML. The text returned is that of a
/// document whose top-level items are those of the input, with `outputs`
/// removed or holding a table of exactly the settings written: the
/// disabled ids, the renames and the exclusive ids.
pub fn update_output_settings(raw: &str, settings: &OutputSettingsConfig) -> (r: Result<String, ConfigEditError>)
    ensures
        r is Ok <==> toml_items(raw@) is Some,
        r matches Ok(t) ==> exists|d: toml_edit::DocumentMut, o: toml_edit::Table|
            #![trigger document_display(d), table_display(o)]
            {
                &&& t@ == document_display(d)
                &&& table_entries(o) == outputs_entries(*settings)
                &&& document_items(d) == items_with_outputs(
                    toml_items(raw@)->0,
                    written_keys(*settings),
                    table_display(o),
                )
            },
{
    let mut doc = match parse_document(raw) {
        Ok(d) => d,
        Err(e) => {
            return Err(ConfigEditError::InvalidToml(toml_error_text(&e)));
        },
    };
    let outputs = output_settings_table(settings);
    let ghost o = outputs;
    if table_is_empty(&outputs) {
        document_remove(&mut doc, "outputs");
    } else {
        document_set_table(&mut doc, "outputs", outputs);
    }
    let text = document_text(&doc);
    proof {
        reveal_strlit("outputs");
        assert(document_items(doc) == items_with_outputs(
            toml_items(raw@)->0,
            written_keys(*settings),
            table_display(o),
        ));
        assert(text@ == document_display(doc) && table_entries(o) == outputs_entries(*settings));
    }
    Ok(text)
}

} // verus!
