//! `MUMDOTA_*` variables: which entry of the configuration file each one
//! overrides, and how it does.

use vstd::prelude::*;

use crate::config::{
    expand_env_vars, expanded, law_text_without_placeholders_stays, EnvVars, ExpandError,
};
use crate::list::views;
use crate::text::{
    is_space, joined, lowercase, lowered_ascii, parse_i64, parsed_i64, pieces, same_text, split,
    to_lowercase, trim, trimmed,
};

verus! {

// TOML, as the `toml` crate holds it

#[verifier::external_type_specification]
#[verifier::external_body]
#[verifier::reject_recursive_types(K)]
#[verifier::reject_recursive_types(V)]
pub struct ExTomlMap<K, V>(toml::map::Map<K, V>);

#[verifier::external_type_specification]
#[verifier::external_body]
pub struct ExTomlValue(toml::Value);

#[verifier::external_type_specification]
#[verifier::external_body]
pub struct ExTomlError(toml::de::Error);

/// The values in a table, by key.
pub uninterp spec fn table_contents(t: toml::Table) -> Map<Seq<char>, toml::Value>;

/// The table that a value is, where it is one.
pub uninterp spec fn value_table(v: toml::Value) -> Option<toml::Table>;

/// What `toml::from_str` makes of a text, read as a table.
pub uninterp spec fn toml_parsed(text: Seq<char>) -> Result<toml::Table, toml::de::Error>;

/// `toml::Table::new` makes a table that holds nothing.
#[verifier::external_body]
fn table_new() -> (r: toml::Table)
    ensures
        table_contents(r).dom() == Set::<Seq<char>>::empty(),
{
    toml::Table::new()
}

/// `toml::Table::insert` puts a value under a key, in place of the one that was
/// there.
#[verifier::external_body]
fn table_insert(t: &mut toml::Table, key: &str, value: toml::Value)
    ensures
        table_contents(*final(t)) == table_contents(*old(t)).insert(key@, value),
{
    t.insert(key.to_string(), value);
}

/// `toml::Table::remove` takes out the value under a key, if there is one.
#[verifier::external_body]
fn table_remove(t: &mut toml::Table, key: &str) -> (r: Option<toml::Value>)
    ensures
        table_contents(*final(t)) == table_contents(*old(t)).remove(key@),
        r is Some <==> table_contents(*old(t)).dom().contains(key@),
        r matches Some(v) ==> v == table_contents(*old(t))[key@],
{
    t.remove(key)
}

/// `toml::Table::get` gives the value under a key, if there is one.
#[verifier::external_body]
fn table_get<'a>(t: &'a toml::Table, key: &str) -> (r: Option<&'a toml::Value>)
    ensures
        r is Some <==> table_contents(*t).dom().contains(key@),
        r matches Some(v) ==> *v == table_contents(*t)[key@],
{
    t.get(key)
}

/// `toml::Value::is_table` tells whether a value is a table.
#[verifier::external_body]
fn value_is_table(v: &toml::Value) -> (r: bool)
    ensures
        r == (value_table(*v) is Some),
{
    v.is_table()
}

/// A value that is a table is `toml::Value::Table` of that table.
#[verifier::external_body]
fn value_into_table(v: toml::Value) -> (r: Option<toml::Table>)
    ensures
        r == value_table(v),
{
    match v {
        toml::Value::Table(t) => Some(t),
        _ => None,
    }
}

/// `toml::Value::Table` makes a value that is the table.
#[verifier::external_body]
fn table_into_value(t: toml::Table) -> (r: toml::Value)
    ensures
        value_table(r) == Some(t),
{
    toml::Value::Table(t)
}

/// `toml::from_str` reads a text as a table; what comes out, a table or an
/// error, depends on the text alone.
#[verifier::external_body]
fn parse_table(text: &str) -> (r: Result<toml::Table, toml::de::Error>)
    ensures
        r == toml_parsed(text@),
{
    toml::from_str(text)
}

// The variables

/// How the value of a variable is read.
#[derive(Debug, Clone, Copy, PartialEq, Eq, Structural)]
pub enum Kind {
    /// As it stands.
    Text,
    /// As a decimal integer; any other value is ignored.
    Integer,
    /// As yes or no: `1`, `true` and `yes`, in any case, are yes.
    Flag,
    /// As texts separated by commas, without the white space around them.
    List,
    /// In the same way, without the texts that are empty.
    NonEmptyList,
}

/// Which entry of the file a variable overrides.
#[derive(Debug, Clone, Copy)]
pub struct OverrideRule {
    pub variable: &'static str,
    pub section: &'static str,
    pub key: &'static str,
    pub kind: Kind,
}

/// A value for an entry of the file.
#[derive(Debug)]
pub enum Setting {
    Text(String),
    Integer(i64),
    Flag(bool),
    List(Vec<String>),
}

/// An entry of the file and the value that it gets.
#[derive(Debug)]
pub struct Override {
    pub section: &'static str,
    pub key: &'static str,
    pub setting: Setting,
}

/// What a [`Setting`] says.
pub enum SettingView {
    Text(Seq<char>),
    Integer(i64),
    Flag(bool),
    List(Seq<Seq<char>>),
}

impl View for Setting {
    type V = SettingView;

    open spec fn view(&self) -> SettingView {
        match *self {
            Setting::Text(t) => SettingView::Text(t@),
            Setting::Integer(n) => SettingView::Integer(n),
            Setting::Flag(b) => SettingView::Flag(b),
            Setting::List(v) => SettingView::List(views(v@)),
        }
    }
}

/// What an [`Override`] says.
pub struct OverrideView {
    pub section: Seq<char>,
    pub key: Seq<char>,
    pub setting: SettingView,
}

impl View for Override {
    type V = OverrideView;

    open spec fn view(&self) -> OverrideView {
        OverrideView { section: self.section@, key: self.key@, setting: self.setting@ }
    }
}

pub open spec fn rule(
    variable: &'static str,
    section: &'static str,
    key: &'static str,
    kind: Kind,
) -> OverrideRule {
    OverrideRule { variable, section, key, kind }
}

/// Every variable that overrides an entry.
pub open spec fn rules() -> Seq<OverrideRule> {
    seq![
        rule("MUMDOTA_SERVER_LISTEN_ADDR", "server", "listen_addr", Kind::Text),
        rule("MUMDOTA_SERVER_LISTEN_PORT", "server", "listen_port", Kind::Integer),
        rule("MUMDOTA_SERVER_MAX_CONNECTIONS", "server", "max_connections", Kind::Integer),
        rule("MUMDOTA_MUMBLE_HOST", "mumble", "host", Kind::Text),
        rule("MUMDOTA_MUMBLE_PORT", "mumble", "port", Kind::Integer),
        rule("MUMDOTA_MUMBLE_ACCEPT_INVALID_CERTS", "mumble", "accept_invalid_certs", Kind::Flag),
        rule("MUMDOTA_WEBRTC_STUN_SERVERS", "webrtc", "stun_servers", Kind::List),
        rule("MUMDOTA_WEBRTC_UDP_PORT", "webrtc", "udp_port", Kind::Integer),
        rule("MUMDOTA_WEBRTC_PUBLIC_IP", "webrtc", "public_ip", Kind::Text),
        rule("MUMDOTA_TURN_ENABLED", "turn", "enabled", Kind::Flag),
        rule("MUMDOTA_TURN_LISTEN_ADDR", "turn", "listen_addr", Kind::Text),
        rule("MUMDOTA_TURN_PUBLIC_IP", "turn", "public_ip", Kind::Text),
        rule("MUMDOTA_TURN_PUBLIC_HOST", "turn", "public_host", Kind::Text),
        rule("MUMDOTA_TURN_REALM", "turn", "realm", Kind::Text),
        rule("MUMDOTA_TURN_TLS_CERT", "turn", "tls_cert", Kind::Text),
        rule("MUMDOTA_TURN_TLS_KEY", "turn", "tls_key", Kind::Text),
        rule("MUMDOTA_TURN_PORT", "turn", "port", Kind::Integer),
        rule("MUMDOTA_TURN_TLS_PORT", "turn", "tls_port", Kind::Integer),
        rule("MUMDOTA_TURN_RELAY_MIN_PORT", "turn", "relay_min_port", Kind::Integer),
        rule("MUMDOTA_TURN_RELAY_MAX_PORT", "turn", "relay_max_port", Kind::Integer),
        rule("MUMDOTA_TURN_CREDENTIAL_TTL_SECS", "turn", "credential_ttl_secs", Kind::Integer),
        rule("MUMDOTA_SERVER_ALLOWED_ORIGINS", "server", "allowed_origins", Kind::NonEmptyList),
    ]
}

pub open spec fn is_yes(lowered: Seq<char>) -> bool {
    lowered == "1"@ || lowered == "true"@ || lowered == "yes"@
}

pub open spec fn trimmed_pieces(value: Seq<char>) -> Seq<Seq<char>> {
    pieces(value, ',').map_values(|p: Seq<char>| trimmed(p))
}

pub open spec fn not_empty() -> spec_fn(Seq<char>) -> bool {
    |p: Seq<char>| p.len() > 0
}

/// What the value of a variable sets, if it can be read.
pub open spec fn setting_of(kind: Kind, value: Seq<char>) -> Option<SettingView> {
    match kind {
        Kind::Text => Some(SettingView::Text(value)),
        Kind::Integer => match parsed_i64(value) {
            Some(n) => Some(SettingView::Integer(n)),
            None => None,
        },
        Kind::Flag => Some(SettingView::Flag(is_yes(lowercase(value)))),
        Kind::List => Some(SettingView::List(trimmed_pieces(value))),
        Kind::NonEmptyList => Some(
            SettingView::List(trimmed_pieces(value).filter(not_empty())),
        ),
    }
}

/// What a rule sets in an environment: nothing where its variable is not set or
/// cannot be read.
pub open spec fn rule_setting(r: OverrideRule, env: Map<Seq<char>, Seq<char>>) -> Option<
    SettingView,
> {
    if env.dom().contains(r.variable@) {
        setting_of(r.kind, env[r.variable@])
    } else {
        None
    }
}

/// The overrides that an environment holds, in the order of the rules.
pub open spec fn overrides_by(r: Seq<OverrideRule>, env: Map<Seq<char>, Seq<char>>) -> Seq<
    OverrideView,
>
    decreases r.len(),
{
    if r.len() == 0 {
        Seq::empty()
    } else {
        let before = overrides_by(r.drop_last(), env);
        match rule_setting(r.last(), env) {
            Some(setting) => before.push(
                OverrideView { section: r.last().section@, key: r.last().key@, setting },
            ),
            None => before,
        }
    }
}

fn make_rule(
    variable: &'static str,
    section: &'static str,
    key: &'static str,
    kind: Kind,
) -> (r: OverrideRule)
    ensures
        r == rule(variable, section, key, kind),
{
    OverrideRule { variable, section, key, kind }
}

/// Every variable that overrides an entry.
pub fn override_rules() -> (r: Vec<OverrideRule>)
    ensures
        r@ == rules(),
{
    vec![
        make_rule("MUMDOTA_SERVER_LISTEN_ADDR", "server", "listen_addr", Kind::Text),
        make_rule("MUMDOTA_SERVER_LISTEN_PORT", "server", "listen_port", Kind::Integer),
        make_rule("MUMDOTA_SERVER_MAX_CONNECTIONS", "server", "max_connections", Kind::Integer),
        make_rule("MUMDOTA_MUMBLE_HOST", "mumble", "host", Kind::Text),
        make_rule("MUMDOTA_MUMBLE_PORT", "mumble", "port", Kind::Integer),
        make_rule("MUMDOTA_MUMBLE_ACCEPT_INVALID_CERTS", "mumble", "accept_invalid_certs", Kind::Flag),
        make_rule("MUMDOTA_WEBRTC_STUN_SERVERS", "webrtc", "stun_servers", Kind::List),
        make_rule("MUMDOTA_WEBRTC_UDP_PORT", "webrtc", "udp_port", Kind::Integer),
        make_rule("MUMDOTA_WEBRTC_PUBLIC_IP", "webrtc", "public_ip", Kind::Text),
        make_rule("MUMDOTA_TURN_ENABLED", "turn", "enabled", Kind::Flag),
        make_rule("MUMDOTA_TURN_LISTEN_ADDR", "turn", "listen_addr", Kind::Text),
        make_rule("MUMDOTA_TURN_PUBLIC_IP", "turn", "public_ip", Kind::Text),
        make_rule("MUMDOTA_TURN_PUBLIC_HOST", "turn", "public_host", Kind::Text),
        make_rule("MUMDOTA_TURN_REALM", "turn", "realm", Kind::Text),
        make_rule("MUMDOTA_TURN_TLS_CERT", "turn", "tls_cert", Kind::Text),
        make_rule("MUMDOTA_TURN_TLS_KEY", "turn", "tls_key", Kind::Text),
        make_rule("MUMDOTA_TURN_PORT", "turn", "port", Kind::Integer),
        make_rule("MUMDOTA_TURN_TLS_PORT", "turn", "tls_port", Kind::Integer),
        make_rule("MUMDOTA_TURN_RELAY_MIN_PORT", "turn", "relay_min_port", Kind::Integer),
        make_rule("MUMDOTA_TURN_RELAY_MAX_PORT", "turn", "relay_max_port", Kind::Integer),
        make_rule("MUMDOTA_TURN_CREDENTIAL_TTL_SECS", "turn", "credential_ttl_secs", Kind::Integer),
        make_rule("MUMDOTA_SERVER_ALLOWED_ORIGINS", "server", "allowed_origins", Kind::NonEmptyList),
    ]
}

/// Whether a text in small letters means yes.
pub fn parse_flag(lowered: &str) -> (r: bool)
    ensures
        r == is_yes(lowered@),
{
    same_text(lowered, "1") || same_text(lowered, "true") || same_text(lowered, "yes")
}

fn parse_list(value: &str) -> (r: Vec<String>)
    ensures
        views(r@) == trimmed_pieces(value@),
{
    let parts = split(value, ',');
    let mut r: Vec<String> = Vec::new();
    let mut i: usize = 0;
    while i < parts.len()
        invariant
            i <= parts@.len(),
            views(parts@) == pieces(value@, ','),
            views(r@) == trimmed_pieces(value@).take(i as int),
        decreases parts@.len() - i,
    {
        let ghost before = views(r@);
        let piece = trim(parts[i].as_str());
        assert(views(parts@)[i as int] == parts@[i as int]@);
        r.push(piece);
        assert(views(r@) =~= before.push(piece@));
        assert(trimmed_pieces(value@).take(i + 1) =~= before.push(piece@));
        i = i + 1;
    }
    assert(trimmed_pieces(value@).take(i as int) =~= trimmed_pieces(value@));
    r
}

fn drop_empty(v: Vec<String>) -> (r: Vec<String>)
    ensures
        views(r@) == views(v@).filter(not_empty()),
{
    let mut r: Vec<String> = Vec::new();
    let mut i: usize = 0;
    let ghost all = views(v@);
    assert(all.take(0).filter(not_empty()) =~= Seq::<Seq<char>>::empty()) by {
        reveal(Seq::filter);
    }
    while i < v.len()
        invariant
            i <= v@.len(),
            all == views(v@),
            views(r@) == all.take(i as int).filter(not_empty()),
        decreases v@.len() - i,
    {
        let ghost before = views(r@);
        let piece = v[i].clone();
        assert(all.take(i + 1).drop_last() =~= all.take(i as int));
        assert(all.take(i + 1).last() == piece@);
        assert(all.take(i + 1).filter(not_empty()) =~= if piece@.len() > 0 {
            before.push(piece@)
        } else {
            before
        }) by {
            reveal(Seq::filter);
        }
        if !piece.as_str().is_empty() {
            r.push(piece);
            assert(views(r@) =~= before.push(piece@));
        }
        i = i + 1;
    }
    assert(all.take(i as int) =~= all);
    r
}

/// What the value of a variable sets, if it can be read.
pub fn parse_setting(kind: Kind, value: String) -> (r: Option<Setting>)
    ensures
        match r {
            Some(s) => setting_of(kind, value@) == Some(s@),
            None => setting_of(kind, value@) is None,
        },
        kind == Kind::Flag && vstd::utf8::is_ascii_chars(value@) ==> (r matches Some(
            Setting::Flag(b),
        ) && b == is_yes(lowered_ascii(value@))),
{
    match kind {
        Kind::Text => Some(Setting::Text(value)),
        Kind::Integer => match parse_i64(value.as_str()) {
            Some(n) => Some(Setting::Integer(n)),
            None => None,
        },
        Kind::Flag => {
            let lowered = to_lowercase(value.as_str());
            Some(Setting::Flag(parse_flag(lowered.as_str())))
        },
        Kind::List => Some(Setting::List(parse_list(value.as_str()))),
        Kind::NonEmptyList => Some(Setting::List(drop_empty(parse_list(value.as_str())))),
    }
}

/// The overrides that an environment holds.
pub fn env_overrides(env: &EnvVars) -> (r: Vec<Override>)
    ensures
        views(r@) == overrides_by(rules(), env@),
{
    let all: Vec<OverrideRule> = override_rules();
    let mut r: Vec<Override> = Vec::new();
    let mut i: usize = 0;
    assert(rules().take(0) =~= Seq::<OverrideRule>::empty());
    assert(views(r@) =~= Seq::<OverrideView>::empty());
    while i < all.len()
        invariant
            i <= all@.len(),
            all@ == rules(),
            views(r@) == overrides_by(rules().take(i as int), env@),
        decreases all@.len() - i,
    {
        let ghost before = views(r@);
        let rule = all[i];
        assert(rules().take(i + 1).drop_last() =~= rules().take(i as int));
        if let Some(value) = env.get(rule.variable) {
            if let Some(setting) = parse_setting(rule.kind, value) {
                let o = Override { section: rule.section, key: rule.key, setting };
                let ghost ov = o@;
                r.push(o);
                assert(views(r@) =~= before.push(ov));
            }
        }
        i = i + 1;
    }
    assert(rules().take(i as int) =~= rules());
    r
}

// Overriding

/// The TOML string of a text.
pub uninterp spec fn string_value(s: Seq<char>) -> toml::Value;

/// The TOML integer of a number.
pub uninterp spec fn integer_value(n: i64) -> toml::Value;

/// The TOML boolean of a flag.
pub uninterp spec fn boolean_value(b: bool) -> toml::Value;

/// The TOML array of strings of a list of texts.
pub uninterp spec fn array_value(v: Seq<Seq<char>>) -> toml::Value;

/// `toml::Value::String` makes a value that depends on the text alone.
#[verifier::external_body]
fn text_into_value(s: String) -> (r: toml::Value)
    ensures
        r == string_value(s@),
{
    toml::Value::String(s)
}

/// `toml::Value::Integer` makes a value that depends on the number alone.
#[verifier::external_body]
fn integer_into_value(n: i64) -> (r: toml::Value)
    ensures
        r == integer_value(n),
{
    toml::Value::Integer(n)
}

/// `toml::Value::Boolean` makes a value that depends on the flag alone.
#[verifier::external_body]
fn flag_into_value(b: bool) -> (r: toml::Value)
    ensures
        r == boolean_value(b),
{
    toml::Value::Boolean(b)
}

/// `toml::Value::Array`, of the texts as strings, makes a value that depends on
/// the texts and their order alone.
#[verifier::external_body]
fn list_into_value(v: Vec<String>) -> (r: toml::Value)
    ensures
        r == array_value(views(v@)),
{
    toml::Value::Array(v.into_iter().map(toml::Value::String).collect())
}

/// The TOML value of a setting.
pub open spec fn setting_value(s: SettingView) -> toml::Value {
    match s {
        SettingView::Text(t) => string_value(t),
        SettingView::Integer(n) => integer_value(n),
        SettingView::Flag(b) => boolean_value(b),
        SettingView::List(v) => array_value(v),
    }
}

fn into_toml(s: Setting) -> (r: toml::Value)
    ensures
        r == setting_value(s@),
{
    match s {
        Setting::Text(t) => text_into_value(t),
        Setting::Integer(n) => integer_into_value(n),
        Setting::Flag(b) => flag_into_value(b),
        Setting::List(v) => list_into_value(v),
    }
}

/// The table under a name of a file, if that is what is there.
pub open spec fn section_table(t: toml::Table, section: Seq<char>) -> Option<toml::Table> {
    if table_contents(t).dom().contains(section) {
        value_table(table_contents(t)[section])
    } else {
        None
    }
}

/// Whether something that is no table stands under the name.
pub open spec fn is_taken(t: toml::Table, section: Seq<char>) -> bool {
    table_contents(t).dom().contains(section) && value_table(table_contents(t)[section]) is None
}

/// The sections of a file.
pub open spec fn sections(t: toml::Table) -> Set<Seq<char>> {
    Set::new(|n: Seq<char>| section_table(t, n) is Some)
}

/// The entries of a file, by section and key.
pub open spec fn entries(t: toml::Table) -> Map<(Seq<char>, Seq<char>), toml::Value> {
    Map::new(
        |p: (Seq<char>, Seq<char>)|
            section_table(t, p.0) is Some && table_contents(
                section_table(t, p.0)->0,
            ).dom().contains(p.1),
        |p: (Seq<char>, Seq<char>)| table_contents(section_table(t, p.0)->0)[p.1],
    )
}

/// The values of a file that stand outside of the sections.
pub open spec fn loose_values(t: toml::Table) -> Map<Seq<char>, toml::Value> {
    Map::new(|n: Seq<char>| is_taken(t, n), |n: Seq<char>| table_contents(t)[n])
}

/// `e` after the overrides, one after the other.
pub open spec fn overridden(
    e: Map<(Seq<char>, Seq<char>), toml::Value>,
    o: Seq<OverrideView>,
) -> Map<(Seq<char>, Seq<char>), toml::Value>
    decreases o.len(),
{
    if o.len() == 0 {
        e
    } else {
        overridden(e, o.drop_last()).insert(
            (o.last().section, o.last().key),
            setting_value(o.last().setting),
        )
    }
}

/// The sections that the overrides name.
pub open spec fn named_sections(o: Seq<OverrideView>) -> Set<Seq<char>> {
    Set::new(|n: Seq<char>| exists|i: int| 0 <= i < o.len() && (#[trigger] o[i]).section == n)
}

/// `after` is `before` with the overrides put in: their entries have the new
/// values, a section that was missing is there, and all else is as it was.
pub open spec fn overrides_applied(
    before: toml::Table,
    o: Seq<OverrideView>,
    after: toml::Table,
) -> bool {
    &&& entries(after) == overridden(entries(before), o)
    &&& sections(after) == sections(before).union(named_sections(o))
    &&& loose_values(after) == loose_values(before)
}

/// Puts `value` under `key` in a section, which is made where it is missing.
fn set_entry(t: &mut toml::Table, section: &str, key: &str, value: toml::Value)
    requires
        !is_taken(*old(t), section@),
    ensures
        entries(*final(t)) == entries(*old(t)).insert((section@, key@), value),
        sections(*final(t)) == sections(*old(t)).insert(section@),
        loose_values(*final(t)) == loose_values(*old(t)),
{
    let ghost before = *t;
    let mut inner = match table_remove(t, section) {
        Some(v) => match value_into_table(v) {
            Some(inner) => inner,
            None => {
                assert(false);
                table_new()
            },
        },
        None => table_new(),
    };
    table_insert(&mut inner, key, value);
    let v = table_into_value(inner);
    table_insert(t, section, v);
    proof {
        assert(section_table(*t, section@) == Some(inner));
        assert forall|n: Seq<char>| n != section@ implies section_table(*t, n) == section_table(
            before,
            n,
        ) by {}
        assert(entries(*t) =~= entries(before).insert((section@, key@), value));
        assert(sections(*t) =~= sections(before).insert(section@));
        assert(loose_values(*t) =~= loose_values(before));
    }
}

/// Whether a section that one of the overrides names is taken by something that
/// is no table.
pub open spec fn some_section_taken(t: toml::Table, o: Seq<OverrideView>) -> bool {
    exists|i: int| 0 <= i < o.len() && is_taken(t, (#[trigger] o[i]).section)
}

/// Puts the overrides that the environment holds into a configuration file.
pub fn apply_env_overrides(t: &mut toml::Table, env: &EnvVars)
    requires
        !some_section_taken(*old(t), overrides_by(rules(), env@)),
    ensures
        overrides_applied(*old(t), overrides_by(rules(), env@), *final(t)),
{
    let todo = env_overrides(env);
    apply_overrides(t, todo);
}

/// Puts overrides into a configuration file, one after the other.
pub fn apply_overrides(t: &mut toml::Table, todo: Vec<Override>)
    requires
        !some_section_taken(*old(t), views(todo@)),
    ensures
        overrides_applied(*old(t), views(todo@), *final(t)),
{
    let mut todo = todo;
    let ghost before = *t;
    let ghost all = views(todo@);
    let ghost mut n: int = 0;
    assert(sections(*t) =~= sections(before).union(named_sections(all.take(0))));
    while todo.len() > 0
        invariant
            0 <= n <= all.len(),
            views(todo@) =~= all.skip(n),
            !some_section_taken(before, all),
            overrides_applied(before, all.take(n), *t),
        decreases todo@.len(),
    {
        let ghost was = todo@;
        let ghost now = *t;
        let next = todo.remove(0);
        proof {
            assert(views(was) == all.skip(n));
            assert(views(was).len() == was.len());
            assert(next@ == views(was)[0]);
            assert(all.skip(n)[0] == all[n]);
            assert(views(todo@) =~= views(was).remove(0));
            assert(is_taken(before, all[n].section) ==> some_section_taken(before, all));
            assert(loose_values(now).dom().contains(next.section@) == is_taken(
                now,
                next.section@,
            ));
            assert(loose_values(before).dom().contains(next.section@) == is_taken(
                before,
                next.section@,
            ));
        }
        set_entry(t, next.section, next.key, into_toml(next.setting));
        proof {
            let done = all.take(n + 1);
            assert(done.drop_last() =~= all.take(n));
            assert(done.last() == next@);
            assert(named_sections(done) =~= named_sections(all.take(n)).insert(next@.section)) by {
                assert forall|x: Seq<char>| #[trigger]
                    named_sections(done).contains(x) implies named_sections(all.take(n)).insert(
                    next@.section,
                ).contains(x) by {
                    let i = choose|i: int| 0 <= i < done.len() && (#[trigger] done[i]).section == x;
                    if i < n {
                        assert(all.take(n)[i] == done[i]);
                    }
                }
                assert forall|x: Seq<char>| #[trigger]
                    named_sections(all.take(n)).insert(next@.section).contains(
                    x,
                ) implies named_sections(done).contains(x) by {
                    if x == next@.section {
                        assert(done[n].section == x);
                    } else {
                        let i = choose|i: int|
                            0 <= i < n && (#[trigger] all.take(n)[i]).section == x;
                        assert(done[i] == all.take(n)[i]);
                    }
                }
            }
            assert(sections(*t) =~= sections(before).union(named_sections(done)));
            n = n + 1;
        }
    }
    assert(all.take(n) =~= all);
}

fn table_has_other(t: &toml::Table, section: &str) -> (r: bool)
    ensures
        r == is_taken(*t, section@),
{
    match table_get(t, section) {
        Some(v) => !value_is_table(v),
        None => false,
    }
}

/// Why no configuration comes of a file.
#[derive(Debug)]
pub enum LoadError {
    /// A placeholder stands for nothing.
    Expand(ExpandError),
    /// The text is not TOML.
    Parse(toml::de::Error),
    /// An override names a section, but the file has something else there.
    NotASection,
}

/// Whether `r` is what comes of a file when the overrides of the environment are
/// put in.
pub open spec fn is_override_of(
    file: toml::Table,
    env: Map<Seq<char>, Seq<char>>,
    r: Result<toml::Table, LoadError>,
) -> bool {
    if some_section_taken(file, overrides_by(rules(), env)) {
        r == Err::<toml::Table, LoadError>(LoadError::NotASection)
    } else {
        r matches Ok(t) && overrides_applied(file, overrides_by(rules(), env), t)
    }
}

/// Whether `r` is what comes of the text of a configuration file.
pub open spec fn is_loaded(
    raw: Seq<char>,
    env: Map<Seq<char>, Seq<char>>,
    r: Result<toml::Table, LoadError>,
) -> bool {
    match expanded(raw, env) {
        Err(e) => r matches Err(LoadError::Expand(x)) && x@ == e,
        Ok(text) => match toml_parsed(text) {
            Err(e) => r == Err::<toml::Table, LoadError>(LoadError::Parse(e)),
            Ok(file) => is_override_of(file, env, r),
        },
    }
}

/// The configuration file with its placeholders expanded and the overrides of
/// the environment put in.
pub fn load_table(raw: &str, env: &EnvVars) -> (r: Result<toml::Table, LoadError>)
    ensures
        is_loaded(raw@, env@, r),
{
    let text = match expand_env_vars(raw, env) {
        Ok(text) => text,
        Err(e) => return Err(LoadError::Expand(e)),
    };
    let file = match parse_table(text.as_str()) {
        Ok(file) => file,
        Err(e) => return Err(LoadError::Parse(e)),
    };
    override_file(file, env)
}

/// The file with the overrides of the environment put in.
pub fn override_file(file: toml::Table, env: &EnvVars) -> (r: Result<toml::Table, LoadError>)
    ensures
        is_override_of(file, env@, r),
{
    let todo = env_overrides(env);
    let mut i: usize = 0;
    while i < todo.len()
        invariant
            i <= todo@.len(),
            views(todo@) == overrides_by(rules(), env@),
            forall|k: int| 0 <= k < i ==> !is_taken(file, views(todo@)[k].section),
        decreases todo@.len() - i,
    {
        if table_has_other(&file, todo[i].section) {
            assert(is_taken(file, views(todo@)[i as int].section));
            return Err(LoadError::NotASection);
        }
        i = i + 1;
    }
    let mut result = file;
    apply_overrides(&mut result, todo);
    Ok(result)
}

// Laws

/// The place of an entry among the rules.
spec fn place(section: Seq<char>, key: Seq<char>) -> int {
    if section == "server"@ && key == "listen_addr"@ {
        0
    } else if section == "server"@ && key == "listen_port"@ {
        1
    } else if section == "server"@ && key == "max_connections"@ {
        2
    } else if section == "mumble"@ && key == "host"@ {
        3
    } else if section == "mumble"@ && key == "port"@ {
        4
    } else if section == "mumble"@ && key == "accept_invalid_certs"@ {
        5
    } else if section == "webrtc"@ && key == "stun_servers"@ {
        6
    } else if section == "webrtc"@ && key == "udp_port"@ {
        7
    } else if section == "webrtc"@ && key == "public_ip"@ {
        8
    } else if section == "turn"@ && key == "enabled"@ {
        9
    } else if section == "turn"@ && key == "listen_addr"@ {
        10
    } else if section == "turn"@ && key == "public_ip"@ {
        11
    } else if section == "turn"@ && key == "public_host"@ {
        12
    } else if section == "turn"@ && key == "realm"@ {
        13
    } else if section == "turn"@ && key == "tls_cert"@ {
        14
    } else if section == "turn"@ && key == "tls_key"@ {
        15
    } else if section == "turn"@ && key == "port"@ {
        16
    } else if section == "turn"@ && key == "tls_port"@ {
        17
    } else if section == "turn"@ && key == "relay_min_port"@ {
        18
    } else if section == "turn"@ && key == "relay_max_port"@ {
        19
    } else if section == "turn"@ && key == "credential_ttl_secs"@ {
        20
    } else if section == "server"@ && key == "allowed_origins"@ {
        21
    } else {
        -1
    }
}

proof fn lemma_place(i: int)
    requires
        0 <= i < rules().len(),
    ensures
        place(rules()[i].section@, rules()[i].key@) == i,
{
    reveal_strlit("accept_invalid_certs");
    reveal_strlit("allowed_origins");
    reveal_strlit("credential_ttl_secs");
    reveal_strlit("enabled");
    reveal_strlit("host");
    reveal_strlit("listen_addr");
    reveal_strlit("listen_port");
    reveal_strlit("max_connections");
    reveal_strlit("port");
    reveal_strlit("public_host");
    reveal_strlit("public_ip");
    reveal_strlit("realm");
    reveal_strlit("relay_max_port");
    reveal_strlit("relay_min_port");
    reveal_strlit("stun_servers");
    reveal_strlit("tls_cert");
    reveal_strlit("tls_key");
    reveal_strlit("tls_port");
    reveal_strlit("udp_port");
    reveal_strlit("mumble");
    reveal_strlit("server");
    reveal_strlit("turn");
    reveal_strlit("webrtc");
    assert("allowed_origins"@[0] != "max_connections"@[0]);
    assert("enabled"@[0] != "tls_key"@[0]);
    assert("host"@[0] != "port"@[0]);
    assert("listen_addr"@[7] != "listen_port"@[7]);
    assert("listen_addr"@[0] != "public_host"@[0]);
    assert("listen_port"@[0] != "public_host"@[0]);
    assert("relay_max_port"@[7] != "relay_min_port"@[7]);
    assert("tls_cert"@[4] != "tls_port"@[4]);
    assert("tls_cert"@[0] != "udp_port"@[0]);
    assert("tls_port"@[0] != "udp_port"@[0]);
    assert("mumble"@[0] != "server"@[0]);
    assert("mumble"@[0] != "webrtc"@[0]);
    assert("server"@[0] != "webrtc"@[0]);
    assert(rules()[0].section@ == "server"@ && rules()[0].key@ == "listen_addr"@);
    assert(rules()[1].section@ == "server"@ && rules()[1].key@ == "listen_port"@);
    assert(rules()[2].section@ == "server"@ && rules()[2].key@ == "max_connections"@);
    assert(rules()[3].section@ == "mumble"@ && rules()[3].key@ == "host"@);
    assert(rules()[4].section@ == "mumble"@ && rules()[4].key@ == "port"@);
    assert(rules()[5].section@ == "mumble"@ && rules()[5].key@ == "accept_invalid_certs"@);
    assert(rules()[6].section@ == "webrtc"@ && rules()[6].key@ == "stun_servers"@);
    assert(rules()[7].section@ == "webrtc"@ && rules()[7].key@ == "udp_port"@);
    assert(rules()[8].section@ == "webrtc"@ && rules()[8].key@ == "public_ip"@);
    assert(rules()[9].section@ == "turn"@ && rules()[9].key@ == "enabled"@);
    assert(rules()[10].section@ == "turn"@ && rules()[10].key@ == "listen_addr"@);
    assert(rules()[11].section@ == "turn"@ && rules()[11].key@ == "public_ip"@);
    assert(rules()[12].section@ == "turn"@ && rules()[12].key@ == "public_host"@);
    assert(rules()[13].section@ == "turn"@ && rules()[13].key@ == "realm"@);
    assert(rules()[14].section@ == "turn"@ && rules()[14].key@ == "tls_cert"@);
    assert(rules()[15].section@ == "turn"@ && rules()[15].key@ == "tls_key"@);
    assert(rules()[16].section@ == "turn"@ && rules()[16].key@ == "port"@);
    assert(rules()[17].section@ == "turn"@ && rules()[17].key@ == "tls_port"@);
    assert(rules()[18].section@ == "turn"@ && rules()[18].key@ == "relay_min_port"@);
    assert(rules()[19].section@ == "turn"@ && rules()[19].key@ == "relay_max_port"@);
    assert(rules()[20].section@ == "turn"@ && rules()[20].key@ == "credential_ttl_secs"@);
    assert(rules()[21].section@ == "server"@ && rules()[21].key@ == "allowed_origins"@);
}

/// No two variables override the same entry.
proof fn lemma_rules_distinct(i: int, j: int)
    requires
        0 <= i < j < rules().len(),
    ensures
        (rules()[i].section@, rules()[i].key@) != (rules()[j].section@, rules()[j].key@),
{
    lemma_place(i);
    lemma_place(j);
}

/// What the overrides of `r` make of the entry `p`.
proof fn lemma_overridden(
    r: Seq<OverrideRule>,
    env: Map<Seq<char>, Seq<char>>,
    e: Map<(Seq<char>, Seq<char>), toml::Value>,
    p: (Seq<char>, Seq<char>),
)
    requires
        forall|i: int, j: int|
            #![trigger r[i], r[j]]
            0 <= i < j < r.len() ==> (r[i].section@, r[i].key@) != (r[j].section@, r[j].key@),
    ensures
        forall|i: int|
            #![trigger r[i]]
            0 <= i < r.len() && (r[i].section@, r[i].key@) == p && rule_setting(r[i], env) is Some
                ==> overridden(e, overrides_by(r, env)).dom().contains(p) && overridden(
                e,
                overrides_by(r, env),
            )[p] == setting_value(rule_setting(r[i], env)->0),
        (forall|i: int|
            #![trigger r[i]]
            0 <= i < r.len() && (r[i].section@, r[i].key@) == p ==> rule_setting(r[i], env) is None)
            ==> overridden(e, overrides_by(r, env)).dom().contains(p) == e.dom().contains(p)
            && overridden(e, overrides_by(r, env))[p] == e[p],
    decreases r.len(),
{
    if r.len() > 0 {
        let before = r.drop_last();
        assert forall|i: int, j: int|
            #![trigger before[i], before[j]]
            0 <= i < j < before.len() implies (before[i].section@, before[i].key@) != (
            before[j].section@,
            before[j].key@,
        ) by {
            assert(before[i] == r[i] && before[j] == r[j]);
        }
        lemma_overridden(before, env, e, p);
        let o = overrides_by(r, env);
        if rule_setting(r.last(), env) is Some {
            assert(o.drop_last() =~= overrides_by(before, env));
        }
        assert forall|i: int|
            #![trigger r[i]]
            0 <= i < r.len() && (r[i].section@, r[i].key@) == p && rule_setting(
                r[i],
                env,
            ) is Some implies overridden(e, o).dom().contains(p) && overridden(e, o)[p]
            == setting_value(rule_setting(r[i], env)->0) by {
            if i < before.len() {
                assert(before[i] == r[i]);
                assert((r[i].section@, r[i].key@) != (
                    r[r.len() - 1].section@,
                    r[r.len() - 1].key@,
                ));
            }
        }
        if forall|i: int|
            #![trigger r[i]]
            0 <= i < r.len() && (r[i].section@, r[i].key@) == p ==> rule_setting(
                r[i],
                env,
            ) is None {
            assert forall|i: int|
                #![trigger before[i]]
                0 <= i < before.len() && (before[i].section@, before[i].key@)
                    == p implies rule_setting(before[i], env) is None by {
                assert(before[i] == r[i]);
            }
            assert(r[r.len() - 1] == r.last());
        }
    }
}

/// A variable that is set and can be read wins over the file: the entry has the
/// variable's value, whatever the file says there.
pub proof fn law_variable_wins(
    i: int,
    env: Map<Seq<char>, Seq<char>>,
    before: toml::Table,
    after: toml::Table,
)
    requires
        0 <= i < rules().len(),
        rule_setting(rules()[i], env) is Some,
        overrides_applied(before, overrides_by(rules(), env), after),
    ensures
        entries(after).dom().contains((rules()[i].section@, rules()[i].key@)),
        entries(after)[(rules()[i].section@, rules()[i].key@)] == setting_value(
            rule_setting(rules()[i], env)->0,
        ),
{
    assert forall|a: int, b: int|
        #![trigger rules()[a], rules()[b]]
        0 <= a < b < rules().len() implies (rules()[a].section@, rules()[a].key@) != (
        rules()[b].section@,
        rules()[b].key@,
    ) by {
        lemma_rules_distinct(a, b);
    }
    lemma_overridden(
        rules(),
        env,
        entries(before),
        (rules()[i].section@, rules()[i].key@),
    );
}

/// An entry that no variable sets is what the file says.
pub proof fn law_file_stands(
    section: Seq<char>,
    key: Seq<char>,
    env: Map<Seq<char>, Seq<char>>,
    before: toml::Table,
    after: toml::Table,
)
    requires
        overrides_applied(before, overrides_by(rules(), env), after),
        forall|i: int|
            0 <= i < rules().len() && (#[trigger] rules()[i]).section@ == section
                && rules()[i].key@ == key ==> rule_setting(rules()[i], env) is None,
    ensures
        entries(after).dom().contains((section, key)) == entries(before).dom().contains(
            (section, key),
        ),
        entries(after)[(section, key)] == entries(before)[(section, key)],
{
    assert forall|a: int, b: int|
        #![trigger rules()[a], rules()[b]]
        0 <= a < b < rules().len() implies (rules()[a].section@, rules()[a].key@) != (
        rules()[b].section@,
        rules()[b].key@,
    ) by {
        lemma_rules_distinct(a, b);
    }
    lemma_overridden(rules(), env, entries(before), (section, key));
}

/// `s` with its small ASCII letters replaced by capitals.
pub open spec fn uppered(s: Seq<char>) -> Seq<char> {
    s.map_values(
        |c: char|
            if 97 <= c as int <= 122 {
                (c as int - 32) as char
            } else {
                c
            },
    )
}

/// Every variable is named after the entry that it overrides: `MUMDOTA_`, the
/// section and the key, in capitals.
pub proof fn law_variables_are_named_after_their_entries(i: int)
    requires
        0 <= i < rules().len(),
    ensures
        rules()[i].variable@ == "MUMDOTA_"@ + uppered(rules()[i].section@) + "_"@ + uppered(
            rules()[i].key@,
        ),
{
    reveal_strlit("MUMDOTA_");
    reveal_strlit("_");
    assert(i == 0 ==> rules()[i].variable@ =~= "MUMDOTA_"@ + uppered(rules()[i].section@) + "_"@
        + uppered(rules()[i].key@)) by {
        reveal_strlit("MUMDOTA_SERVER_LISTEN_ADDR");
        reveal_strlit("server");
        reveal_strlit("listen_addr");
    }
    assert(i == 1 ==> rules()[i].variable@ =~= "MUMDOTA_"@ + uppered(rules()[i].section@) + "_"@
        + uppered(rules()[i].key@)) by {
        reveal_strlit("MUMDOTA_SERVER_LISTEN_PORT");
        reveal_strlit("server");
        reveal_strlit("listen_port");
    }
    assert(i == 2 ==> rules()[i].variable@ =~= "MUMDOTA_"@ + uppered(rules()[i].section@) + "_"@
        + uppered(rules()[i].key@)) by {
        reveal_strlit("MUMDOTA_SERVER_MAX_CONNECTIONS");
        reveal_strlit("server");
        reveal_strlit("max_connections");
    }
    assert(i == 3 ==> rules()[i].variable@ =~= "MUMDOTA_"@ + uppered(rules()[i].section@) + "_"@
        + uppered(rules()[i].key@)) by {
        reveal_strlit("MUMDOTA_MUMBLE_HOST");
        reveal_strlit("mumble");
        reveal_strlit("host");
    }
    assert(i == 4 ==> rules()[i].variable@ =~= "MUMDOTA_"@ + uppered(rules()[i].section@) + "_"@
        + uppered(rules()[i].key@)) by {
        reveal_strlit("MUMDOTA_MUMBLE_PORT");
        reveal_strlit("mumble");
        reveal_strlit("port");
    }
    assert(i == 5 ==> rules()[i].variable@ =~= "MUMDOTA_"@ + uppered(rules()[i].section@) + "_"@
        + uppered(rules()[i].key@)) by {
        reveal_strlit("MUMDOTA_MUMBLE_ACCEPT_INVALID_CERTS");
        reveal_strlit("mumble");
        reveal_strlit("accept_invalid_certs");
    }
    assert(i == 6 ==> rules()[i].variable@ =~= "MUMDOTA_"@ + uppered(rules()[i].section@) + "_"@
        + uppered(rules()[i].key@)) by {
        reveal_strlit("MUMDOTA_WEBRTC_STUN_SERVERS");
        reveal_strlit("webrtc");
        reveal_strlit("stun_servers");
    }
    assert(i == 7 ==> rules()[i].variable@ =~= "MUMDOTA_"@ + uppered(rules()[i].section@) + "_"@
        + uppered(rules()[i].key@)) by {
        reveal_strlit("MUMDOTA_WEBRTC_UDP_PORT");
        reveal_strlit("webrtc");
        reveal_strlit("udp_port");
    }
    assert(i == 8 ==> rules()[i].variable@ =~= "MUMDOTA_"@ + uppered(rules()[i].section@) + "_"@
        + uppered(rules()[i].key@)) by {
        reveal_strlit("MUMDOTA_WEBRTC_PUBLIC_IP");
        reveal_strlit("webrtc");
        reveal_strlit("public_ip");
    }
    assert(i == 9 ==> rules()[i].variable@ =~= "MUMDOTA_"@ + uppered(rules()[i].section@) + "_"@
        + uppered(rules()[i].key@)) by {
        reveal_strlit("MUMDOTA_TURN_ENABLED");
        reveal_strlit("turn");
        reveal_strlit("enabled");
    }
    assert(i == 10 ==> rules()[i].variable@ =~= "MUMDOTA_"@ + uppered(rules()[i].section@) + "_"@
        + uppered(rules()[i].key@)) by {
        reveal_strlit("MUMDOTA_TURN_LISTEN_ADDR");
        reveal_strlit("turn");
        reveal_strlit("listen_addr");
    }
    assert(i == 11 ==> rules()[i].variable@ =~= "MUMDOTA_"@ + uppered(rules()[i].section@) + "_"@
        + uppered(rules()[i].key@)) by {
        reveal_strlit("MUMDOTA_TURN_PUBLIC_IP");
        reveal_strlit("turn");
        reveal_strlit("public_ip");
    }
    assert(i == 12 ==> rules()[i].variable@ =~= "MUMDOTA_"@ + uppered(rules()[i].section@) + "_"@
        + uppered(rules()[i].key@)) by {
        reveal_strlit("MUMDOTA_TURN_PUBLIC_HOST");
        reveal_strlit("turn");
        reveal_strlit("public_host");
    }
    assert(i == 13 ==> rules()[i].variable@ =~= "MUMDOTA_"@ + uppered(rules()[i].section@) + "_"@
        + uppered(rules()[i].key@)) by {
        reveal_strlit("MUMDOTA_TURN_REALM");
        reveal_strlit("turn");
        reveal_strlit("realm");
    }
    assert(i == 14 ==> rules()[i].variable@ =~= "MUMDOTA_"@ + uppered(rules()[i].section@) + "_"@
        + uppered(rules()[i].key@)) by {
        reveal_strlit("MUMDOTA_TURN_TLS_CERT");
        reveal_strlit("turn");
        reveal_strlit("tls_cert");
    }
    assert(i == 15 ==> rules()[i].variable@ =~= "MUMDOTA_"@ + uppered(rules()[i].section@) + "_"@
        + uppered(rules()[i].key@)) by {
        reveal_strlit("MUMDOTA_TURN_TLS_KEY");
        reveal_strlit("turn");
        reveal_strlit("tls_key");
    }
    assert(i == 16 ==> rules()[i].variable@ =~= "MUMDOTA_"@ + uppered(rules()[i].section@) + "_"@
        + uppered(rules()[i].key@)) by {
        reveal_strlit("MUMDOTA_TURN_PORT");
        reveal_strlit("turn");
        reveal_strlit("port");
    }
    assert(i == 17 ==> rules()[i].variable@ =~= "MUMDOTA_"@ + uppered(rules()[i].section@) + "_"@
        + uppered(rules()[i].key@)) by {
        reveal_strlit("MUMDOTA_TURN_TLS_PORT");
        reveal_strlit("turn");
        reveal_strlit("tls_port");
    }
    assert(i == 18 ==> rules()[i].variable@ =~= "MUMDOTA_"@ + uppered(rules()[i].section@) + "_"@
        + uppered(rules()[i].key@)) by {
        reveal_strlit("MUMDOTA_TURN_RELAY_MIN_PORT");
        reveal_strlit("turn");
        reveal_strlit("relay_min_port");
    }
    assert(i == 19 ==> rules()[i].variable@ =~= "MUMDOTA_"@ + uppered(rules()[i].section@) + "_"@
        + uppered(rules()[i].key@)) by {
        reveal_strlit("MUMDOTA_TURN_RELAY_MAX_PORT");
        reveal_strlit("turn");
        reveal_strlit("relay_max_port");
    }
    assert(i == 20 ==> rules()[i].variable@ =~= "MUMDOTA_"@ + uppered(rules()[i].section@) + "_"@
        + uppered(rules()[i].key@)) by {
        reveal_strlit("MUMDOTA_TURN_CREDENTIAL_TTL_SECS");
        reveal_strlit("turn");
        reveal_strlit("credential_ttl_secs");
    }
    assert(i == 21 ==> rules()[i].variable@ =~= "MUMDOTA_"@ + uppered(rules()[i].section@) + "_"@
        + uppered(rules()[i].key@)) by {
        reveal_strlit("MUMDOTA_SERVER_ALLOWED_ORIGINS");
        reveal_strlit("server");
        reveal_strlit("allowed_origins");
    }
}

/// Whether a variable overrides the entry and is read in this way.
pub open spec fn has_variable(section: Seq<char>, key: Seq<char>, kind: Kind) -> bool {
    exists|i: int|
        0 <= i < rules().len() && (#[trigger] rules()[i]).section@ == section && rules()[i].key@
            == key && rules()[i].kind == kind
}

/// Every entry of the file has its variable, and only one: addresses, names and
/// paths are read as they stand, ports, counts and times as numbers, switches as
/// yes or no, and lists as lists.
pub proof fn law_every_entry_has_its_variable(i: int, j: int)
    ensures
        rules().len() == 22,
        0 <= i < j < rules().len() ==> (rules()[i].section@, rules()[i].key@) != (
            rules()[j].section@,
            rules()[j].key@,
        ),
        has_variable("server"@, "listen_addr"@, Kind::Text),
        has_variable("server"@, "listen_port"@, Kind::Integer),
        has_variable("server"@, "max_connections"@, Kind::Integer),
        has_variable("mumble"@, "host"@, Kind::Text),
        has_variable("mumble"@, "port"@, Kind::Integer),
        has_variable("mumble"@, "accept_invalid_certs"@, Kind::Flag),
        has_variable("webrtc"@, "stun_servers"@, Kind::List),
        has_variable("webrtc"@, "udp_port"@, Kind::Integer),
        has_variable("webrtc"@, "public_ip"@, Kind::Text),
        has_variable("turn"@, "enabled"@, Kind::Flag),
        has_variable("turn"@, "listen_addr"@, Kind::Text),
        has_variable("turn"@, "public_ip"@, Kind::Text),
        has_variable("turn"@, "public_host"@, Kind::Text),
        has_variable("turn"@, "realm"@, Kind::Text),
        has_variable("turn"@, "tls_cert"@, Kind::Text),
        has_variable("turn"@, "tls_key"@, Kind::Text),
        has_variable("turn"@, "port"@, Kind::Integer),
        has_variable("turn"@, "tls_port"@, Kind::Integer),
        has_variable("turn"@, "relay_min_port"@, Kind::Integer),
        has_variable("turn"@, "relay_max_port"@, Kind::Integer),
        has_variable("turn"@, "credential_ttl_secs"@, Kind::Integer),
        has_variable("server"@, "allowed_origins"@, Kind::NonEmptyList),
{
    assert(rules()[0].section@ == "server"@ && rules()[0].key@ == "listen_addr"@);
    assert(rules()[1].section@ == "server"@ && rules()[1].key@ == "listen_port"@);
    assert(rules()[2].section@ == "server"@ && rules()[2].key@ == "max_connections"@);
    assert(rules()[3].section@ == "mumble"@ && rules()[3].key@ == "host"@);
    assert(rules()[4].section@ == "mumble"@ && rules()[4].key@ == "port"@);
    assert(rules()[5].section@ == "mumble"@ && rules()[5].key@ == "accept_invalid_certs"@);
    assert(rules()[6].section@ == "webrtc"@ && rules()[6].key@ == "stun_servers"@);
    assert(rules()[7].section@ == "webrtc"@ && rules()[7].key@ == "udp_port"@);
    assert(rules()[8].section@ == "webrtc"@ && rules()[8].key@ == "public_ip"@);
    assert(rules()[9].section@ == "turn"@ && rules()[9].key@ == "enabled"@);
    assert(rules()[10].section@ == "turn"@ && rules()[10].key@ == "listen_addr"@);
    assert(rules()[11].section@ == "turn"@ && rules()[11].key@ == "public_ip"@);
    assert(rules()[12].section@ == "turn"@ && rules()[12].key@ == "public_host"@);
    assert(rules()[13].section@ == "turn"@ && rules()[13].key@ == "realm"@);
    assert(rules()[14].section@ == "turn"@ && rules()[14].key@ == "tls_cert"@);
    assert(rules()[15].section@ == "turn"@ && rules()[15].key@ == "tls_key"@);
    assert(rules()[16].section@ == "turn"@ && rules()[16].key@ == "port"@);
    assert(rules()[17].section@ == "turn"@ && rules()[17].key@ == "tls_port"@);
    assert(rules()[18].section@ == "turn"@ && rules()[18].key@ == "relay_min_port"@);
    assert(rules()[19].section@ == "turn"@ && rules()[19].key@ == "relay_max_port"@);
    assert(rules()[20].section@ == "turn"@ && rules()[20].key@ == "credential_ttl_secs"@);
    assert(rules()[21].section@ == "server"@ && rules()[21].key@ == "allowed_origins"@);
    if 0 <= i < j < rules().len() {
        lemma_rules_distinct(i, j);
    }
}

/// A flag is yes for `1`, `true` and `yes`, in any case, and no for every other
/// value.
pub proof fn law_three_words_mean_yes(value: Seq<char>)
    ensures
        setting_of(Kind::Flag, value) == Some(
            SettingView::Flag(
                lowercase(value) == seq!['1'] || lowercase(value) == seq!['t', 'r', 'u', 'e']
                    || lowercase(value) == seq!['y', 'e', 's'],
            ),
        ),
{
    reveal_strlit("1");
    reveal_strlit("true");
    reveal_strlit("yes");
    assert("1"@ =~= seq!['1']);
    assert("true"@ =~= seq!['t', 'r', 'u', 'e']);
    assert("yes"@ =~= seq!['y', 'e', 's']);
}

/// A text is taken as it stands and a number as the integer that it denotes; a
/// number that cannot be read sets nothing, and everything else sets something.
pub proof fn law_texts_and_numbers_are_taken(kind: Kind, value: Seq<char>)
    ensures
        setting_of(Kind::Text, value) == Some(SettingView::Text(value)),
        setting_of(Kind::Integer, value) is None <==> parsed_i64(value) is None,
        parsed_i64(value) matches Some(n) ==> setting_of(Kind::Integer, value) == Some(
            SettingView::Integer(n),
        ),
        !(kind is Integer) ==> setting_of(kind, value) is Some,
{
}

proof fn lemma_pieces_plain(p: Seq<char>, sep: char)
    requires
        !p.contains(sep),
    ensures
        pieces(p, sep) == seq![p],
    decreases p.len(),
{
    if p.len() == 0 {
        assert(p =~= Seq::<char>::empty());
    } else {
        let rest = p.drop_last();
        assert forall|i: int| 0 <= i < rest.len() implies rest[i] != sep by {
            assert(p[i] == rest[i]);
        }
        assert(p[p.len() - 1] != sep);
        lemma_pieces_plain(rest, sep);
        assert(rest.push(p.last()) =~= p);
        assert(pieces(p, sep) =~= seq![p]);
    }
}

proof fn lemma_pieces_one_more(s: Seq<char>, p: Seq<char>, sep: char)
    requires
        !p.contains(sep),
    ensures
        pieces(s.push(sep) + p, sep) == pieces(s, sep).push(p),
    decreases p.len(),
{
    let all = s.push(sep) + p;
    if p.len() == 0 {
        assert(all =~= s.push(sep));
        assert(all.drop_last() =~= s);
        assert(p =~= Seq::<char>::empty());
    } else {
        let rest = p.drop_last();
        assert forall|i: int| 0 <= i < rest.len() implies rest[i] != sep by {
            assert(p[i] == rest[i]);
        }
        assert(p[p.len() - 1] != sep);
        lemma_pieces_one_more(s, rest, sep);
        assert(all.drop_last() =~= s.push(sep) + rest);
        assert(all.last() == p.last());
        assert(rest.push(p.last()) =~= p);
        assert(pieces(all, sep) =~= pieces(s, sep).push(p));
    }
}

proof fn lemma_pieces_of_joined(parts: Seq<Seq<char>>, sep: char)
    requires
        parts.len() > 0,
        forall|i: int| 0 <= i < parts.len() ==> !(#[trigger] parts[i]).contains(sep),
    ensures
        pieces(joined(parts, sep), sep) == parts,
    decreases parts.len(),
{
    if parts.len() == 1 {
        assert(!parts[0].contains(sep));
        lemma_pieces_plain(parts[0], sep);
        assert(parts =~= seq![parts[0]]);
    } else {
        let rest = parts.drop_last();
        assert forall|i: int| 0 <= i < rest.len() implies !(#[trigger] rest[i]).contains(sep) by {
            assert(parts[i] == rest[i]);
        }
        assert(!parts[parts.len() - 1].contains(sep));
        lemma_pieces_of_joined(rest, sep);
        lemma_pieces_one_more(joined(rest, sep), parts.last(), sep);
        assert(rest.push(parts.last()) =~= parts);
    }
}

/// A list is what stands between the commas: texts without commas and without
/// white space at their ends, written with commas between them, are read back in
/// order, and where empty texts do not count, without those.
pub proof fn law_lists_read_back(parts: Seq<Seq<char>>)
    requires
        parts.len() > 0,
        forall|i: int|
            0 <= i < parts.len() ==> !(#[trigger] parts[i]).contains(',') && (parts[i].len() > 0
                ==> !is_space(parts[i][0]) && !is_space(parts[i].last())),
    ensures
        setting_of(Kind::List, joined(parts, ',')) == Some(SettingView::List(parts)),
        setting_of(Kind::NonEmptyList, joined(parts, ',')) == Some(
            SettingView::List(parts.filter(|p: Seq<char>| p.len() > 0)),
        ),
{
    lemma_pieces_of_joined(parts, ',');
    assert(trimmed_pieces(joined(parts, ',')) =~= parts);
    assert(not_empty() =~= |p: Seq<char>| p.len() > 0);
}

/// White space around the texts of a list does not count.
pub proof fn law_lists_are_trimmed(value: Seq<char>, i: int)
    requires
        0 <= i < pieces(value, ',').len(),
    ensures
        setting_of(Kind::List, value) matches Some(SettingView::List(list)) && list.len() == pieces(
            value,
            ',',
        ).len() && list[i] == trimmed(pieces(value, ',')[i]),
{
}

/// What a variable does to the file: a text, number, flag or list that can be
/// read is put under the variable's entry as such, and a variable that is not
/// set, or is no number where one is due, leaves the entry as it is.
pub proof fn law_variable_sets_its_entry(
    i: int,
    env: Map<Seq<char>, Seq<char>>,
    before: toml::Table,
    after: toml::Table,
)
    requires
        0 <= i < rules().len(),
        overrides_applied(before, overrides_by(rules(), env), after),
    ensures
        ({
            let r = rules()[i];
            let at = (r.section@, r.key@);
            let value = env[r.variable@];
            let set = env.dom().contains(r.variable@);
            &&& set && r.kind is Text ==> entries(after)[at] == string_value(value)
            &&& set && r.kind is Integer && parsed_i64(value) is Some ==> entries(after)[at]
                == integer_value(parsed_i64(value)->0)
            &&& set && r.kind is Flag ==> entries(after)[at] == boolean_value(
                is_yes(lowercase(value)),
            )
            &&& set && r.kind is List ==> entries(after)[at] == array_value(trimmed_pieces(value))
            &&& set && r.kind is NonEmptyList ==> entries(after)[at] == array_value(
                trimmed_pieces(value).filter(not_empty()),
            )
            &&& set && !(r.kind is Integer && parsed_i64(value) is None) ==> entries(
                after,
            ).dom().contains(at)
            &&& !set || r.kind is Integer && parsed_i64(value) is None ==> entries(
                after,
            ).dom().contains(at) == entries(before).dom().contains(at) && entries(after)[at]
                == entries(before)[at]
        }),
{
    let r = rules()[i];
    if rule_setting(r, env) is Some {
        law_variable_wins(i, env, before, after);
    } else {
        assert forall|k: int|
            0 <= k < rules().len() && (#[trigger] rules()[k]).section@ == r.section@
                && rules()[k].key@ == r.key@ implies rule_setting(rules()[k], env) is None by {
            if k < i {
                lemma_rules_distinct(k, i);
            } else if i < k {
                lemma_rules_distinct(i, k);
            }
        }
        law_file_stands(r.section@, r.key@, env, before, after);
    }
}

/// What overrides do not name stays: values outside of the sections, and every
/// section; the only new sections are those that an override names.
pub proof fn law_overrides_touch_nothing_else(
    before: toml::Table,
    o: Seq<OverrideView>,
    after: toml::Table,
    section: Seq<char>,
)
    requires
        overrides_applied(before, o, after),
    ensures
        section_table(before, section) is Some ==> section_table(after, section) is Some,
        section_table(after, section) is Some && section_table(before, section) is None
            ==> exists|i: int| 0 <= i < o.len() && (#[trigger] o[i]).section == section,
        table_contents(before).dom().contains(section) && value_table(
            table_contents(before)[section],
        ) is None ==> table_contents(after).dom().contains(section) && table_contents(
            after,
        )[section] == table_contents(before)[section],
{
    assert(sections(before).contains(section) == section_table(before, section) is Some);
    assert(sections(after).contains(section) == section_table(after, section) is Some);
    assert(loose_values(before).dom().contains(section) == is_taken(before, section));
    assert(loose_values(after).dom().contains(section) == is_taken(after, section));
    if is_taken(before, section) {
        assert(loose_values(after)[section] == loose_values(before)[section]);
    }
}

/// A file comes out with the overrides put in exactly where its placeholders can
/// be expanded, the text is then TOML, and no value stands where an override needs
/// a section. Of several obstacles the first in this order is told.
pub proof fn law_files_load_unless_something_is_wrong(
    raw: Seq<char>,
    env: Map<Seq<char>, Seq<char>>,
    r: Result<toml::Table, LoadError>,
)
    requires
        is_loaded(raw, env, r),
    ensures
        r is Ok <==> (expanded(raw, env) matches Ok(text) && (toml_parsed(text) matches Ok(file)
            && forall|i: int|
            0 <= i < overrides_by(rules(), env).len() ==> !is_taken(
                file,
                (#[trigger] overrides_by(rules(), env)[i]).section,
            ))),
        r matches Ok(t) ==> overrides_applied(
            toml_parsed(expanded(raw, env)->Ok_0)->Ok_0,
            overrides_by(rules(), env),
            t,
        ),
        expanded(raw, env) matches Err(e) ==> (r matches Err(LoadError::Expand(x)) && x@ == e),
        expanded(raw, env) matches Ok(text) ==> (toml_parsed(text) matches Err(e) ==> r == Err::<
            toml::Table,
            LoadError,
        >(LoadError::Parse(e))),
        expanded(raw, env) matches Ok(text) ==> (toml_parsed(text) is Ok && r is Err ==> (
        r matches Err(e) && e is NotASection)),
{
}

/// An environment without overrides leaves a file without placeholders as it is:
/// its sections, its entries and its other values.
pub proof fn law_file_without_variables_stays(
    raw: Seq<char>,
    file: toml::Table,
    r: Result<toml::Table, LoadError>,
)
    requires
        is_loaded(raw, Map::empty(), r),
        forall|i: int| 0 <= i < raw.len() - 1 ==> !(#[trigger] raw[i] == '$' && raw[i + 1] == '{'),
        toml_parsed(raw) == Ok::<toml::Table, toml::de::Error>(file),
    ensures
        r matches Ok(t) && entries(t) == entries(file) && sections(t) == sections(file)
            && loose_values(t) == loose_values(file),
{
    law_text_without_placeholders_stays(raw, Map::empty());
    lemma_no_overrides(rules());
    let o = overrides_by(rules(), Map::empty());
    assert(named_sections(o) =~= Set::empty());
    assert(sections(file).union(named_sections(o)) =~= sections(file));
}

proof fn lemma_no_overrides(r: Seq<OverrideRule>)
    ensures
        overrides_by(r, Map::empty()).len() == 0,
    decreases r.len(),
{
    if r.len() > 0 {
        lemma_no_overrides(r.drop_last());
    }
}

} // verus!
