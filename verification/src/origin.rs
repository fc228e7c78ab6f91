//! Origins: the relays that the command line front-end knows, each with the
//! address of its admin endpoint and the token to present there.

use crate::text::{eq_ignore_ascii_case, same_ignoring_ascii_case, str_eq};
use crate::types::copy_opt_string;
use vstd::prelude::*;
use vstd::string::StringExecFns;

verus! {

/// How an origin is run.
#[derive(Debug, Clone, Copy, PartialEq, Eq, Structural)]
pub enum OriginKind {
    /// A relay that the user runs; the front-end talks to it directly.
    Server,
    /// A hosted relay; reserved.
    Service,
}

impl OriginKind {
    /// The name of this kind.
    pub open spec fn name(self) -> Seq<char> {
        match self {
            OriginKind::Server => "server"@,
            OriginKind::Service => "service"@,
        }
    }

    /// The kind that `text` names, in any case.
    pub open spec fn named(text: Seq<char>) -> Option<OriginKind> {
        if same_ignoring_ascii_case(text, "server"@) {
            Some(OriginKind::Server)
        } else if same_ignoring_ascii_case(text, "service"@) {
            Some(OriginKind::Service)
        } else {
            None
        }
    }

    /// The name of this kind.
    pub fn as_str(&self) -> (s: &'static str)
        ensures
            s@ == self.name(),
    {
        match self {
            OriginKind::Server => "server",
            OriginKind::Service => "service",
        }
    }

    /// Reads a kind from its name, in any case.
    pub fn from_str(s: &str) -> (res: Result<OriginKind, OriginError>)
        ensures
            match res {
                Ok(kind) => OriginKind::named(s@) == Some(kind),
                Err(e) => OriginKind::named(s@) is None && e.is_invalid_kind(s@),
            },
    {
        if eq_ignore_ascii_case(s, "server") {
            Ok(OriginKind::Server)
        } else if eq_ignore_ascii_case(s, "service") {
            Ok(OriginKind::Service)
        } else {
            Err(OriginError::InvalidKind(s.to_owned()))
        }
    }
}

/// Why a change to an origin is refused.
#[derive(Debug, Clone, PartialEq, Eq)]
pub enum OriginError {
    /// The key is none of the keys of an origin.
    UnknownKey(String),
    /// The value for `kind` names no kind.
    InvalidKind(String),
}

impl OriginError {
    /// Whether this says that `key` is no key.
    pub open spec fn is_unknown_key(self, key: Seq<char>) -> bool {
        match self {
            OriginError::UnknownKey(k) => k@ == key,
            _ => false,
        }
    }

    /// Whether this says that `value` names no kind.
    pub open spec fn is_invalid_kind(self, value: Seq<char>) -> bool {
        match self {
            OriginError::InvalidKind(v) => v@ == value,
            _ => false,
        }
    }

    /// The text of this error.
    pub open spec fn text(self) -> Seq<char> {
        match self {
            OriginError::UnknownKey(key) => "Unknown key '"@ + key@
                + "'. Valid keys: url, token, kind, relay_url"@,
            OriginError::InvalidKind(value) => "Invalid kind: "@ + value@
                + ". Must be 'server' or 'service'"@,
        }
    }

    /// This error as a line of text.
    pub fn message(&self) -> (s: String)
        ensures
            s@ == self.text(),
    {
        match self {
            OriginError::UnknownKey(key) => "Unknown key '".to_owned().concat(key.as_str()).concat(
                "'. Valid keys: url, token, kind, relay_url",
            ),
            OriginError::InvalidKind(value) => "Invalid kind: ".to_owned().concat(
                value.as_str(),
            ).concat(". Must be 'server' or 'service'"),
        }
    }
}

/// What the front-end remembers between runs.
#[derive(Debug, Clone, PartialEq, Eq)]
pub struct Config {
    pub default_origin: Option<String>,
}

impl Default for Config {
    fn default() -> (config: Self)
        ensures
            config.default_origin is None,
    {
        Self { default_origin: None }
    }
}

/// One origin.
#[derive(Debug, Clone, PartialEq, Eq)]
pub struct Origin {
    pub id: String,
    pub kind: OriginKind,
    pub url: String,
    pub token: String,
    pub relay_url: Option<String>,
}

/// The keys of an origin that can be read and set.
#[derive(Debug, Clone, Copy, PartialEq, Eq, Structural)]
pub enum OriginKey {
    Url,
    Token,
    Kind,
    RelayUrl,
}

impl OriginKey {
    /// The key that `text` names.
    pub open spec fn named(text: Seq<char>) -> Option<OriginKey> {
        if text == "url"@ {
            Some(OriginKey::Url)
        } else if text == "token"@ {
            Some(OriginKey::Token)
        } else if text == "kind"@ {
            Some(OriginKey::Kind)
        } else if text == "relay_url"@ {
            Some(OriginKey::RelayUrl)
        } else {
            None
        }
    }

    /// Reads a key from its name.
    pub fn parse(text: &str) -> (res: Result<OriginKey, OriginError>)
        ensures
            match res {
                Ok(key) => OriginKey::named(text@) == Some(key),
                Err(e) => OriginKey::named(text@) is None && e.is_unknown_key(text@),
            },
    {
        if str_eq(text, "url") {
            Ok(OriginKey::Url)
        } else if str_eq(text, "token") {
            Ok(OriginKey::Token)
        } else if str_eq(text, "kind") {
            Ok(OriginKey::Kind)
        } else if str_eq(text, "relay_url") {
            Ok(OriginKey::RelayUrl)
        } else {
            Err(OriginError::UnknownKey(text.to_owned()))
        }
    }
}

/// The value of `key` in `origin`, as text. An origin without a relay
/// address of its own shows an empty text for it.
pub open spec fn value_of(origin: Origin, key: OriginKey) -> Seq<char> {
    match key {
        OriginKey::Url => origin.url@,
        OriginKey::Token => origin.token@,
        OriginKey::Kind => origin.kind.name(),
        OriginKey::RelayUrl => match origin.relay_url {
            Some(url) => url@,
            None => Seq::empty(),
        },
    }
}

/// Reads the value of `key` in `origin`.
pub fn get_origin(origin: &Origin, key: &str) -> (res: Result<String, OriginError>)
    ensures
        match res {
            Ok(value) => match OriginKey::named(key@) {
                Some(k) => value@ == value_of(*origin, k),
                None => false,
            },
            Err(e) => OriginKey::named(key@) is None && e.is_unknown_key(key@),
        },
{
    match OriginKey::parse(key) {
        Ok(OriginKey::Url) => Ok(origin.url.clone()),
        Ok(OriginKey::Token) => Ok(origin.token.clone()),
        Ok(OriginKey::Kind) => Ok(origin.kind.as_str().to_owned()),
        Ok(OriginKey::RelayUrl) => match &origin.relay_url {
            Some(url) => Ok(url.clone()),
            None => Ok(String::new()),
        },
        Err(e) => Err(e),
    }
}

/// Whether `after` is `before` with `key` set to `value`, and nothing else
/// changed.
pub open spec fn is_set(after: Origin, before: Origin, key: OriginKey, value: Seq<char>) -> bool {
    &&& after.id == before.id
    &&& if key == OriginKey::Url {
        after.url@ == value
    } else {
        after.url == before.url
    }
    &&& if key == OriginKey::Token {
        after.token@ == value
    } else {
        after.token == before.token
    }
    &&& if key == OriginKey::Kind {
        OriginKind::named(value) == Some(after.kind)
    } else {
        after.kind == before.kind
    }
    &&& if key == OriginKey::RelayUrl {
        match after.relay_url {
            Some(url) => url@ == value,
            None => false,
        }
    } else {
        after.relay_url == before.relay_url
    }
}

/// Sets `key` in `origin` to `value`. An unknown key and a value for `kind`
/// that names no kind are refused, and `origin` stays as it was.
pub fn set_origin(origin: &mut Origin, key: &str, value: &str) -> (res: Result<(), OriginError>)
    ensures
        match res {
            Ok(_) => match OriginKey::named(key@) {
                Some(k) => is_set(*final(origin), *old(origin), k, value@),
                None => false,
            },
            Err(e) => *final(origin) == *old(origin) && match OriginKey::named(key@) {
                None => e.is_unknown_key(key@),
                Some(k) => k == OriginKey::Kind && OriginKind::named(value@) is None
                    && e.is_invalid_kind(value@),
            },
        },
{
    match OriginKey::parse(key) {
        Ok(OriginKey::Url) => {
            origin.url = value.to_owned();
            Ok(())
        },
        Ok(OriginKey::Token) => {
            origin.token = value.to_owned();
            Ok(())
        },
        Ok(OriginKey::Kind) => match OriginKind::from_str(value) {
            Ok(kind) => {
                origin.kind = kind;
                Ok(())
            },
            Err(e) => Err(e),
        },
        Ok(OriginKey::RelayUrl) => {
            origin.relay_url = Some(value.to_owned());
            Ok(())
        },
        Err(e) => Err(e),
    }
}

/// What is printed for the value that `key` was set to: the value itself,
/// but three stars in place of a token.
pub fn shown_value(key: &str, value: &str) -> (shown: String)
    ensures
        shown@ == if key@ == "token"@ {
            "***"@
        } else {
            value@
        },
{
    if str_eq(key, "token") {
        "***".to_owned()
    } else {
        value.to_owned()
    }
}

/// The default origin.
pub fn get_default_origin(config: &Config) -> (id: Option<String>)
    ensures
        id == config.default_origin,
{
    copy_opt_string(&config.default_origin)
}

/// Makes `id` the default origin.
pub fn set_default_origin(config: &mut Config, id: &str)
    ensures
        default_is(*final(config), id@),
{
    config.default_origin = Some(id.to_owned());
}

/// Whether `id` is the default origin of `config`.
pub open spec fn default_is(config: Config, id: Seq<char>) -> bool {
    match config.default_origin {
        Some(d) => d@ == id,
        None => false,
    }
}

/// Whether `id` is the default origin.
pub fn is_default(config: &Config, id: &str) -> (b: bool)
    ensures
        b == default_is(*config, id@),
{
    match &config.default_origin {
        Some(d) => str_eq(d.as_str(), id),
        None => false,
    }
}

/// An origin with the fields given. If there is no default origin yet, the
/// new origin becomes the default; the result says whether it did.
pub fn add_origin(
    config: &mut Config,
    id: &str,
    url: &str,
    token: &str,
    kind: OriginKind,
    relay_url: Option<&str>,
) -> (res: (Origin, bool))
    ensures
        ({
            let (origin, became_default) = res;
            &&& origin.id@ == id@
            &&& origin.url@ == url@
            &&& origin.token@ == token@
            &&& origin.kind == kind
            &&& match (origin.relay_url, relay_url) {
                (Some(a), Some(b)) => a@ == b@,
                (None, None) => true,
                _ => false,
            }
            &&& became_default == old(config).default_origin is None
            &&& if became_default {
                default_is(*final(config), id@)
            } else {
                final(config).default_origin == old(config).default_origin
            }
        }),
{
    let origin = Origin {
        id: id.to_owned(),
        kind,
        url: url.to_owned(),
        token: token.to_owned(),
        relay_url: match relay_url {
            Some(u) => Some(u.to_owned()),
            None => None,
        },
    };
    let became_default = config.default_origin.is_none();
    if became_default {
        set_default_origin(config, id);
    }
    (origin, became_default)
}

/// Forgets the origin `id`: if it was the default, there is no default any
/// more. Returns whether the default was cleared.
pub fn remove_origin(config: &mut Config, id: &str) -> (cleared: bool)
    ensures
        cleared == default_is(*old(config), id@),
        final(config).default_origin == if cleared {
            None
        } else {
            old(config).default_origin
        },
{
    if is_default(config, id) {
        config.default_origin = None;
        true
    } else {
        false
    }
}

/// Makes `id` the default origin.
pub fn use_origin(config: &mut Config, id: &str)
    ensures
        default_is(*final(config), id@),
{
    set_default_origin(config, id);
}

/// For each of the origins `ids`, whether it is the default: the marks of
/// the last column of the list of origins.
pub fn list_origins(config: &Config, ids: &Vec<String>) -> (marks: Vec<bool>)
    ensures
        marks@.len() == ids@.len(),
        forall|i: int| 0 <= i < ids@.len() ==> #[trigger] marks@[i] == default_is(*config, ids@[i]@),
{
    let mut marks: Vec<bool> = Vec::new();
    let mut i: usize = 0;
    while i < ids.len()
        invariant
            i <= ids@.len(),
            marks@.len() == i,
            forall|j: int| 0 <= j < i ==> #[trigger] marks@[j] == default_is(*config, ids@[j]@),
        decreases ids@.len() - i,
    {
        marks.push(is_default(config, ids[i].as_str()));
        i = i + 1;
    }
    marks
}

} // verus!
