//! Configuration entries of a declaration: which names exist, what each
//! accepts, and how the compression choice is read.

use vstd::prelude::*;

use crate::text::{owned, text_eq};

verus! {

pub const CONFIG_FIELD_TIMEOUT: &'static str = "timeout";
pub const CONFIG_FIELD_CONCURRENCY_LIMIT: &'static str = "concurrency_limit";
pub const CONFIG_FIELD_BODY_LIMIT: &'static str = "body_limit";
pub const CONFIG_FIELD_COMPRESSION: &'static str = "compression";
pub const CONFIG_FIELD_NORMALIZE_ENDPOINT: &'static str = "normalize_endpoint";
pub const CONFIG_FIELD_TIMEOUT_ERROR: &'static str = "timeout_error";
pub const CONFIG_FIELD_CONCURRENCY_LIMIT_ERROR: &'static str = "concurrency_limit_error";
pub const CONFIG_FIELD_BAD_REQUEST_ERROR: &'static str = "bad_request_error";
pub const CONFIG_FIELD_CORS: &'static str = "cors";
pub const CONFIG_FIELD_FILE_DIR: &'static str = "dir";
pub const CONFIG_FIELD_FILE_FALLBACK_FILE: &'static str = "fallback_file";
pub const CONFIG_FIELD_FILE_EMBED: &'static str = "embed";

/// Configs allowed only in a server's root configuration.
pub open spec fn global_config_name(name: Seq<char>) -> bool {
    name == "normalize_endpoint"@
}

/// Configs that name a custom error response.
pub open spec fn custom_error_name(name: Seq<char>) -> bool {
    ||| name == "timeout_error"@
    ||| name == "concurrency_limit_error"@
    ||| name == "bad_request_error"@
}

/// Configs of a file-serving route.
pub open spec fn file_config_name(name: Seq<char>) -> bool {
    ||| name == "dir"@
    ||| name == "fallback_file"@
    ||| name == "embed"@
}

pub fn is_global_config(name: &str) -> (r: bool)
    ensures
        r == global_config_name(name@),
{
    text_eq(name, CONFIG_FIELD_NORMALIZE_ENDPOINT)
}

pub fn is_custom_error(name: &str) -> (r: bool)
    ensures
        r == custom_error_name(name@),
{
    text_eq(name, CONFIG_FIELD_TIMEOUT_ERROR) || text_eq(name, CONFIG_FIELD_CONCURRENCY_LIMIT_ERROR)
        || text_eq(name, CONFIG_FIELD_BAD_REQUEST_ERROR)
}

pub fn is_file_config(name: &str) -> (r: bool)
    ensures
        r == file_config_name(name@),
{
    text_eq(name, CONFIG_FIELD_FILE_DIR) || text_eq(name, CONFIG_FIELD_FILE_FALLBACK_FILE)
        || text_eq(name, CONFIG_FIELD_FILE_EMBED)
}

/// Compression method named in a declaration.
#[derive(Debug, Clone, Copy, PartialEq, Eq, Structural)]
pub enum Compression {
    Deflate,
    Gzip,
    Brotli,
    Zstd,
    All,
}

impl Compression {
    /// The display form: the variant's name.
    pub open spec fn name(self) -> Seq<char> {
        match self {
            Compression::Deflate => "Deflate"@,
            Compression::Gzip => "Gzip"@,
            Compression::Brotli => "Brotli"@,
            Compression::Zstd => "Zstd"@,
            Compression::All => "All"@,
        }
    }

    pub open spec fn list_text() -> Seq<char> {
        "deflate, gzip, brotli, zstd, all"@
    }

    /// The supported methods, as listed in error messages.
    pub fn display_list() -> (r: String)
        ensures
            r@ == Self::list_text(),
    {
        owned("deflate, gzip, brotli, zstd, all")
    }

    /// The display form of the method.
    pub fn as_str(&self) -> (r: &'static str)
        ensures
            r@ == self.name(),
    {
        match self {
            Compression::Deflate => "Deflate",
            Compression::Gzip => "Gzip",
            Compression::Brotli => "Brotli",
            Compression::Zstd => "Zstd",
            Compression::All => "All",
        }
    }

    /// The method a text names, in its capitalised or lower-case spelling.
    pub open spec fn parse(s: Seq<char>) -> Option<Compression> {
        if s == "Deflate"@ || s == "deflate"@ {
            Some(Compression::Deflate)
        } else if s == "Gzip"@ || s == "gzip"@ {
            Some(Compression::Gzip)
        } else if s == "Brotli"@ || s == "brotli"@ {
            Some(Compression::Brotli)
        } else if s == "Zstd"@ || s == "zstd"@ {
            Some(Compression::Zstd)
        } else if s == "All"@ || s == "all"@ {
            Some(Compression::All)
        } else {
            None
        }
    }

    /// The refusal message for a text that names no method.
    pub open spec fn parse_error_text(s: Seq<char>) -> Seq<char> {
        "`"@ + s + "` is invalid/unsupported compression method, supported: "@ + Self::list_text()
    }

    pub fn from_str(s: &str) -> (r: Result<Compression, String>)
        ensures
            match Self::parse(s@) {
                Some(c) => r == Ok::<Compression, String>(c),
                None => r matches Err(m) && m@ == Self::parse_error_text(s@),
            },
    {
        if text_eq(s, "Deflate") || text_eq(s, "deflate") {
            Ok(Compression::Deflate)
        } else if text_eq(s, "Gzip") || text_eq(s, "gzip") {
            Ok(Compression::Gzip)
        } else if text_eq(s, "Brotli") || text_eq(s, "brotli") {
            Ok(Compression::Brotli)
        } else if text_eq(s, "Zstd") || text_eq(s, "zstd") {
            Ok(Compression::Zstd)
        } else if text_eq(s, "All") || text_eq(s, "all") {
            Ok(Compression::All)
        } else {
            let mut m = owned("`");
            m.append(s);
            m.append("` is invalid/unsupported compression method, supported: ");
            let list = Self::display_list();
            m.append(list.as_str());
            Err(m)
        }
    }
}

/// The display form of a compression method reads back as the method.
pub proof fn lemma_compression_round_trip(c: Compression)
    ensures
        Compression::parse(c.name()) == Some(c),
{
    reveal_strlit("Deflate");
    reveal_strlit("deflate");
    reveal_strlit("Gzip");
    reveal_strlit("gzip");
    reveal_strlit("Brotli");
    reveal_strlit("brotli");
    reveal_strlit("Zstd");
    reveal_strlit("zstd");
    reveal_strlit("All");
    reveal_strlit("all");
    let n = c.name();
    assert(n[0] != "Deflate"@[0] ==> n != "Deflate"@ && n != "deflate"@);
    assert(n[0] != "Gzip"@[0] ==> n != "Gzip"@ && n != "gzip"@);
    assert(n[0] != "Brotli"@[0] ==> n != "Brotli"@ && n != "brotli"@);
    assert(n[0] != "Zstd"@[0] ==> n != "Zstd"@ && n != "zstd"@);
}

/// What the checks read of a configuration value's expression.
#[derive(Debug, Clone, PartialEq, Eq)]
pub enum ExprKind {
    /// An integer literal.
    IntLit,
    /// A string literal.
    StrLit,
    /// A boolean literal.
    BoolLit(bool),
    /// A call whose callee is a path; the path's identifier when it is a
    /// single identifier.
    CallPath(Option<String>),
    /// Any other expression.
    Other,
}

/// The value of a configuration entry: the expression as written (`V` is
/// whatever the caller uses to refer to it), or the compression method
/// that the expression named.
#[derive(Debug, Clone, Copy, PartialEq, Eq)]
pub enum ConfigValue<V> {
    Source(V),
    Compression(Compression),
}

/// One `name: value` entry of a configuration block.
pub struct ConfigEntry<V> {
    pub name: String,
    pub value: ConfigValue<V>,
}

/// The abstract content of a configuration entry.
pub struct EntryView<V> {
    pub name: Seq<char>,
    pub value: ConfigValue<V>,
}

impl<V> View for ConfigEntry<V> {
    type V = EntryView<V>;

    open spec fn view(&self) -> EntryView<V> {
        EntryView { name: self.name@, value: self.value }
    }
}

impl<V: Copy> ConfigEntry<V> {
    /// A copy of the entry.
    pub fn duplicate(&self) -> (r: ConfigEntry<V>)
        ensures
            r@ == self@,
    {
        ConfigEntry { name: self.name.clone(), value: self.value }
    }
}

/// Whether the name of a custom-error handler is one of the accepted forms.
pub open spec fn custom_error_callee(ident: Seq<char>) -> bool {
    ||| ident == "Json"@
    ||| ident == "json"@
    ||| ident == "Text"@
    ||| ident == "String"@
    ||| ident == "text"@
    ||| ident == "string"@
    ||| ident == "Html"@
    ||| ident == "html"@
}

/// The view of an [`ExprKind`] with its text as sequences.
pub open spec fn kind_ident(kind: ExprKind) -> Option<Seq<char>> {
    match kind {
        ExprKind::CallPath(Some(s)) => Some(s@),
        _ => None,
    }
}

/// The refusal for a configuration entry `name: value`, where `kind` is
/// what the value expression is and `tokens` its token text; `None` when
/// the entry is accepted.
pub open spec fn config_entry_error(name: Seq<char>, kind: ExprKind, tokens: Seq<char>) -> Option<Seq<char>> {
    if name == "timeout"@ || name == "concurrency_limit"@ || name == "body_limit"@ {
        if kind is IntLit { None } else { Some("expects an integer"@) }
    } else if name == "compression"@ {
        match Compression::parse(tokens) {
            Some(_) => None,
            None => Some(Compression::parse_error_text(tokens)),
        }
    } else if name == "normalize_endpoint"@ || name == "embed"@ {
        if kind is BoolLit { None } else { Some("expects a boolean"@) }
    } else if name == "cors"@ {
        None
    } else if name == "dir"@ || name == "fallback_file"@ {
        if kind is StrLit { None } else { Some("expects a string"@) }
    } else if custom_error_name(name) {
        match kind {
            ExprKind::CallPath(ident) => match kind_ident(kind) {
                Some(s) => if custom_error_callee(s) {
                    None
                } else {
                    Some("expected values: json(T), text(T), html(T), or ()"@)
                },
                None => Some("expected values: json(T), text(T), html(T), or ()"@),
            },
            _ => Some("invalid custom errors values, expected values: json(T), text(T), html(T)"@),
        }
    } else {
        Some("unknown config `"@ + name + "`"@)
    }
}

/// The value an accepted entry keeps: the method a `compression` entry
/// names, the expression itself for every other entry.
pub open spec fn config_entry_value<V>(name: Seq<char>, tokens: Seq<char>, source: V) -> ConfigValue<V> {
    if name == "timeout"@ || name == "concurrency_limit"@ || name == "body_limit"@ {
        ConfigValue::Source(source)
    } else if name == "compression"@ {
        ConfigValue::Compression(Compression::parse(tokens).unwrap())
    } else {
        ConfigValue::Source(source)
    }
}

fn is_custom_error_callee(ident: &str) -> (r: bool)
    ensures
        r == custom_error_callee(ident@),
{
    text_eq(ident, "Json") || text_eq(ident, "json") || text_eq(ident, "Text") || text_eq(ident, "String")
        || text_eq(ident, "text") || text_eq(ident, "string") || text_eq(ident, "Html") || text_eq(ident, "html")
}

impl<V> ConfigEntry<V> {
    /// Checks a configuration entry `name: value` and builds it. `kind` is
    /// what the value expression is, `tokens` its token text and `source`
    /// the expression itself; a `compression` entry keeps the method it
    /// names in place of the expression.
    pub fn try_new(name: &str, kind: &ExprKind, tokens: &str, source: V) -> (r: Result<ConfigEntry<V>, String>)
        ensures
            match config_entry_error(name@, *kind, tokens@) {
                Some(m) => r matches Err(e) && e@ == m,
                None => r matches Ok(entry) && entry.name@ == name@ && entry.value == config_entry_value(
                    name@,
                    tokens@,
                    source,
                ),
            },
    {
        if text_eq(name, CONFIG_FIELD_TIMEOUT) || text_eq(name, CONFIG_FIELD_CONCURRENCY_LIMIT) || text_eq(name, CONFIG_FIELD_BODY_LIMIT) {
            if !matches!(kind, ExprKind::IntLit) {
                return Err(owned("expects an integer"));
            }
        } else if text_eq(name, CONFIG_FIELD_COMPRESSION) {
            match Compression::from_str(tokens) {
                Ok(c) => {
                    return Ok(ConfigEntry { name: owned(name), value: ConfigValue::Compression(c) });
                },
                Err(m) => {
                    return Err(m);
                },
            }
        } else if text_eq(name, CONFIG_FIELD_NORMALIZE_ENDPOINT) || text_eq(name, CONFIG_FIELD_FILE_EMBED) {
            if !matches!(kind, ExprKind::BoolLit(_)) {
                return Err(owned("expects a boolean"));
            }
        } else if text_eq(name, CONFIG_FIELD_CORS) {
        } else if text_eq(name, CONFIG_FIELD_FILE_DIR) || text_eq(name, CONFIG_FIELD_FILE_FALLBACK_FILE) {
            if !matches!(kind, ExprKind::StrLit) {
                return Err(owned("expects a string"));
            }
        } else if is_custom_error(name) {
            match kind {
                ExprKind::CallPath(Some(ident)) => {
                    if !is_custom_error_callee(ident.as_str()) {
                        return Err(owned("expected values: json(T), text(T), html(T), or ()"));
                    }
                },
                ExprKind::CallPath(None) => {
                    return Err(owned("expected values: json(T), text(T), html(T), or ()"));
                },
                _ => {
                    return Err(owned("invalid custom errors values, expected values: json(T), text(T), html(T)"));
                },
            }
        } else {
            let mut m = owned("unknown config `");
            m.append(name);
            m.append("`");
            return Err(m);
        }
        Ok(ConfigEntry { name: owned(name), value: ConfigValue::Source(source) })
    }
}

} // verus!
