//! The part of a TOML document the launcher reads: strings, integers,
//! arrays and tables, with lookups stated over `Seq<char>` keys.
//! Parsing itself is done by the `toml` crate.
use vstd::prelude::*;

verus! {

#[verifier::external_type_specification]
#[verifier::external_body]
pub struct ExTomlValue(toml::Value);

/// A TOML value as the launcher holds it. Floats and datetimes, which the
/// launcher never reads, are kept as `Other`; a table keeps its entries in
/// the order the `toml` crate lists them.
pub enum TomlValue {
    Str(String),
    Integer(i64),
    Boolean(bool),
    Array(Vec<TomlValue>),
    Table(Vec<(String, TomlValue)>),
    Other,
}

/// Names what `toml::from_str::<toml::Value>` makes of `text`: the document,
/// or the message of the error it reports.
pub uninterp spec fn toml_document(text: Seq<char>) -> Result<TomlValue, Seq<char>>;

/// The value stored under `key` among `entries`, the first such entry if several.
pub open spec fn lookup_entry(entries: Seq<(String, TomlValue)>, key: Seq<char>) -> Option<
    TomlValue,
>
    decreases entries.len(),
{
    if entries.len() == 0 {
        None
    } else if entries[0].0@ == key {
        Some(entries[0].1)
    } else {
        lookup_entry(entries.drop_first(), key)
    }
}

impl TomlValue {
    /// The value under `key` if this is a table holding it (`toml::Value::get` with a key).
    pub open spec fn entry(self, key: Seq<char>) -> Option<TomlValue> {
        match self {
            TomlValue::Table(entries) => lookup_entry(entries@, key),
            _ => None,
        }
    }

    /// The text of a string value (`toml::Value::as_str`).
    pub open spec fn str_value(self) -> Option<Seq<char>> {
        match self {
            TomlValue::Str(s) => Some(s@),
            _ => None,
        }
    }

    /// The number of an integer value (`toml::Value::as_integer`).
    pub open spec fn int_value(self) -> Option<i64> {
        match self {
            TomlValue::Integer(n) => Some(n),
            _ => None,
        }
    }

    /// The first element of a non-empty array (`as_array` then `first`).
    pub open spec fn first_item(self) -> Option<TomlValue> {
        match self {
            TomlValue::Array(items) => if items.len() > 0 {
                Some(items[0])
            } else {
                None
            },
            _ => None,
        }
    }

    /// Looks `key` up in a table; `None` for a missing key or a value that is not a table.
    pub fn get(&self, key: &str) -> (r: Option<&TomlValue>)
        ensures
            match r {
                Some(v) => self.entry(key@) == Some(*v),
                None => self.entry(key@) is None,
            },
    {
        match self {
            TomlValue::Table(entries) => {
                let wanted = String::from_str(key);
                let n = entries.len();
                let mut i: usize = 0;
                proof {
                    assert(entries@.subrange(0, n as int) == entries@);
                }
                while i < n
                    invariant
                        n == entries.len(),
                        i <= n,
                        wanted@ == key@,
                        self.entry(key@) == lookup_entry(entries@, key@),
                        lookup_entry(entries@, key@) == lookup_entry(
                            entries@.subrange(i as int, n as int),
                            key@,
                        ),
                    decreases n - i,
                {
                    let ghost rest = entries@.subrange(i as int, n as int);
                    proof {
                        assert(rest[0] == entries@[i as int]);
                        assert(rest.drop_first() == entries@.subrange(i + 1, n as int));
                    }
                    if entries[i].0 == wanted {
                        proof {
                            assert(lookup_entry(rest, key@) == Some(entries@[i as int].1));
                        }
                        return Some(&entries[i].1);
                    }
                    i = i + 1;
                }
                None
            },
            _ => None,
        }
    }

    /// The text of a string value.
    pub fn as_str(&self) -> (r: Option<&String>)
        ensures
            match r {
                Some(s) => self.str_value() == Some(s@),
                None => self.str_value() is None,
            },
    {
        match self {
            TomlValue::Str(s) => Some(s),
            _ => None,
        }
    }

    /// The number of an integer value.
    pub fn as_integer(&self) -> (r: Option<i64>)
        ensures
            r == self.int_value(),
    {
        match self {
            TomlValue::Integer(n) => Some(*n),
            _ => None,
        }
    }

    /// The first element of an array, if the value is a non-empty array.
    pub fn first(&self) -> (r: Option<&TomlValue>)
        ensures
            match r {
                Some(v) => self.first_item() == Some(*v),
                None => self.first_item() is None,
            },
    {
        match self {
            TomlValue::Array(items) => if items.len() > 0 {
                Some(&items[0])
            } else {
                None
            },
            _ => None,
        }
    }
}

/// Reads `text` with `toml::from_str::<toml::Value>`.
/// Trusted: the outcome is the one `toml_document` names for `text`: the
/// document, or the error's message (`Display` of `toml::de::Error`).
#[verifier::external_body]
pub(crate) fn parse_toml(text: &str) -> (r: Result<TomlValue, String>)
    ensures
        match toml_document(text@) {
            Ok(doc) => r == Ok::<TomlValue, String>(doc),
            Err(msg) => r is Err && r->Err_0@ == msg,
        },
{
    match toml::from_str::<toml::Value>(text) {
        Ok(v) => Ok(toml_value_into_model(v)),
        Err(e) => Err(e.to_string()),
    }
}

/// Turns a `toml::Value` into the launcher's `TomlValue`, one variant for
/// one variant (floats and datetimes become `Other`). Used only by
/// `parse_toml`, whose contract covers what it builds.
#[verifier::external_body]
fn toml_value_into_model(v: toml::Value) -> TomlValue {
    match v {
        toml::Value::String(s) => TomlValue::Str(s),
        toml::Value::Integer(n) => TomlValue::Integer(n),
        toml::Value::Float(_) => TomlValue::Other,
        toml::Value::Boolean(b) => TomlValue::Boolean(b),
        toml::Value::Datetime(_) => TomlValue::Other,
        toml::Value::Array(a) => TomlValue::Array(a.into_iter().map(toml_value_into_model).collect()),
        toml::Value::Table(t) => TomlValue::Table(
            t.into_iter().map(|(k, x)| (k, toml_value_into_model(x))).collect(),
        ),
    }
}

} // verus!
