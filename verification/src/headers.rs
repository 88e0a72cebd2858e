//! HTTP header maps as the `http` crate holds them, and its rules for header
//! names and values.
//!
//! A request's headers stay an `http::HeaderMap`. What the gateway reads of
//! one is described by [`header_map_model`]; the functions that look into a
//! map are thin calls into `http` whose contracts are taken on trust.
//!
//! A lookup by name goes by the canonical form of the name, in which a header
//! map keeps the names it is given as text.

use vstd::prelude::*;

verus! {

#[verifier::external_type_specification]
#[verifier::external_body]
#[verifier::reject_recursive_types(T)]
pub struct ExHeaderMap<T>(http::HeaderMap<T>);

#[verifier::external_type_specification]
#[verifier::external_body]
pub struct ExHeaderValue(http::HeaderValue);

/// A header map with the usual kind of value.
pub type Headers = http::HeaderMap<http::HeaderValue>;

/// The longest header name that `http` takes, in bytes.
pub const MAX_HEADER_NAME_LEN: usize = 65535;

/// Whether `c` may stand in a header name: a letter, a digit, or one of
/// ``!#$%&'*+-.^_`|~``.
pub open spec fn is_header_name_char(c: char) -> bool {
    ||| 'a' <= c <= 'z'
    ||| 'A' <= c <= 'Z'
    ||| '0' <= c <= '9'
    ||| c == '!'
    ||| c == '#'
    ||| c == '$'
    ||| c == '%'
    ||| c == '&'
    ||| c == '\''
    ||| c == '*'
    ||| c == '+'
    ||| c == '-'
    ||| c == '.'
    ||| c == '^'
    ||| c == '_'
    ||| c == '`'
    ||| c == '|'
    ||| c == '~'
}

/// `c` with an ASCII capital turned into its small letter.
pub open spec fn ascii_lower(c: char) -> char {
    if 'A' <= c <= 'Z' {
        ((c as u8 + 32) as u8) as char
    } else {
        c
    }
}

/// Whether `name` is accepted as a header name.
pub open spec fn is_header_name(name: Seq<char>) -> bool {
    &&& 0 < name.len() <= MAX_HEADER_NAME_LEN
    &&& forall|i: int| 0 <= i < name.len() ==> is_header_name_char(#[trigger] name[i])
}

/// The form in which a header map keeps the name `name`: its capitals made
/// small. `None` where `name` is no header name.
pub open spec fn canonical_header_name(name: Seq<char>) -> Option<Seq<char>> {
    if is_header_name(name) {
        Some(name.map_values(|c: char| ascii_lower(c)))
    } else {
        None
    }
}

/// Whether `c` may stand in a header value: anything but an ASCII control
/// character, the tab excepted.
pub open spec fn is_header_value_char(c: char) -> bool {
    (c >= ' ' && c != '\x7f') || c == '\t'
}

/// Whether `value` is accepted as a header value.
pub open spec fn is_header_value(value: Seq<char>) -> bool {
    forall|i: int| 0 <= i < value.len() ==> is_header_value_char(#[trigger] value[i])
}

/// What the gateway reads of a header map: its entries, each a name with one
/// of the values under it.
pub type HeaderEntries = Seq<(Seq<char>, Option<Seq<char>>)>;

/// The entries of a header map in the order in which `HeaderMap::iter` walks
/// them: each name with each of the values under it, the values of one name
/// in the order in which they were added. A value that is visible ASCII
/// stands as its text, any other as `None`.
pub uninterp spec fn header_map_model(m: Headers) -> Seq<(Seq<char>, Option<Seq<char>>)>;

/// The values that the entries hold under exactly the name `name`, in their
/// order.
pub open spec fn values_under(entries: HeaderEntries, name: Seq<char>) -> Seq<Option<Seq<char>>> {
    entries.filter(|e: (Seq<char>, Option<Seq<char>>)| e.0 == name).map_values(
        |e: (Seq<char>, Option<Seq<char>>)| e.1,
    )
}

/// The values that a lookup of `name` finds: those under its canonical form,
/// none where `name` is no header name.
pub open spec fn header_values_of(entries: HeaderEntries, name: Seq<char>) -> Seq<
    Option<Seq<char>>,
> {
    match canonical_header_name(name) {
        Some(n) => values_under(entries, n),
        None => Seq::empty(),
    }
}

/// The first of the values where that is text.
pub open spec fn first_text(values: Seq<Option<Seq<char>>>) -> Option<Seq<char>> {
    if values.len() > 0 {
        values[0]
    } else {
        None
    }
}

/// What the header `name` says: the first value that a lookup finds, where
/// that is text.
pub open spec fn header_text(entries: HeaderEntries, name: Seq<char>) -> Option<Seq<char>> {
    first_text(header_values_of(entries, name))
}

/// `HeaderMap::get_all` with a string key, each value through
/// `HeaderValue::to_str`: the values under that name, first added first. The
/// key is matched in its canonical form; one that is no header name finds
/// nothing.
#[verifier::external_body]
pub(crate) fn header_values(headers: &Headers, name: &str) -> (r: Vec<Option<String>>)
    ensures
        r.deep_view() == header_values_of(header_map_model(*headers), name@),
{
    headers.get_all(name).iter().map(|v| v.to_str().ok().map(|s| s.to_string())).collect()
}

/// `HeaderMap::iter`, each name through `HeaderName::as_str` and each value
/// through `HeaderValue::to_str`: the entries of the map as it walks them.
#[verifier::external_body]
pub(crate) fn header_entries(headers: &Headers) -> (r: Vec<(String, Option<String>)>)
    ensures
        r.deep_view() == header_map_model(*headers),
{
    headers.iter().map(
        |(k, v)| (k.as_str().to_string(), v.to_str().ok().map(|s| s.to_string())),
    ).collect()
}

/// `HeaderName::from_bytes`, then `as_str`: the canonical form of a header
/// name, `None` where the text is not one.
#[verifier::external_body]
pub(crate) fn canonical_name(name: &str) -> (r: Option<String>)
    ensures
        r.deep_view() == canonical_header_name(name@),
{
    http::HeaderName::from_bytes(name.as_bytes()).ok().map(|n| n.as_str().to_string())
}

/// `HeaderValue::from_str`: whether the text is accepted as a header value.
#[verifier::external_body]
pub(crate) fn valid_header_value(value: &str) -> (r: bool)
    ensures
        r == is_header_value(value@),
{
    http::HeaderValue::from_str(value).is_ok()
}

/// The canonical form of a header name is a header name, and its own
/// canonical form.
pub proof fn lemma_canonical_name_is_canonical(name: Seq<char>)
    requires
        canonical_header_name(name) is Some,
    ensures
        canonical_header_name(canonical_header_name(name)->Some_0) == canonical_header_name(name),
{
    let lower = |c: char| ascii_lower(c);
    let canonical = name.map_values(lower);
    assert forall|i: int| 0 <= i < canonical.len() implies is_header_name_char(
        #[trigger] canonical[i],
    ) && ascii_lower(canonical[i]) == canonical[i] by {
        assert(is_header_name_char(name[i]));
    }
    assert(canonical.map_values(lower) =~= canonical);
}

/// Reads what the header `name` says: its first value, where that is text.
pub fn first_header_text(headers: &Headers, name: &str) -> (r: Option<String>)
    ensures
        match r {
            Some(text) => header_text(header_map_model(*headers), name@) == Some(text@),
            None => header_text(header_map_model(*headers), name@) is None,
        },
{
    let values = header_values(headers, name);
    if values.len() > 0 {
        match &values[0] {
            Some(text) => Some(text.clone()),
            None => None,
        }
    } else {
        None
    }
}

} // verus!
