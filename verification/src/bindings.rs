//! What the browser bindings decide themselves: the configuration that
//! opening a session on one endpoint amounts to, and the life of a
//! subscription handle.
use vstd::prelude::*;

verus! {

/// An error of `serde_json`.
#[verifier::external_type_specification]
#[verifier::external_body]
pub struct ExJsonError(serde_json::Error);

/// A hexadecimal digit, lower case.
pub open spec fn hex_digit(d: int) -> char {
    if d < 10 {
        ((48 + d) as u32) as char
    } else {
        ((87 + d) as u32) as char
    }
}

/// How JSON writes one character of a string: a quote, a backslash and the
/// control characters are escaped (the usual short escapes where there is
/// one, `\u00xx` otherwise); every other character stands for itself.
pub open spec fn json_char(c: char) -> Seq<char> {
    let n = c as u32;
    if c == '"' {
        seq!['\\', '"']
    } else if c == '\\' {
        seq!['\\', '\\']
    } else if n == 8 {
        seq!['\\', 'b']
    } else if n == 9 {
        seq!['\\', 't']
    } else if n == 10 {
        seq!['\\', 'n']
    } else if n == 12 {
        seq!['\\', 'f']
    } else if n == 13 {
        seq!['\\', 'r']
    } else if n < 32 {
        seq!['\\', 'u', '0', '0', hex_digit(n as int / 16), hex_digit(n as int % 16)]
    } else {
        seq![c]
    }
}

/// The characters of a string, each written as JSON writes it.
pub open spec fn json_chars(s: Seq<char>) -> Seq<char>
    decreases s.len(),
{
    if s.len() == 0 {
        Seq::empty()
    } else {
        json_chars(s.drop_last()) + json_char(s.last())
    }
}

/// The JSON text of a string, as `serde_json::to_string` writes it: the
/// string in quotes, with its characters escaped.
pub open spec fn json_string(s: Seq<char>) -> Seq<char> {
    seq!['"'] + json_chars(s) + seq!['"']
}

/// `serde_json::to_string` on a string: it succeeds, and its text is the
/// JSON text of the string, as `format_escaped_str` writes it with the
/// compact formatter. A string serializes through `serialize_str`,
/// which only writes into the in-memory `Vec<u8>` of `to_vec`, and the only
/// errors on that path are the writer's I/O errors, which a `Vec` does not
/// give.
#[verifier::external_body]
fn to_json_string(s: &String) -> (r: Result<String, serde_json::Error>)
    ensures
        r is Ok,
        r matches Ok(text) ==> text@ == json_string(s@),
{
    serde_json::to_string(s)
}

/// One entry of a session's configuration: a JSON5 value at a key path.
pub struct ConfigEntry {
    pub key: String,
    pub value: String,
}

/// Why a session could not be configured.
#[derive(Debug)]
pub enum OpenError {
    /// The endpoint could not be written as JSON.
    Json(serde_json::Error),
}

/// The JSON5 list that holds one endpoint, given the endpoint's JSON text.
pub open spec fn endpoint_list(json_endpoint: Seq<char>) -> Seq<char> {
    "["@ + json_endpoint + "]"@
}

/// The JSON5 value of the client mode.
pub open spec fn client_mode() -> Seq<char> {
    "\"client\""@
}

/// The configuration of a client session on the endpoint whose JSON text is
/// `json_endpoint`: the client mode, and that endpoint as the only one to
/// connect to.
pub fn client_config(json_endpoint: &str) -> (r: Vec<ConfigEntry>)
    ensures
        r@.len() == 2,
        r@[0].key@ == "mode"@,
        r@[0].value@ == client_mode(),
        r@[1].key@ == "connect/endpoints"@,
        r@[1].value@ == endpoint_list(json_endpoint@),
{
    let mut list = String::from_str("[");
    list.append(json_endpoint);
    list.append("]");
    let mut r: Vec<ConfigEntry> = Vec::new();
    r.push(ConfigEntry { key: String::from_str("mode"), value: String::from_str("\"client\"") });
    r.push(ConfigEntry { key: String::from_str("connect/endpoints"), value: list });
    r
}

/// The configuration of a client session on `endpoint`, with the endpoint
/// written as JSON through `serde_json`, which does not fail on a string.
pub fn open_config(endpoint: &String) -> (r: Result<Vec<ConfigEntry>, OpenError>)
    ensures
        r matches Ok(entries) && {
            &&& entries@.len() == 2
            &&& entries@[0].key@ == "mode"@
            &&& entries@[0].value@ == client_mode()
            &&& entries@[1].key@ == "connect/endpoints"@
            &&& entries@[1].value@ == endpoint_list(json_string(endpoint@))
        },
{
    match to_json_string(endpoint) {
        Ok(json) => Ok(client_config(json.as_str())),
        Err(e) => Err(OpenError::Json(e)),
    }
}

/// A handle on a live subscription, with the key expression it listens on;
/// once undeclared it holds nothing.
pub struct WasmSubscriber<S> {
    inner: Option<(S, String)>,
}

impl<S> WasmSubscriber<S> {
    /// The subscription and its key expression, while it lives.
    pub closed spec fn spec_inner(&self) -> Option<(S, Seq<char>)> {
        match self.inner {
            Some((s, k)) => Some((s, k@)),
            None => None,
        }
    }

    /// A handle on `subscriber`, which listens on `key_expr`.
    pub fn new(subscriber: S, key_expr: String) -> (r: Self)
        ensures
            r.spec_inner() == Some((subscriber, key_expr@)),
    {
        WasmSubscriber { inner: Some((subscriber, key_expr)) }
    }

    /// The key expression, while the subscription lives.
    pub fn key_expr(&self) -> (r: Option<String>)
        ensures
            match self.spec_inner() {
                Some((_, k)) => r matches Some(key) && key@ == k,
                None => r is None,
            },
    {
        match &self.inner {
            Some((_, key)) => Some(key.clone()),
            None => None,
        }
    }

    /// Hands out the subscription to be undeclared, once: afterwards the
    /// handle holds nothing.
    pub fn take_for_undeclare(&mut self) -> (r: Option<S>)
        ensures
            final(self).spec_inner() is None,
            match old(self).spec_inner() {
                Some((s, _)) => r == Some(s),
                None => r is None,
            },
    {
        let mut taken: Option<(S, String)> = None;
        std::mem::swap(&mut taken, &mut self.inner);
        match taken {
            Some((s, _)) => Some(s),
            None => None,
        }
    }
}

} // verus!
