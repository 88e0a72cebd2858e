//! The gateway's settings: which function to invoke and how, who may call,
//! and where to listen.
//!
//! Settings come from a file and are then overridden by the environment.
//! Reading either is left to the caller, who hands in what was found.

use vstd::prelude::*;
use crate::response::texts_model;
use crate::text::{lowercase, lowercase_text, text_eq};

verus! {

/// How callers are checked.
#[derive(Clone, Copy, Debug, PartialEq, Eq, Structural)]
pub enum AuthMode {
    /// Every request is served.
    Open,
    /// A request must present one of the API keys.
    ApiKey,
}

/// How the backend delivers its reply.
#[derive(Clone, Copy, Debug, PartialEq, Eq, Structural)]
pub enum LambdaInvokeMode {
    /// As one payload.
    Buffered,
    /// As a stream of chunks.
    ResponseStream,
}

impl Default for AuthMode {
    fn default() -> (r: Self)
        ensures
            r == AuthMode::Open,
    {
        AuthMode::Open
    }
}

impl Default for LambdaInvokeMode {
    fn default() -> (r: Self)
        ensures
            r == LambdaInvokeMode::Buffered,
    {
        LambdaInvokeMode::Buffered
    }
}

/// The auth mode that a text names, whatever its case.
pub open spec fn auth_mode_of_text(s: Seq<char>) -> Option<AuthMode> {
    if lowercase_text(s) == "open"@ {
        Some(AuthMode::Open)
    } else if lowercase_text(s) == "apikey"@ {
        Some(AuthMode::ApiKey)
    } else {
        None
    }
}

/// The invoke mode that a text names, whatever its case.
pub open spec fn invoke_mode_of_text(s: Seq<char>) -> Option<LambdaInvokeMode> {
    if lowercase_text(s) == "buffered"@ {
        Some(LambdaInvokeMode::Buffered)
    } else if lowercase_text(s) == "responsestream"@ {
        Some(LambdaInvokeMode::ResponseStream)
    } else {
        None
    }
}

impl AuthMode {
    /// Reads an auth mode: `open` or `apikey`, in any case. Any other text
    /// is refused with a message that quotes it.
    pub fn from_str(s: &str) -> (r: Result<AuthMode, String>)
        ensures
            match r {
                Ok(mode) => auth_mode_of_text(s@) == Some(mode),
                Err(message) => auth_mode_of_text(s@) is None && message@ == "Invalid AuthMode: "@
                    + s@,
            },
    {
        let lower = lowercase(s);
        if text_eq(lower.as_str(), "open") {
            Ok(AuthMode::Open)
        } else if text_eq(lower.as_str(), "apikey") {
            Ok(AuthMode::ApiKey)
        } else {
            Err("Invalid AuthMode: ".to_owned().concat(s))
        }
    }
}

impl LambdaInvokeMode {
    /// Reads an invoke mode: `buffered` or `responsestream`, in any case.
    /// Any other text is refused with a message that quotes it.
    pub fn from_str(s: &str) -> (r: Result<LambdaInvokeMode, String>)
        ensures
            match r {
                Ok(mode) => invoke_mode_of_text(s@) == Some(mode),
                Err(message) => invoke_mode_of_text(s@) is None && message@
                    == "Invalid LambdaInvokeMode: "@ + s@,
            },
    {
        let lower = lowercase(s);
        if text_eq(lower.as_str(), "buffered") {
            Ok(LambdaInvokeMode::Buffered)
        } else if text_eq(lower.as_str(), "responsestream") {
            Ok(LambdaInvokeMode::ResponseStream)
        } else {
            Err("Invalid LambdaInvokeMode: ".to_owned().concat(s))
        }
    }
}

/// The address on which the gateway listens where none is set.
pub fn default_addr() -> (r: String)
    ensures
        r@ == "0.0.0.0:8000"@,
{
    "0.0.0.0:8000".to_owned()
}

/// Whether `text[a..b]` is one of the fields that commas divide `text` into.
pub open spec fn is_field(text: Seq<char>, a: int, b: int) -> bool {
    &&& 0 <= a <= b <= text.len()
    &&& forall|i: int| a <= i < b ==> #[trigger] text[i] != ','
    &&& a == 0 || text[a - 1] == ','
    &&& b == text.len() || text[b] == ','
}

/// The non-empty fields of `text` that end before index `end`.
pub open spec fn keys_before(text: Seq<char>, end: int) -> Set<Seq<char>> {
    Set::new(
        |k: Seq<char>|
            exists|a: int, b: int|
                #[trigger] is_field(text, a, b) && a < b < end && k == text.subrange(a, b),
    )
}

/// The API keys that a comma-separated list gives: its non-empty fields.
pub open spec fn keys_of_text(text: Seq<char>) -> Set<Seq<char>> {
    keys_before(text, text.len() as int + 1)
}

/// What the environment sets, each as the text of its variable.
#[derive(Clone, Debug, PartialEq, Eq)]
pub struct EnvOverrides {
    pub lambda_function_name: Option<String>,
    pub lambda_invoke_mode: Option<String>,
    pub api_keys: Option<String>,
    pub auth_mode: Option<String>,
    pub addr: Option<String>,
}

/// What the environment sets.
pub struct EnvModel {
    pub lambda_function_name: Option<Seq<char>>,
    pub lambda_invoke_mode: Option<Seq<char>>,
    pub api_keys: Option<Seq<char>>,
    pub auth_mode: Option<Seq<char>>,
    pub addr: Option<Seq<char>>,
}

/// What an optional text holds.
pub open spec fn text_model(s: Option<String>) -> Option<Seq<char>> {
    match s {
        Some(s) => Some(s@),
        None => None,
    }
}

impl View for EnvOverrides {
    type V = EnvModel;

    open spec fn view(&self) -> EnvModel {
        EnvModel {
            lambda_function_name: text_model(self.lambda_function_name),
            lambda_invoke_mode: text_model(self.lambda_invoke_mode),
            api_keys: text_model(self.api_keys),
            auth_mode: text_model(self.auth_mode),
            addr: text_model(self.addr),
        }
    }
}

/// The gateway's settings.
#[derive(Clone, Debug, PartialEq, Eq)]
pub struct Config {
    pub lambda_function_name: String,
    pub lambda_invoke_mode: LambdaInvokeMode,
    pub api_keys: Vec<String>,
    pub auth_mode: AuthMode,
    pub addr: String,
}

/// What the settings hold. The API keys are a set: neither their order nor
/// a repetition matters.
pub struct ConfigModel {
    pub lambda_function_name: Seq<char>,
    pub lambda_invoke_mode: LambdaInvokeMode,
    pub api_keys: Set<Seq<char>>,
    pub auth_mode: AuthMode,
    pub addr: Seq<char>,
}

impl View for Config {
    type V = ConfigModel;

    open spec fn view(&self) -> ConfigModel {
        ConfigModel {
            lambda_function_name: self.lambda_function_name@,
            lambda_invoke_mode: self.lambda_invoke_mode,
            api_keys: texts_model(self.api_keys@).to_set(),
            auth_mode: self.auth_mode,
            addr: self.addr@,
        }
    }
}

/// The settings where nothing is set: no function, buffered replies, no
/// keys, open to all, listening on `0.0.0.0:8000`.
pub open spec fn default_config() -> ConfigModel {
    ConfigModel {
        lambda_function_name: Seq::empty(),
        lambda_invoke_mode: LambdaInvokeMode::Buffered,
        api_keys: Set::empty(),
        auth_mode: AuthMode::Open,
        addr: "0.0.0.0:8000"@,
    }
}

/// The settings `c` with what the environment sets in place of theirs. A
/// mode that the environment gives in a text that names none is passed over.
pub open spec fn with_overrides(c: ConfigModel, env: EnvModel) -> ConfigModel {
    ConfigModel {
        lambda_function_name: match env.lambda_function_name {
            Some(name) => name,
            None => c.lambda_function_name,
        },
        lambda_invoke_mode: match env.lambda_invoke_mode {
            Some(text) => match invoke_mode_of_text(text) {
                Some(mode) => mode,
                None => c.lambda_invoke_mode,
            },
            None => c.lambda_invoke_mode,
        },
        api_keys: match env.api_keys {
            Some(text) => keys_of_text(text),
            None => c.api_keys,
        },
        auth_mode: match env.auth_mode {
            Some(text) => match auth_mode_of_text(text) {
                Some(mode) => mode,
                None => c.auth_mode,
            },
            None => c.auth_mode,
        },
        addr: match env.addr {
            Some(addr) => addr,
            None => c.addr,
        },
    }
}

/// The settings that a file, where one was read, and the environment give.
pub open spec fn loaded_config(file: Option<ConfigModel>, env: EnvModel) -> ConfigModel {
    with_overrides(
        match file {
            Some(c) => c,
            None => default_config(),
        },
        env,
    )
}

/// What optional settings hold.
pub open spec fn config_model(file: Option<Config>) -> Option<ConfigModel> {
    match file {
        Some(c) => Some(c@),
        None => None,
    }
}

impl Default for Config {
    fn default() -> (r: Self)
        ensures
            r@ == default_config(),
            r.is_well_formed(),
    {
        let r = Config {
            lambda_function_name: String::new(),
            lambda_invoke_mode: LambdaInvokeMode::Buffered,
            api_keys: Vec::new(),
            auth_mode: AuthMode::Open,
            addr: default_addr(),
        };
        assert(r@.api_keys =~= Set::empty());
        r
    }
}

/// Whether `key` is one of `keys`.
pub fn contains_key(keys: &Vec<String>, key: &str) -> (r: bool)
    ensures
        r == texts_model(keys@).to_set().contains(key@),
{
    let mut i: usize = 0;
    while i < keys.len()
        invariant
            i <= keys.len(),
            forall|j: int| 0 <= j < i ==> #[trigger] texts_model(keys@)[j] != key@,
        decreases keys.len() - i,
    {
        if text_eq(keys[i].as_str(), key) {
            assert(texts_model(keys@)[i as int] == key@);
            return true;
        }
        i += 1;
    }
    false
}

/// Splits a comma-separated list of API keys. Empty fields are passed over,
/// and a key that occurs again is kept once.
pub fn parse_api_keys(text: &str) -> (r: Vec<String>)
    ensures
        texts_model(r@).to_set() == keys_of_text(text@),
        texts_model(r@).no_duplicates(),
{
    let n: usize = text.unicode_len();
    let mut out: Vec<String> = Vec::new();
    let mut start: usize = 0;
    let mut i: usize = 0;
    while i < n
        invariant
            n == text@.len(),
            start <= i <= n,
            forall|j: int| start <= j < i ==> #[trigger] text@[j] != ',',
            start == 0 || text@[start - 1] == ',',
            texts_model(out@).to_set() == keys_before(text@, start as int),
            texts_model(out@).no_duplicates(),
        decreases n - i,
    {
        if text.get_char(i) == ',' {
            proof {
                lemma_keys_through_field(text@, start as int, i as int);
            }
            if i > start {
                let key = text.substring_char(start, i);
                if !contains_key(&out, key) {
                    let ghost before = texts_model(out@);
                    out.push(key.to_owned());
                    proof {
                        assert(texts_model(out@) =~= before.push(key@));
                        assert(before.push(key@).to_set() =~= before.to_set().insert(key@)) by {
                            lemma_push_to_set(before, key@);
                        }
                    }
                } else {
                    assert(texts_model(out@).to_set().insert(key@) =~= texts_model(out@).to_set());
                }
            }
            start = i + 1;
        }
        i += 1;
    }
    proof {
        lemma_keys_through_field(text@, start as int, n as int);
    }
    if n > start {
        let key = text.substring_char(start, n);
        if !contains_key(&out, key) {
            let ghost before = texts_model(out@);
            out.push(key.to_owned());
            proof {
                assert(texts_model(out@) =~= before.push(key@));
                assert(before.push(key@).to_set() =~= before.to_set().insert(key@)) by {
                    lemma_push_to_set(before, key@);
                }
            }
        } else {
            assert(texts_model(out@).to_set().insert(key@) =~= texts_model(out@).to_set());
        }
    }
    out
}

/// The set of a sequence with one more element is the sequence's set with
/// that element.
proof fn lemma_push_to_set(s: Seq<Seq<char>>, x: Seq<char>)
    ensures
        s.push(x).to_set() =~= s.to_set().insert(x),
{
    assert forall|k: Seq<char>| s.push(x).to_set().contains(k) <==> s.to_set().insert(x).contains(
        k,
    ) by {
        if s.push(x).to_set().contains(k) {
            let i = choose|i: int| 0 <= i < s.push(x).len() && s.push(x)[i] == k;
            if i < s.len() {
                assert(s[i] == k);
            }
        }
        if s.to_set().contains(k) {
            let i = choose|i: int| 0 <= i < s.len() && s[i] == k;
            assert(s.push(x)[i] == k);
        }
        if k == x {
            assert(s.push(x)[s.len() as int] == k);
        }
    }
}

/// Where `text[start..end]` is a field, the keys that end before `end + 1`
/// are those that end before `start`, and that field if it is not empty.
proof fn lemma_keys_through_field(text: Seq<char>, start: int, end: int)
    requires
        is_field(text, start, end),
    ensures
        keys_before(text, end + 1) == if start < end {
            keys_before(text, start).insert(text.subrange(start, end))
        } else {
            keys_before(text, start)
        },
{
    let through = keys_before(text, end + 1);
    let before = keys_before(text, start);
    let field = text.subrange(start, end);
    assert forall|k: Seq<char>| through.contains(k) implies before.contains(k) || (start < end && k
        == field) by {
        let (a, b) = choose|a: int, b: int|
            #[trigger] is_field(text, a, b) && a < b < end + 1 && k == text.subrange(a, b);
        if b >= start {
            if b < end {
                assert(text[b] == ',');
            }
            assert(b == end);
            if a > start {
                assert(text[a - 1] == ',');
            }
            if a < start {
                assert(text[start - 1] == ',');
            }
            assert(a == start);
        } else {
            assert(is_field(text, a, b) && a < b < start && k == text.subrange(a, b));
        }
    }
    assert forall|k: Seq<char>| before.contains(k) implies through.contains(k) by {
        let (a, b) = choose|a: int, b: int|
            #[trigger] is_field(text, a, b) && a < b < start && k == text.subrange(a, b);
        assert(is_field(text, a, b) && a < b < end + 1 && k == text.subrange(a, b));
    }
    if start < end {
        assert(is_field(text, start, end) && start < end < end + 1 && field == text.subrange(
            start,
            end,
        ));
        assert(through.contains(field));
        assert(through =~= before.insert(field));
    } else {
        assert(through =~= before);
    }
}

impl Config {
    /// Whether the API keys are a set: none is listed twice.
    pub open spec fn is_well_formed(&self) -> bool {
        texts_model(self.api_keys@).no_duplicates()
    }

    /// Whether settings with these overrides name a function to invoke.
    pub open spec fn names_function(c: ConfigModel, env: EnvModel) -> bool {
        match env.lambda_function_name {
            Some(name) => name.len() > 0,
            None => c.lambda_function_name.len() > 0,
        }
    }

    /// Makes the settings of what a file gave, if one was read, and of what
    /// the environment sets. Settings that name no function are left out:
    /// without one there is nothing to invoke.
    pub fn load(file: Option<Config>, env: &EnvOverrides) -> (r: Config)
        requires
            Config::names_function(
                match file {
                    Some(c) => c@,
                    None => default_config(),
                },
                env@,
            ),
        ensures
            r@ == loaded_config(config_model(file), env@),
            (file matches Some(c) ==> c.is_well_formed()) ==> r.is_well_formed(),
    {
        let mut config = match file {
            Some(c) => c,
            None => Config::default(),
        };
        config.apply_env_overrides(env);
        config
    }

    /// Puts what the environment sets in place of the settings' own. A mode
    /// given in a text that names none is passed over.
    pub fn apply_env_overrides(&mut self, env: &EnvOverrides)
        requires
            Config::names_function(old(self)@, env@),
        ensures
            final(self)@ == with_overrides(old(self)@, env@),
            old(self).is_well_formed() ==> final(self).is_well_formed(),
    {
        match &env.lambda_function_name {
            Some(name) => {
                self.lambda_function_name = name.clone();
            },
            None => {},
        }
        match &env.lambda_invoke_mode {
            Some(text) => match LambdaInvokeMode::from_str(text.as_str()) {
                Ok(mode) => {
                    self.lambda_invoke_mode = mode;
                },
                Err(_) => {},
            },
            None => {},
        }
        match &env.api_keys {
            Some(text) => {
                self.api_keys = parse_api_keys(text.as_str());
            },
            None => {},
        }
        match &env.auth_mode {
            Some(text) => match AuthMode::from_str(text.as_str()) {
                Ok(mode) => {
                    self.auth_mode = mode;
                },
                Err(_) => {},
            },
            None => {},
        }
        match &env.addr {
            Some(addr) => {
                self.addr = addr.clone();
            },
            None => {},
        }
    }
}

} // verus!
