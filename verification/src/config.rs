//! The gateway's configuration, and how it is read from environment variables.
use vstd::prelude::*;

use crate::assoc::{file_under, lookup};
use crate::text::{concat, ends_with, is_prefix, is_suffix, lower_text, owned, same_text, starts_with, to_lower, to_upper, trim_end_all, trim_end_matches, trim_start_all, trim_start_matches, upper_text};

verus! {

#[derive(Clone, Debug)]
pub struct Config {
    pub server: ServerConfig,
    /// The providers, each under its name.
    pub providers: Vec<(String, ProviderConfig)>,
}

#[derive(Clone, Debug)]
pub struct ServerConfig {
    pub host: String,
    pub port: u16,
    /// The key that clients must present; without one the gateway is open.
    pub api_key: Option<String>,
}

#[derive(Clone, Debug)]
pub struct ProviderConfig {
    pub base_url: String,
    pub api_key: String,
    /// The name of the request format that the provider's clients send ("openai",
    /// "anthropic", "ollama" or a registered custom format); without one the format is
    /// detected from each request.
    pub input: Option<String>,
    pub output: OutputFormat,
}

#[derive(Clone, Copy, Debug, PartialEq, Eq, Structural)]
pub enum OutputFormat {
    OpenAiCompatible,
    Anthropic,
    Ollama,
}

/// What reading the configuration from the environment can fail on: a variable that must be
/// set is not.
#[derive(Debug)]
pub enum ConfigError {
    /// The named provider API key variable is not set.
    MissingVar(String),
}

/// The content of a provider's configuration.
pub struct ProviderView {
    pub base_url: Seq<char>,
    pub api_key: Seq<char>,
    pub input: Option<Seq<char>>,
    pub output: OutputFormat,
}

impl View for ProviderConfig {
    type V = ProviderView;

    open spec fn view(&self) -> ProviderView {
        ProviderView {
            base_url: self.base_url@,
            api_key: self.api_key@,
            input: crate::views::opt_text(self.input),
            output: self.output,
        }
    }
}

/// The value of the first variable named `key`.
pub open spec fn env_value(vars: Seq<(String, String)>, key: Seq<char>) -> Option<Seq<char>>
    decreases vars.len(),
{
    if vars.len() == 0 {
        None
    } else if vars[0].0@ == key {
        Some(vars[0].1@)
    } else {
        env_value(vars.drop_first(), key)
    }
}

/// The value of a decimal digit character.
pub open spec fn digit_value(c: char) -> nat {
    ((c as u32) - 48) as nat
}

pub open spec fn is_digit(c: char) -> bool {
    48 <= c as u32 <= 57
}

/// The number that a string of decimal digits writes.
pub open spec fn digits_value(s: Seq<char>) -> nat
    decreases s.len(),
{
    if s.len() == 0 {
        0
    } else {
        digits_value(s.drop_last()) * 10 + digit_value(s.last())
    }
}

/// The digits of an unsigned number: the text after an optional leading '+'.
pub open spec fn unsigned_digits(s: Seq<char>) -> Seq<char> {
    if s.len() > 0 && s[0] == '+' {
        s.drop_first()
    } else {
        s
    }
}

/// What `str::parse::<u16>` gives: an optional '+' followed by at least one decimal digit and
/// nothing else, of a value that fits in a `u16`.
pub open spec fn parse_u16(s: Seq<char>) -> Option<u16> {
    let d = unsigned_digits(s);
    if d.len() > 0 && (forall|i: int| 0 <= i < d.len() ==> is_digit(#[trigger] d[i])) && digits_value(d)
        <= 65535 {
        Some(digits_value(d) as u16)
    } else {
        None
    }
}

/// A number of decimal digits is at least the number its prefix writes.
proof fn lemma_digits_value_grows(s: Seq<char>, k: int)
    requires
        0 <= k <= s.len(),
        forall|i: int| 0 <= i < s.len() ==> is_digit(#[trigger] s[i]),
    ensures
        digits_value(s.subrange(0, k)) <= digits_value(s),
    decreases s.len() - k,
{
    if k < s.len() {
        lemma_digits_value_grows(s, k + 1);
        assert(s.subrange(0, k + 1).drop_last() =~= s.subrange(0, k));
    } else {
        assert(s.subrange(0, k) =~= s);
    }
}

/// Parses a port number as `str::parse::<u16>` does.
pub fn parse_port(s: &str) -> (r: Option<u16>)
    ensures
        r == parse_u16(s@),
{
    let cs = crate::text::chars_of(s);
    let start: usize = if cs.len() > 0 && cs[0] == '+' { 1 } else { 0 };
    let ghost d = unsigned_digits(s@);
    assert(d =~= s@.subrange(start as int, s@.len() as int));
    if start == cs.len() {
        return None;
    }
    let mut value: u32 = 0;
    let mut i: usize = start;
    while i < cs.len()
        invariant
            start <= i <= cs.len(),
            cs@ == s@,
            d == s@.subrange(start as int, s@.len() as int),
            d == unsigned_digits(s@),
            d.len() > 0,
            forall|j: int| start <= j < i ==> is_digit(#[trigger] cs@[j]),
            value == digits_value(s@.subrange(start as int, i as int)),
            value <= 65535,
        decreases cs.len() - i,
    {
        let cv: u32 = #[verifier::truncate] (cs[i] as u32);
        if cv < 48 || cv > 57 {
            proof {
                assert(!is_digit(d[i - start]));
                assert(!(forall|j: int| 0 <= j < d.len() ==> is_digit(#[trigger] d[j])));
                assert(parse_u16(s@) is None);
            }
            return None;
        }
        let dv: u32 = cv - 48;
        assert(s@.subrange(start as int, i + 1).drop_last() =~= s@.subrange(start as int, i as int));
        if value > 6553 || value * 10 + dv > 65535 {
            proof {
                assert(digits_value(s@.subrange(start as int, i + 1)) == value * 10 + dv);
                assert(digits_value(s@.subrange(start as int, i + 1)) > 65535) by (nonlinear_arith)
                    requires
                        digits_value(s@.subrange(start as int, i + 1)) == value * 10 + dv,
                        value > 6553 || value * 10 + dv > 65535,
                ;
                let rest = s@.subrange(start as int, s@.len() as int);
                if forall|j: int| 0 <= j < rest.len() ==> is_digit(#[trigger] rest[j]) {
                    lemma_digits_value_grows(rest, i + 1 - start);
                    assert(rest.subrange(0, i + 1 - start) =~= s@.subrange(start as int, i + 1));
                    assert(digits_value(rest) > 65535);
                }
                assert(parse_u16(s@) is None);
            }
            return None;
        }
        value = value * 10 + dv;
        i = i + 1;
    }
    proof {
        assert(s@.subrange(start as int, i as int) =~= d);
        assert forall|j: int| 0 <= j < d.len() implies is_digit(#[trigger] d[j]) by {
            assert(d[j] == cs@[start + j]);
        }
    }
    Some(value as u16)
}

/// The provider name that an environment variable's name gives, if it names a provider's
/// base URL: `PROVIDER_<NAME>_BASE_URL`, with every leading "PROVIDER_" and every trailing
/// "_BASE_URL" taken off, in lower case.
pub open spec fn provider_name_of(key: Seq<char>) -> Option<Seq<char>> {
    if is_prefix("PROVIDER_"@, key) && is_suffix("_BASE_URL"@, key) {
        Some(lower_text(trim_end_all(trim_start_all(key, "PROVIDER_"@), "_BASE_URL"@)))
    } else {
        None
    }
}

/// The variable that holds a provider's API key.
pub open spec fn api_key_var(name: Seq<char>) -> Seq<char> {
    "PROVIDER_"@ + upper_text(name) + "_API_KEY"@
}

/// The variable that holds a provider's input format.
pub open spec fn input_var(name: Seq<char>) -> Seq<char> {
    "PROVIDER_"@ + upper_text(name) + "_INPUT"@
}

/// Provider names occur at most once.
pub open spec fn providers_distinct(providers: Seq<(String, ProviderConfig)>) -> bool {
    forall|i: int, j: int| 0 <= i < j < providers.len() ==> #[trigger] providers[i].0@ != #[trigger] providers[j].0@
}

/// The variable that holds a provider's output format.
pub open spec fn output_var(name: Seq<char>) -> Seq<char> {
    "PROVIDER_"@ + upper_text(name) + "_OUTPUT"@
}

/// "anthropic" selects the Anthropic format and "ollama" the Ollama format; any other
/// value, or none, the OpenAI one.
pub open spec fn output_format_of(value: Option<Seq<char>>) -> OutputFormat {
    if value == Some("anthropic"@) {
        OutputFormat::Anthropic
    } else if value == Some("ollama"@) {
        OutputFormat::Ollama
    } else {
        OutputFormat::OpenAiCompatible
    }
}

/// The providers that the first `n` variables configure, each under its name (a later one
/// replacing an earlier one of the same name), or the API key variable found missing first.
pub open spec fn env_providers(vars: Seq<(String, String)>, n: nat) -> Result<
    Map<Seq<char>, ProviderView>,
    Seq<char>,
>
    decreases n,
{
    if n == 0 {
        Ok(Map::empty())
    } else {
        match env_providers(vars, (n - 1) as nat) {
            Err(e) => Err(e),
            Ok(m) => {
                let (key, value) = vars[n - 1];
                match provider_name_of(key@) {
                    None => Ok(m),
                    Some(name) => match env_value(vars, api_key_var(name)) {
                        None => Err(api_key_var(name)),
                        Some(api_key) => Ok(
                            m.insert(
                                name,
                                ProviderView {
                                    base_url: value@,
                                    api_key,
                                    input: env_value(vars, input_var(name)),
                                    output: output_format_of(env_value(vars, output_var(name))),
                                },
                            ),
                        ),
                    },
                }
            },
        }
    }
}

/// The view of an optional provider.
pub open spec fn provider_view(p: Option<ProviderConfig>) -> Option<ProviderView> {
    match p {
        Some(p) => Some(p@),
        None => None,
    }
}

/// The map's entry for `name`, if any.
pub open spec fn map_get<V>(m: Map<Seq<char>, V>, name: Seq<char>) -> Option<V> {
    if m.contains_key(name) {
        Some(m[name])
    } else {
        None
    }
}

/// The value of the variable named `key`, the first one if there are several.
pub fn env_var(vars: &Vec<(String, String)>, key: &str) -> (r: Option<String>)
    ensures
        r matches Some(v) ==> env_value(vars@, key@) == Some(v@),
        r is None ==> env_value(vars@, key@) is None,
{
    let mut i: usize = 0;
    assert(vars@.skip(0) =~= vars@);
    while i < vars.len()
        invariant
            i <= vars.len(),
            env_value(vars@, key@) == env_value(vars@.skip(i as int), key@),
        decreases vars.len() - i,
    {
        assert(vars@.skip(i as int).drop_first() =~= vars@.skip(i + 1));
        if same_text(vars[i].0.as_str(), key) {
            return Some(owned(vars[i].1.as_str()));
        }
        i = i + 1;
    }
    None
}

/// Once a provider's API key is found missing, reading more variables keeps that error.
proof fn lemma_env_providers_err(vars: Seq<(String, String)>, k: nat, n: nat)
    requires
        k <= n,
        env_providers(vars, k) is Err,
    ensures
        env_providers(vars, n) == env_providers(vars, k),
    decreases n - k,
{
    if k < n {
        lemma_env_providers_err(vars, k, (n - 1) as nat);
    }
}

impl Config {
    /// Reads the configuration from environment variables, given as name and value pairs:
    /// `PROXY_HOST` (default "0.0.0.0"), `PROXY_PORT` (default 8888, also where it is not a
    /// port number), `PROXY_API_KEY` (optional; without it the gateway is open), and for each
    /// `PROVIDER_<NAME>_BASE_URL` a provider named `<name>` in lower case, with its API key
    /// from `PROVIDER_<NAME>_API_KEY` (required), its input format from
    /// `PROVIDER_<NAME>_INPUT` (optional) and its output format from
    /// `PROVIDER_<NAME>_OUTPUT` ("anthropic", "ollama", or else OpenAI-compatible).
    #[verifier::loop_isolation(false)]
    pub fn from_env_vars(vars: &Vec<(String, String)>) -> (r: Result<Config, ConfigError>)
        ensures
            match env_providers(vars@, vars@.len()) {
                Err(missing) => r matches Err(ConfigError::MissingVar(v)) && v@ == missing,
                Ok(m) => r matches Ok(c) && {
                    &&& c.server.host@ == match env_value(vars@, "PROXY_HOST"@) {
                        Some(h) => h,
                        None => "0.0.0.0"@,
                    }
                    &&& c.server.port == match env_value(vars@, "PROXY_PORT"@) {
                        Some(p) => match parse_u16(p) {
                            Some(n) => n,
                            None => 8888u16,
                        },
                        None => 8888u16,
                    }
                    &&& crate::views::opt_text(c.server.api_key) == env_value(vars@, "PROXY_API_KEY"@)
                    &&& forall|n: Seq<char>| #[trigger] provider_view(lookup(c.providers@, n)) == map_get(m, n)
                    &&& providers_distinct(c.providers@)
                },
            },
    {
        proof {
            reveal_strlit("PROXY_HOST");
            reveal_strlit("0.0.0.0");
            reveal_strlit("PROXY_PORT");
            reveal_strlit("PROXY_API_KEY");
            reveal_strlit("PROVIDER_");
            reveal_strlit("_BASE_URL");
            reveal_strlit("_API_KEY");
            reveal_strlit("_OUTPUT");
            reveal_strlit("_INPUT");
            reveal_strlit("anthropic");
        }
        let host = match env_var(vars, "PROXY_HOST") {
            Some(h) => h,
            None => owned("0.0.0.0"),
        };
        let port: u16 = match env_var(vars, "PROXY_PORT") {
            Some(p) => match parse_port(p.as_str()) {
                Some(n) => n,
                None => 8888,
            },
            None => 8888,
        };
        let api_key = env_var(vars, "PROXY_API_KEY");
        let mut providers: Vec<(String, ProviderConfig)> = Vec::new();
        // Parse providers from env
        // Format: PROVIDER_<NAME>_BASE_URL, PROVIDER_<NAME>_API_KEY, PROVIDER_<NAME>_INPUT,
        // PROVIDER_<NAME>_OUTPUT
        let mut i: usize = 0;
        while i < vars.len()
            invariant
                i <= vars.len(),
                env_providers(vars@, i as nat) is Ok,
                forall|n: Seq<char>| #[trigger] provider_view(lookup(providers@, n)) == map_get(env_providers(vars@, i as nat)->Ok_0, n),
                forall|a: int, b: int| 0 <= a < b < providers@.len() ==> #[trigger] providers@[a].0@ != #[trigger] providers@[b].0@,
            decreases vars.len() - i,
        {
            let key = vars[i].0.as_str();
            if starts_with(key, "PROVIDER_") && ends_with(key, "_BASE_URL") {
                let trimmed = trim_start_matches(key, "PROVIDER_");
                let stem = trim_end_matches(trimmed.as_str(), "_BASE_URL");
                let name = to_lower(stem.as_str());
                let base_url = owned(vars[i].1.as_str());
                let upper = to_upper(name.as_str());
                let prefix = concat("PROVIDER_", upper.as_str());
                let key_var = concat(prefix.as_str(), "_API_KEY");
                let provider_key = match env_var(vars, key_var.as_str()) {
                    Some(k) => k,
                    None => {
                        proof {
                            lemma_env_providers_err(vars@, (i + 1) as nat, vars@.len());
                        }
                        return Err(ConfigError::MissingVar(key_var));
                    },
                };
                let input_var_name = concat(prefix.as_str(), "_INPUT");
                let input = env_var(vars, input_var_name.as_str());
                let output_var_name = concat(prefix.as_str(), "_OUTPUT");
                let output = match env_var(vars, output_var_name.as_str()) {
                    Some(o) => o,
                    None => owned("openai-compatible"),
                };
                let output_format = if same_text(output.as_str(), "anthropic") {
                    OutputFormat::Anthropic
                } else if same_text(output.as_str(), "ollama") {
                    OutputFormat::Ollama
                } else {
                    OutputFormat::OpenAiCompatible
                };
                proof {
                    reveal_strlit("openai-compatible");
                    reveal_strlit("ollama");
                    assert("openai-compatible"@ != "anthropic"@) by {
                        assert("openai-compatible"@.len() != "anthropic"@.len());
                    }
                    assert("openai-compatible"@ != "ollama"@) by {
                        assert("openai-compatible"@.len() != "ollama"@.len());
                    }
                }
                let ghost before = providers@;
                file_under(&mut providers, name, ProviderConfig { base_url, api_key: provider_key, input, output: output_format });
                proof {
                    let m = env_providers(vars@, i as nat)->Ok_0;
                    assert forall|n: Seq<char>| #[trigger] provider_view(lookup(providers@, n)) == map_get(env_providers(vars@, (i + 1) as nat)->Ok_0, n) by {
                        assert(provider_view(lookup(before, n)) == map_get(m, n));
                    }
                }
            }
            i = i + 1;
        }
        Ok(Config { server: ServerConfig { host, port, api_key }, providers })
    }
}

/// The variable `PROVIDER_<X>_BASE_URL` configures the provider named `<X>` in lower case,
/// for every `<X>` that does not itself begin with "PROVIDER_" (after which the key goes on
/// with "_BASE_URL") nor end with "_BASE_URL", since every such copy is taken off as well.
pub proof fn law_provider_named_by_key(x: Seq<char>)
    requires
        !is_prefix("PROVIDER_"@, x + "_BASE_URL"@),
        !is_suffix("_BASE_URL"@, x),
    ensures
        provider_name_of("PROVIDER_"@ + x + "_BASE_URL"@) == Some(lower_text(x)),
{
    reveal_strlit("PROVIDER_");
    reveal_strlit("_BASE_URL");
    let p = "PROVIDER_"@;
    let s = "_BASE_URL"@;
    let key = p + x + s;
    assert(is_prefix(p, key)) by {
        assert(key.subrange(0, p.len() as int) =~= p);
    }
    assert(is_suffix(s, key)) by {
        assert(key.subrange(key.len() - s.len(), key.len() as int) =~= s);
    }
    let rest = key.subrange(p.len() as int, key.len() as int);
    assert(rest =~= x + s);
    assert(trim_start_all(key, p) == trim_start_all(x + s, p));
    assert(trim_start_all(x + s, p) == x + s);
    assert(is_suffix(s, x + s)) by {
        assert((x + s).subrange((x + s).len() - s.len(), (x + s).len() as int) =~= s);
    }
    assert((x + s).subrange(0, (x + s).len() - s.len()) =~= x);
    assert(trim_end_all(x + s, s) == trim_end_all(x, s));
    assert(trim_end_all(x, s) == x);
}

} // verus!
