//! Settings logic: scrubbing proxy credentials out of the configuration
//! document, workflow-name validation, choosing the default model for a
//! provider, and the desktop shell's window-close rule.

use vstd::prelude::*;

use crate::errors::LLMError;
use crate::json::{jmodel, jmodel_fields, Json, JsonV};
use crate::paths::contains_sub;
use crate::strutil::{chars_to_string, push_str_chars, str_to_chars, string_eq_str};

verus! {

broadcast use vstd::string::group_string_axioms;

/// Fields that survive the credential scrub: everything but the proxy
/// authentication, plain or encrypted.
pub open spec fn keeps_auth(f: (Seq<char>, JsonV)) -> bool {
    f.0 != "proxy_auth"@ && f.0 != "proxy_auth_encrypted"@
}

/// Remove the proxy credentials from a configuration object; anything
/// that is not an object passes through.
#[verifier::loop_isolation(false)]
pub fn strip_proxy_auth(config: Json) -> (r: Json)
    ensures
        jmodel(config) matches JsonV::Obj(fs) ==> jmodel(r) == JsonV::Obj(
            fs.filter(|f: (Seq<char>, JsonV)| keeps_auth(f)),
        ),
        !(jmodel(config) is Obj) ==> jmodel(r) == jmodel(config),
{
    match config {
        Json::Obj(fields) => {
            let ghost fs = jmodel_fields(fields@, 0);
            let ghost pred = |f: (Seq<char>, JsonV)| keeps_auth(f);
            proof {
                crate::json::lemma_jmodel_fields(fields@, 0);
                reveal(Seq::filter);
                assert(fs.take(0).filter(pred) =~= Seq::<(Seq<char>, JsonV)>::empty());
            }
            let n = fields.len();
            let mut out: Vec<(String, Json)> = Vec::new();
            let mut i: usize = 0;
            while i < n
                invariant
                    0 <= i <= n,
                    n == fields@.len(),
                    fs == jmodel_fields(fields@, 0),
                    fs.len() == n,
                    forall|k: int|
                        0 <= k < n ==> #[trigger] fs[k] == (fields@[k].0@, jmodel(fields@[k].1)),
                    jmodel_fields(out@, 0) == fs.take(i as int).filter(pred),
                decreases n - i,
            {
                proof {
                    reveal(Seq::filter);
                    assert(fs.take(i as int + 1).drop_last() =~= fs.take(i as int));
                    assert(fs.take(i as int + 1).last() == fs[i as int]);
                }
                let name = &fields[i].0;
                if !string_eq_str(name, "proxy_auth") && !string_eq_str(
                    name,
                    "proxy_auth_encrypted",
                ) {
                    let ghost pre = out@;
                    let v = crate::openai::clone_json(&fields[i].1);
                    out.push((name.clone(), v));
                    proof {
                        crate::json::lemma_jmodel_fields(pre, 0);
                        crate::json::lemma_jmodel_fields(out@, 0);
                        assert(jmodel_fields(out@, 0) =~= jmodel_fields(pre, 0).push(
                            fs[i as int],
                        ));
                    }
                }
                i = i + 1;
            }
            proof {
                assert(fs.take(n as int) =~= fs);
            }
            Json::Obj(out)
        },
        other => other,
    }
}

/// Fields that survive the empty-proxy scrub: a proxy URL field stays
/// only when it is a non-empty string.
pub open spec fn keeps_proxy(f: (Seq<char>, JsonV)) -> bool {
    (f.0 == "http_proxy"@ || f.0 == "https_proxy"@) ==> (f.1 matches JsonV::Str(s) && s.len()
        > 0)
}

/// Remove empty or malformed proxy URL fields from a configuration
/// object; anything that is not an object passes through.
#[verifier::loop_isolation(false)]
pub fn clean_empty_proxy_fields(config: Json) -> (r: Json)
    ensures
        jmodel(config) matches JsonV::Obj(fs) ==> jmodel(r) == JsonV::Obj(
            fs.filter(|f: (Seq<char>, JsonV)| keeps_proxy(f)),
        ),
        !(jmodel(config) is Obj) ==> jmodel(r) == jmodel(config),
{
    match config {
        Json::Obj(fields) => {
            let ghost fs = jmodel_fields(fields@, 0);
            let ghost pred = |f: (Seq<char>, JsonV)| keeps_proxy(f);
            proof {
                crate::json::lemma_jmodel_fields(fields@, 0);
                reveal(Seq::filter);
                assert(fs.take(0).filter(pred) =~= Seq::<(Seq<char>, JsonV)>::empty());
            }
            let n = fields.len();
            let mut out: Vec<(String, Json)> = Vec::new();
            let mut i: usize = 0;
            while i < n
                invariant
                    0 <= i <= n,
                    n == fields@.len(),
                    fs == jmodel_fields(fields@, 0),
                    fs.len() == n,
                    forall|k: int|
                        0 <= k < n ==> #[trigger] fs[k] == (fields@[k].0@, jmodel(fields@[k].1)),
                    jmodel_fields(out@, 0) == fs.take(i as int).filter(pred),
                decreases n - i,
            {
                proof {
                    reveal(Seq::filter);
                    assert(fs.take(i as int + 1).drop_last() =~= fs.take(i as int));
                    assert(fs.take(i as int + 1).last() == fs[i as int]);
                }
                let name = &fields[i].0;
                let is_proxy_key = string_eq_str(name, "http_proxy") || string_eq_str(
                    name,
                    "https_proxy",
                );
                let keep = if is_proxy_key {
                    match &fields[i].1 {
                        Json::Str(s) => {
                            let sc = str_to_chars(s.as_str());
                            sc.len() > 0
                        },
                        _ => false,
                    }
                } else {
                    true
                };
                if keep {
                    let ghost pre = out@;
                    let v = crate::openai::clone_json(&fields[i].1);
                    out.push((name.clone(), v));
                    proof {
                        crate::json::lemma_jmodel_fields(pre, 0);
                        crate::json::lemma_jmodel_fields(out@, 0);
                        assert(jmodel_fields(out@, 0) =~= jmodel_fields(pre, 0).push(
                            fs[i as int],
                        ));
                    }
                }
                i = i + 1;
            }
            proof {
                assert(fs.take(n as int) =~= fs);
            }
            Json::Obj(out)
        },
        other => other,
    }
}

/// A workflow name is safe when it is non-empty and holds no path
/// separator and no parent-directory reference.
pub open spec fn spec_is_safe_workflow_name(name: Seq<char>) -> bool {
    &&& name.len() > 0
    &&& !name.contains('/')
    &&& !name.contains('\\')
    &&& !contains_sub(name, ".."@)
}

/// Executable mirror of [`spec_is_safe_workflow_name`].
#[verifier::loop_isolation(false)]
pub fn is_safe_workflow_name(name: &str) -> (r: bool)
    ensures
        r == spec_is_safe_workflow_name(name@),
{
    let cs = str_to_chars(name);
    if cs.len() == 0 {
        return false;
    }
    let n = cs.len();
    let mut i: usize = 0;
    while i < n
        invariant
            0 <= i <= n,
            n == cs@.len(),
            forall|k: int| 0 <= k < i ==> cs@[k] != '/' && cs@[k] != '\\',
        decreases n - i,
    {
        if cs[i] == '/' || cs[i] == '\\' {
            return false;
        }
        i = i + 1;
    }
    proof {
        if name@.contains('/') {
            let k = choose|k: int| 0 <= k < name@.len() && name@[k] == '/';
        }
        if name@.contains('\\') {
            let k = choose|k: int| 0 <= k < name@.len() && name@[k] == '\\';
        }
    }
    !crate::paths::contains_str(&cs, "..")
}

/// The desktop shell exits exactly when the window named `main` asks to
/// close.
pub fn should_exit_on_main_window_close(label: &str, is_close_requested: bool) -> (r: bool)
    ensures
        r == (label@ == "main"@ && is_close_requested),
{
    let lc = str_to_chars(label);
    crate::strutil::chars_eq_str(&lc, "main") && is_close_requested
}

// ---------------------------------------------------------------------------
// Provider configuration and the default model
// ---------------------------------------------------------------------------

/// Credentials of one proxy user.
#[derive(Debug, Clone)]
pub struct ProxyAuth {
    pub username: String,
    pub password: String,
}

/// One provider's connection settings.
#[derive(Debug, Clone)]
pub struct ProviderConfig {
    pub api_key: String,
    pub base_url: Option<String>,
    pub model: Option<String>,
}

/// The configured providers.
#[derive(Debug, Clone)]
pub struct ProviderConfigs {
    pub openai: Option<ProviderConfig>,
    pub anthropic: Option<ProviderConfig>,
    pub gemini: Option<ProviderConfig>,
    pub copilot: Option<ProviderConfig>,
}

/// The application configuration, as far as the core reads it.
#[derive(Debug, Clone)]
pub struct Config {
    pub provider: String,
    pub providers: ProviderConfigs,
    pub http_proxy: String,
    pub https_proxy: String,
    pub proxy_auth: Option<ProxyAuth>,
    pub model: Option<String>,
    pub headless_auth: bool,
}

/// The default model a provider selection yields: the configured model of
/// the named provider; the fallback for the built-in provider; an
/// authentication error naming what is missing otherwise.
pub fn get_default_model_from_config(config: &Config) -> (r: Result<String, LLMError>)
    ensures
        config.provider@ == "copilot"@ ==> (r matches Ok(m) && m@ == (
        match config.model {
            Some(x) => x@,
            None => "gpt-4o"@,
        })),
        config.provider@ == "openai"@ && config.providers.openai is None ==> (r matches Err(
            e,
        ) && (e matches LLMError::Auth(msg) && msg@ == "OpenAI configuration required"@)),
        config.provider@ == "openai"@ ==> (config.providers.openai matches Some(p) ==> (
        (p.model is None ==> (r matches Err(e) && (e matches LLMError::Auth(msg) && msg@
            == "OpenAI model must be specified in config"@))) && (p.model matches Some(x) ==> (
        r matches Ok(m) && m@ == x@)))),
        config.provider@ == "anthropic"@ && config.providers.anthropic is None ==> (r matches Err(
            e,
        ) && (e matches LLMError::Auth(msg) && msg@ == "Anthropic configuration required"@)),
        config.provider@ == "anthropic"@ ==> (config.providers.anthropic matches Some(p) ==> (
        (p.model is None ==> (r matches Err(e) && (e matches LLMError::Auth(msg) && msg@
            == "Anthropic model must be specified in config"@))) && (p.model matches Some(x) ==> (
        r matches Ok(m) && m@ == x@)))),
        config.provider@ == "gemini"@ && config.providers.gemini is None ==> (r matches Err(
            e,
        ) && (e matches LLMError::Auth(msg) && msg@ == "Gemini configuration required"@)),
        config.provider@ == "gemini"@ ==> (config.providers.gemini matches Some(p) ==> (
        (p.model is None ==> (r matches Err(e) && (e matches LLMError::Auth(msg) && msg@
            == "Gemini model must be specified in config"@))) && (p.model matches Some(x) ==> (
        r matches Ok(m) && m@ == x@)))),
        config.provider@ != "copilot"@ && config.provider@ != "openai"@ && config.provider@
            != "anthropic"@ && config.provider@ != "gemini"@ ==> (r matches Err(e) && (e matches
        LLMError::Auth(msg) && msg@ == "Unknown provider: "@ + config.provider@)),
{
    proof {
        reveal_strlit("copilot");
        reveal_strlit("openai");
        reveal_strlit("anthropic");
        reveal_strlit("gemini");
        assert("copilot"@.len() == 7);
        assert("openai"@.len() == 6);
        assert("anthropic"@.len() == 9);
        assert("gemini"@.len() == 6);
        assert("openai"@[0] == 'o' && "gemini"@[0] == 'g');
        assert("openai"@ != "gemini"@);
    }
    if string_eq_str(&config.provider, "copilot") {
        match &config.model {
            Some(m) => Ok(m.clone()),
            None => Ok("gpt-4o".to_owned()),
        }
    } else if string_eq_str(&config.provider, "openai") {
        match &config.providers.openai {
            Some(p) => match &p.model {
                Some(m) => Ok(m.clone()),
                None => Err(
                    LLMError::Auth("OpenAI model must be specified in config".to_owned()),
                ),
            },
            None => Err(LLMError::Auth("OpenAI configuration required".to_owned())),
        }
    } else if string_eq_str(&config.provider, "anthropic") {
        match &config.providers.anthropic {
            Some(p) => match &p.model {
                Some(m) => Ok(m.clone()),
                None => Err(
                    LLMError::Auth("Anthropic model must be specified in config".to_owned()),
                ),
            },
            None => Err(LLMError::Auth("Anthropic configuration required".to_owned())),
        }
    } else if string_eq_str(&config.provider, "gemini") {
        match &config.providers.gemini {
            Some(p) => match &p.model {
                Some(m) => Ok(m.clone()),
                None => Err(
                    LLMError::Auth("Gemini model must be specified in config".to_owned()),
                ),
            },
            None => Err(LLMError::Auth("Gemini configuration required".to_owned())),
        }
    } else {
        let mut msg: Vec<char> = Vec::new();
        push_str_chars(&mut msg, "Unknown provider: ");
        push_str_chars(&mut msg, config.provider.as_str());
        Err(LLMError::Auth(chars_to_string(&msg)))
    }
}

} // verus!

// Masking credentials in the provider listing.

verus! {

/// How an API key is shown: long keys keep their first and last four
/// characters, short non-empty keys are starred out, empty keys stay.
pub open spec fn masked_key(k: Seq<char>) -> Seq<char> {
    if k.len() > 8 {
        k.take(4) + "..."@ + k.skip(k.len() - 4)
    } else if k.len() > 0 {
        "***"@
    } else {
        k
    }
}

/// One provider entry with its `api_key` string masked; everything else
/// passes through.
pub open spec fn mask_provider_entry(v: JsonV) -> JsonV {
    match v {
        JsonV::Obj(fields) => JsonV::Obj(
            fields.map_values(
                |f: (Seq<char>, JsonV)|
                    if f.0 == "api_key"@ && f.1 is Str {
                        (f.0, JsonV::Str(masked_key(f.1->Str_0)))
                    } else {
                        f
                    },
            ),
        ),
        other => other,
    }
}

/// The providers object with every entry's key masked.
pub open spec fn mask_providers_model(v: JsonV) -> JsonV {
    match v {
        JsonV::Obj(provs) => JsonV::Obj(
            provs.map_values(|p: (Seq<char>, JsonV)| (p.0, mask_provider_entry(p.1))),
        ),
        other => other,
    }
}

#[verifier::loop_isolation(false)]
fn mask_key_exec(k: &String) -> (r: String)
    ensures
        r@ == masked_key(k@),
{
    let cs = str_to_chars(k.as_str());
    let n = cs.len();
    if n > 8 {
        let mut out: Vec<char> = Vec::new();
        let mut i: usize = 0;
        while i < 4
            invariant
                0 <= i <= 4,
                n == cs@.len(),
                n > 8,
                out@ == cs@.take(i as int),
            decreases 4 - i,
        {
            out.push(cs[i]);
            proof {
                assert(out@ =~= cs@.take(i as int + 1));
            }
            i = i + 1;
        }
        push_str_chars(&mut out, "...");
        let mut j = n - 4;
        while j < n
            invariant
                n - 4 <= j <= n,
                n == cs@.len(),
                n > 8,
                out@ == cs@.take(4) + "..."@ + cs@.subrange(n - 4, j as int),
            decreases n - j,
        {
            out.push(cs[j]);
            proof {
                assert(out@ =~= cs@.take(4) + "..."@ + cs@.subrange(n - 4, j as int + 1));
            }
            j = j + 1;
        }
        proof {
            assert(cs@.subrange(n - 4, n as int) =~= cs@.skip(n - 4));
        }
        chars_to_string(&out)
    } else if n > 0 {
        "***".to_owned()
    } else {
        k.clone()
    }
}

fn mask_entry_exec(v: Json) -> (r: Json)
    ensures
        jmodel(r) == mask_provider_entry(jmodel(v)),
{
    match v {
        Json::Obj(fields) => {
            let ghost fs = jmodel_fields(fields@, 0);
            let ghost target = fs.map_values(
                |f: (Seq<char>, JsonV)|
                    if f.0 == "api_key"@ && f.1 is Str {
                        (f.0, JsonV::Str(masked_key(f.1->Str_0)))
                    } else {
                        f
                    },
            );
            proof {
                crate::json::lemma_jmodel_fields(fields@, 0);
            }
            let n = fields.len();
            let mut out: Vec<(String, Json)> = Vec::new();
            let mut i: usize = 0;
            while i < n
                invariant
                    0 <= i <= n,
                    n == fields@.len(),
                    fs == jmodel_fields(fields@, 0),
                    fs.len() == n,
                    forall|k: int|
                        0 <= k < n ==> #[trigger] fs[k] == (fields@[k].0@, jmodel(fields@[k].1)),
                    target == fs.map_values(
                        |f: (Seq<char>, JsonV)|
                            if f.0 == "api_key"@ && f.1 is Str {
                                (f.0, JsonV::Str(masked_key(f.1->Str_0)))
                            } else {
                                f
                            },
                    ),
                    out@.len() == i,
                    jmodel_fields(out@, 0) == target.take(i as int),
                decreases n - i,
            {
                let name = fields[i].0.clone();
                let is_key = string_eq_str(&name, "api_key");
                let ghost pre = out@;
                let masked_value: Json = if is_key {
                    match &fields[i].1 {
                        Json::Str(s) => Json::Str(mask_key_exec(s)),
                        other_val => crate::openai::clone_json(other_val),
                    }
                } else {
                    crate::openai::clone_json(&fields[i].1)
                };
                out.push((name, masked_value));
                proof {
                    crate::json::lemma_jmodel_fields(pre, 0);
                    crate::json::lemma_jmodel_fields(out@, 0);
                    assert(jmodel_fields(out@, 0) =~= target.take(i as int + 1));
                }
                i = i + 1;
            }
            proof {
                assert(target.take(n as int) =~= target);
            }
            Json::Obj(out)
        },
        other => other,
    }
}

/// Mask the API keys of every provider entry, for answers shown to the
/// client; the configuration on disk stays as it is.
#[verifier::loop_isolation(false)]
pub fn mask_api_keys_in_providers(providers: Json) -> (r: Json)
    ensures
        jmodel(r) == mask_providers_model(jmodel(providers)),
{
    match providers {
        Json::Obj(provs) => {
            let ghost fs = jmodel_fields(provs@, 0);
            let ghost target = fs.map_values(
                |p: (Seq<char>, JsonV)| (p.0, mask_provider_entry(p.1)),
            );
            proof {
                crate::json::lemma_jmodel_fields(provs@, 0);
            }
            let n = provs.len();
            let mut out: Vec<(String, Json)> = Vec::new();
            let mut i: usize = 0;
            while i < n
                invariant
                    0 <= i <= n,
                    n == provs@.len(),
                    fs == jmodel_fields(provs@, 0),
                    fs.len() == n,
                    forall|k: int|
                        0 <= k < n ==> #[trigger] fs[k] == (provs@[k].0@, jmodel(provs@[k].1)),
                    target == fs.map_values(
                        |p: (Seq<char>, JsonV)| (p.0, mask_provider_entry(p.1)),
                    ),
                    out@.len() == i,
                    jmodel_fields(out@, 0) == target.take(i as int),
                decreases n - i,
            {
                let name = provs[i].0.clone();
                let ghost pre = out@;
                let value = crate::openai::clone_json(&provs[i].1);
                let masked = mask_entry_exec(value);
                out.push((name, masked));
                proof {
                    crate::json::lemma_jmodel_fields(pre, 0);
                    crate::json::lemma_jmodel_fields(out@, 0);
                    assert(jmodel_fields(out@, 0) =~= target.take(i as int + 1));
                }
                i = i + 1;
            }
            proof {
                assert(target.take(n as int) =~= target);
            }
            Json::Obj(out)
        },
        other => other,
    }
}

} // verus!
