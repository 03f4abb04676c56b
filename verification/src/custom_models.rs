//! Custom model plugins declared in YAML files. Reading the files and the
//! YAML parsing are done by the application layer, which hands over each
//! parsed file as a [`RawSpec`]; this module fills in the defaults, checks
//! a spec, and decides which files are specs.

use vstd::prelude::*;
use crate::error::AppError;
use crate::text_processor::cn_numerals::{decimal, push_decimal};
use crate::text_processor::trimmed;
use crate::audio_cue::trim;
use crate::unicode::{concat, from_chars, owned, push_str_chars_string, same_text, to_chars};

verus! {

/// What a download function returns.
#[derive(Debug, Clone, Copy, PartialEq, Eq)]
pub enum DownloadReturnKind {
    Tuple,
    Dict,
    Path,
}

/// How the plugin's Python entry point is called: the function's dotted
/// path and its keyword arguments (each value as YAML text).
#[derive(Debug, Clone)]
pub struct LoadSpec {
    pub function: String,
    pub kwargs: Vec<(String, String)>,
}

/// How model files are fetched.
#[derive(Debug, Clone)]
pub enum DownloadSpec {
    HfRepos { hf_repos: Vec<String>, paths: Vec<(String, String)> },
    Function {
        function: String,
        kwargs: Vec<(String, String)>,
        returns: DownloadReturnKind,
        path_names: Vec<String>,
    },
}

/// A spec file as written, optional fields still optional.
#[derive(Debug, Clone)]
pub struct RawSpec {
    pub schema_version: u32,
    pub id: String,
    pub name: String,
    pub description: Option<String>,
    pub size_mb: u32,
    pub languages: Vec<(String, String)>,
    pub speed: u8,
    pub accuracy: u8,
    pub recommended: bool,
    pub python_module: String,
    pub pip_packages: Option<Vec<String>>,
    pub download: Option<DownloadSpec>,
    pub load: LoadSpec,
    pub transcribe_method: Option<String>,
    pub language_param: Option<String>,
}

/// A custom model plugin.
#[derive(Debug, Clone)]
pub struct CustomModelSpec {
    pub source_path: String,
    pub schema_version: u32,
    pub id: String,
    pub name: String,
    pub description: Option<String>,
    pub size_mb: u32,
    pub languages: Vec<(String, String)>,
    pub speed: u8,
    pub accuracy: u8,
    pub recommended: bool,
    pub python_module: String,
    pub pip_packages: Vec<String>,
    pub download: Option<DownloadSpec>,
    pub load: LoadSpec,
    pub transcribe_method: String,
    pub language_param: String,
}

/// The defaults a spec gets: `pip_packages` is just the module,
/// `transcribe_method` is `transcribe`, `language_param` is `language`.
pub open spec fn completed(raw: RawSpec, source_path: String, spec: CustomModelSpec) -> bool {
    &&& spec.source_path == source_path
    &&& spec.schema_version == raw.schema_version
    &&& spec.id == raw.id
    &&& spec.name == raw.name
    &&& spec.description == raw.description
    &&& spec.size_mb == raw.size_mb
    &&& spec.languages == raw.languages
    &&& spec.speed == raw.speed
    &&& spec.accuracy == raw.accuracy
    &&& spec.recommended == raw.recommended
    &&& spec.python_module == raw.python_module
    &&& spec.pip_packages@.map_values(|p: String| p@) == (match raw.pip_packages {
        Some(v) => v@.map_values(|p: String| p@),
        None => seq![raw.python_module@],
    })
    &&& spec.download == raw.download
    &&& spec.load == raw.load
    &&& spec.transcribe_method@ == (match raw.transcribe_method {
        Some(m) => m@,
        None => "transcribe"@,
    })
    &&& spec.language_param@ == (match raw.language_param {
        Some(p) => p@,
        None => "language"@,
    })
}

/// Completes a parsed spec file with its defaults.
pub fn spec_from_raw(raw: RawSpec, source_path: String) -> (spec: CustomModelSpec)
    ensures
        completed(raw, source_path, spec),
{
    let pip_packages = match raw.pip_packages {
        Some(v) => v,
        None => {
            let mut v: Vec<String> = Vec::new();
            v.push(owned(raw.python_module.as_str()));
            assert(v@.map_values(|p: String| p@) == seq![raw.python_module@]);
            v
        },
    };
    let transcribe_method = match raw.transcribe_method {
        Some(m) => m,
        None => owned("transcribe"),
    };
    let language_param = match raw.language_param {
        Some(p) => p,
        None => owned("language"),
    };
    CustomModelSpec {
        source_path,
        schema_version: raw.schema_version,
        id: raw.id,
        name: raw.name,
        description: raw.description,
        size_mb: raw.size_mb,
        languages: raw.languages,
        speed: raw.speed,
        accuracy: raw.accuracy,
        recommended: raw.recommended,
        python_module: raw.python_module,
        pip_packages,
        download: raw.download,
        load: raw.load,
        transcribe_method,
        language_param,
    }
}

/// The only supported schema version.
pub const SUPPORTED_SCHEMA_VERSION: u32 = 1;

/// Why a spec is refused, checked in this order: schema version, id
/// collision with an existing model, no languages, speed or accuracy
/// outside 1–10, blank id, name or module. `None` when it is accepted.
pub open spec fn refusal(spec: CustomModelSpec, existing: Seq<Seq<char>>) -> Option<Seq<char>> {
    if spec.schema_version != 1 {
        Some("unsupported schema_version "@ + decimal(spec.schema_version as nat) + " (supported: [1])"@)
    } else if existing.contains(spec.id@) {
        Some("id '"@ + spec.id@ + "' collides with an existing built-in model id"@)
    } else if spec.languages.len() == 0 {
        Some("languages must not be empty"@)
    } else if !(1 <= spec.speed <= 10) {
        Some("speed must be 1-10, got "@ + decimal(spec.speed as nat))
    } else if !(1 <= spec.accuracy <= 10) {
        Some("accuracy must be 1-10, got "@ + decimal(spec.accuracy as nat))
    } else if trimmed(spec.id@).len() == 0 {
        Some("id must not be empty"@)
    } else if trimmed(spec.name@).len() == 0 {
        Some("name must not be empty"@)
    } else if trimmed(spec.python_module@).len() == 0 {
        Some("python_module must not be empty"@)
    } else {
        None
    }
}

fn with_decimal(prefix: &str, n: u64, suffix: &str) -> (r: String)
    ensures
        r@ == prefix@ + decimal(n as nat) + suffix@,
{
    let mut v: Vec<char> = to_chars(prefix);
    push_decimal(&mut v, n);
    let mut r = from_chars(&v);
    push_str_chars_string(&mut r, suffix);
    r
}

fn invalid(msg: String) -> (r: Result<(), AppError>)
    ensures
        r matches Err(AppError::InvalidInput(m)) && m == msg,
{
    Err(AppError::InvalidInput(msg))
}

/// The strings as character sequences.
pub open spec fn texts(items: Seq<String>) -> Seq<Seq<char>> {
    items.map_values(|x: String| x@)
}

fn contains_text(items: &Vec<String>, s: &str) -> (r: bool)
    ensures
        r == texts(items@).contains(s@),
{
    let mut i: usize = 0;
    while i < items.len()
        invariant
            i <= items.len(),
            forall|k: int| 0 <= k < i ==> (#[trigger] items@[k])@ != s@,
        decreases items.len() - i,
    {
        if same_text(items[i].as_str(), s) {
            assert(texts(items@)[i as int] == s@);
            return true;
        }
        i += 1;
    }
    proof {
        if texts(items@).contains(s@) {
            let k = choose|k: int| 0 <= k < texts(items@).len() && #[trigger] texts(items@)[k] == s@;
            assert(items@[k]@ == s@);
        }
    }
    false
}

/// Checks a spec against the rules and the ids already taken.
pub fn validate_spec(spec: &CustomModelSpec, existing_ids: &Vec<String>) -> (r: Result<(), AppError>)
    ensures
        r is Ok <==> refusal(*spec, texts(existing_ids@)) is None,
        r matches Err(AppError::InvalidInput(m)) ==> refusal(*spec, texts(existing_ids@)) == Some(m@),
        !(r matches Err(e) && !(e is InvalidInput)),
{
    if spec.schema_version != SUPPORTED_SCHEMA_VERSION {
        return invalid(with_decimal("unsupported schema_version ", spec.schema_version as u64, " (supported: [1])"));
    }
    if contains_text(existing_ids, spec.id.as_str()) {
        let mut m = concat("id '", spec.id.as_str());
        push_str_chars_string(&mut m, "' collides with an existing built-in model id");
        return invalid(m);
    }
    if spec.languages.len() == 0 {
        return invalid(owned("languages must not be empty"));
    }
    if !(1 <= spec.speed && spec.speed <= 10) {
        proof {
            reveal_strlit("");
            assert("speed must be 1-10, got "@ + decimal(spec.speed as nat) + ""@
                == "speed must be 1-10, got "@ + decimal(spec.speed as nat));
        }
        return invalid(with_decimal("speed must be 1-10, got ", spec.speed as u64, ""));
    }
    if !(1 <= spec.accuracy && spec.accuracy <= 10) {
        proof {
            reveal_strlit("");
            assert("accuracy must be 1-10, got "@ + decimal(spec.accuracy as nat) + ""@
                == "accuracy must be 1-10, got "@ + decimal(spec.accuracy as nat));
        }
        return invalid(with_decimal("accuracy must be 1-10, got ", spec.accuracy as u64, ""));
    }
    if trim(spec.id.as_str()).unicode_len() == 0 {
        return invalid(owned("id must not be empty"));
    }
    if trim(spec.name.as_str()).unicode_len() == 0 {
        return invalid(owned("name must not be empty"));
    }
    if trim(spec.python_module.as_str()).unicode_len() == 0 {
        return invalid(owned("python_module must not be empty"));
    }
    Ok(())
}

/// Spec files are those with the extension `yaml` or `yml`.
pub fn is_spec_extension(ext: &str) -> (r: bool)
    ensures
        r == (ext@ == "yaml"@ || ext@ == "yml"@),
{
    same_text(ext, "yaml") || same_text(ext, "yml")
}

/// The error for a spec file that is not valid YAML for a spec.
pub fn parse_error(path: &str, detail: &str) -> (e: AppError)
    ensures
        e matches AppError::InvalidInput(m) && m@ == "YAML parse error in "@ + path@ + ": "@ + detail@,
{
    let mut m = concat("YAML parse error in ", path);
    push_str_chars_string(&mut m, ": ");
    push_str_chars_string(&mut m, detail);
    AppError::InvalidInput(m)
}

} // verus!
