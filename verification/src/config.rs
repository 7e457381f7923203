//! Application settings and their defaults.
use vstd::prelude::*;

verus! {

/// Which service answers chat requests.
#[derive(Debug, Clone, Copy, PartialEq, Eq, Structural)]
pub enum AiProvider {
    Ollama,
    SmolpcEngine,
}

impl Default for AiProvider {
    fn default() -> (r: AiProvider)
        ensures
            r == AiProvider::Ollama,
    {
        AiProvider::Ollama
    }
}

/// The Ollama address used when none is configured.
pub fn default_ollama_url() -> (r: String)
    ensures
        r@ == "http://localhost:11434"@,
{
    "http://localhost:11434".to_string()
}

/// The model selected when none is configured.
pub fn default_selected_model() -> (r: String)
    ensures
        r@ == "phi3:latest"@,
{
    "phi3:latest".to_string()
}

/// The smolpc-engine address used when none is configured.
pub fn default_smolpc_engine_url() -> (r: String)
    ensures
        r@ == "http://127.0.0.1:19432"@,
{
    "http://127.0.0.1:19432".to_string()
}

/// The Python interpreter used when none is configured.
pub fn default_python_path() -> (r: String)
    ensures
        r@ == "python3"@,
{
    "python3".to_string()
}

/// The UI theme used when none is configured.
pub fn default_theme() -> (r: String)
    ensures
        r@ == "dark"@,
{
    "dark".to_string()
}

/// The IEEE-754 bits of the default sampling temperature, `0.7_f32`.
pub const DEFAULT_TEMPERATURE_BITS: u32 = 0x3F33_3333u32;

/// The default sampling temperature, as `f32` bits.
pub fn default_temperature() -> (r: Option<u32>)
    ensures
        r == Some(DEFAULT_TEMPERATURE_BITS),
{
    Some(DEFAULT_TEMPERATURE_BITS)
}

/// The default limit on generated tokens.
pub fn default_max_tokens() -> (r: Option<u32>)
    ensures
        r == Some(2048u32),
{
    Some(2048)
}

/// The documents path a found documents folder gives: the folder, or empty
/// text when there is none.
pub fn documents_path_from(dir: Option<String>) -> (r: String)
    ensures
        match dir {
            Some(d) => r@ == d@,
            None => r@ == Seq::<char>::empty(),
        },
{
    match dir {
        Some(d) => d,
        None => String::new(),
    }
}

/// Application settings. `temperature_bits` holds the IEEE-754 bits of the
/// `f32` sampling temperature.
#[derive(Debug)]
pub struct AppConfig {
    pub ai_provider: AiProvider,
    pub ollama_url: String,
    pub selected_model: String,
    pub smolpc_engine_url: String,
    pub python_path: String,
    pub documents_path: String,
    pub libreoffice_path: Option<String>,
    pub theme: String,
    pub system_prompt: Option<String>,
    pub temperature_bits: Option<u32>,
    pub max_tokens: Option<u32>,
}

/// Every setting but the documents path holds its default.
pub open spec fn has_default_settings(c: AppConfig) -> bool {
    &&& c.ai_provider == AiProvider::Ollama
    &&& c.ollama_url@ == "http://localhost:11434"@
    &&& c.selected_model@ == "phi3:latest"@
    &&& c.smolpc_engine_url@ == "http://127.0.0.1:19432"@
    &&& c.python_path@ == "python3"@
    &&& c.libreoffice_path is None
    &&& c.theme@ == "dark"@
    &&& c.system_prompt is None
    &&& c.temperature_bits == Some(DEFAULT_TEMPERATURE_BITS)
    &&& c.max_tokens == Some(2048u32)
}

impl AppConfig {
    /// The default settings, with the given documents path.
    pub fn defaults_with_documents_path(documents_path: String) -> (r: AppConfig)
        ensures
            has_default_settings(r),
            r.documents_path@ == documents_path@,
    {
        AppConfig {
            ai_provider: AiProvider::default(),
            ollama_url: default_ollama_url(),
            selected_model: default_selected_model(),
            smolpc_engine_url: default_smolpc_engine_url(),
            python_path: default_python_path(),
            documents_path,
            libreoffice_path: None,
            theme: default_theme(),
            system_prompt: None,
            temperature_bits: default_temperature(),
            max_tokens: default_max_tokens(),
        }
    }
}

/// Reading and writing the settings file (the reading and writing happen
/// outside the library).
#[derive(Debug)]
pub struct ConfigService;

impl ConfigService {
    /// The folder, under the user's configuration folder, that holds the
    /// settings.
    pub fn app_dir_name() -> (r: &'static str)
        ensures
            r@ == "libreoffice-ai"@,
    {
        "libreoffice-ai"
    }

    /// The name of the settings file.
    pub fn settings_file_name() -> (r: &'static str)
        ensures
            r@ == "settings.json"@,
    {
        "settings.json"
    }

    /// `load` once the file has been looked for: no file gives the
    /// defaults, with the given documents path; a file gives what reading it
    /// gave.
    pub fn resolve_load(
        stored: Option<Result<AppConfig, String>>,
        documents_path: String,
    ) -> (r: Result<AppConfig, String>)
        ensures
            match stored {
                None => r matches Ok(c) && has_default_settings(c) && c.documents_path@
                    == documents_path@,
                Some(Ok(c)) => r == Ok::<AppConfig, String>(c),
                Some(Err(e)) => r == Err::<AppConfig, String>(e),
            },
    {
        match stored {
            None => Ok(AppConfig::defaults_with_documents_path(documents_path)),
            Some(res) => res,
        }
    }

    /// The settings the application starts with: those loaded, or the
    /// defaults (with the given documents path) when loading failed.
    pub fn config_or_default(loaded: Result<AppConfig, String>, documents_path: String) -> (r:
        AppConfig)
        ensures
            match loaded {
                Ok(c) => r == c,
                Err(_) => has_default_settings(r) && r.documents_path@ == documents_path@,
            },
    {
        match loaded {
            Ok(c) => c,
            Err(_) => AppConfig::defaults_with_documents_path(documents_path),
        }
    }
}

/// `"Failed to load settings: {e}"`.
pub fn load_settings_error(e: &str) -> (r: String)
    ensures
        r@ == "Failed to load settings: "@ + e@,
{
    let mut r = "Failed to load settings: ".to_string();
    r.append(e);
    r
}

/// `"Failed to save settings: {e}"`.
pub fn save_settings_error(e: &str) -> (r: String)
    ensures
        r@ == "Failed to save settings: "@ + e@,
{
    let mut r = "Failed to save settings: ".to_string();
    r.append(e);
    r
}

} // verus!
