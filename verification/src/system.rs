//! The dependency checks' decisions: what each probe's outcome means for
//! the status shown to the user (the probing itself happens outside).
use crate::text::{blank, is_blank, trim, trim_str};
use vstd::prelude::*;

verus! {

/// Whether a dependency is usable, and what to tell the user.
#[derive(Debug)]
pub struct DependencyStatus {
    pub name: String,
    pub installed: bool,
    pub version: Option<String>,
    pub error_message: Option<String>,
}

/// A status for `name`: found with `version`, or missing with `error`.
fn status(name: &str, installed: bool, version: Option<String>, error: Option<String>) -> (r:
    DependencyStatus)
    ensures
        r.name@ == name@,
        r.installed == installed,
        r.version == version,
        r.error_message == error,
{
    DependencyStatus { name: name.to_string(), installed, version, error_message: error }
}

/// The Python launchers tried, in order.
pub fn python_candidates(windows: bool) -> (r: Vec<String>)
    ensures
        windows ==> r@.len() == 3 && r@[0]@ == "python"@ && r@[1]@ == "python3"@ && r@[2]@
            == "py"@,
        !windows ==> r@.len() == 2 && r@[0]@ == "python3"@ && r@[1]@ == "python"@,
{
    let mut r: Vec<String> = Vec::new();
    if windows {
        r.push("python".to_string());
        r.push("python3".to_string());
        r.push("py".to_string());
    } else {
        r.push("python3".to_string());
        r.push("python".to_string());
    }
    r
}

/// `check_python`'s status, given the output (stdout, stderr) of the first
/// launcher that answered `--version`, if any. The version is what it
/// printed on stdout, or on stderr when stdout is blank, trimmed.
pub fn python_status(output: Option<(String, String)>) -> (r: DependencyStatus)
    ensures
        r.name@ == "Python"@,
        match output {
            Some((out, err)) => r.installed && r.error_message is None && (r.version matches Some(
                v,
            ) && v@ == trim(
                if is_blank(out@) {
                    err@
                } else {
                    out@
                },
            )),
            None => !r.installed && r.version is None && (r.error_message matches Some(m) && m@
                == "Python 3.12+ not found. Please install from python.org"@),
        },
{
    match output {
        Some((out, err)) => {
            let version = if blank(out.as_str()) {
                trim_str(err.as_str())
            } else {
                trim_str(out.as_str())
            };
            status("Python", true, Some(version), None)
        },
        None => status(
            "Python",
            false,
            None,
            Some("Python 3.12+ not found. Please install from python.org".to_string()),
        ),
    }
}

/// `check_ollama`'s status, given the text `/api/version` answered with
/// (`None` when the request failed).
pub fn ollama_status(version: Option<String>) -> (r: DependencyStatus)
    ensures
        r.name@ == "Ollama"@,
        match version {
            Some(v) => r.installed && r.error_message is None && r.version == Some(v),
            None => !r.installed && r.version is None && (r.error_message matches Some(m) && m@
                == "Ollama not running. Please install from ollama.ai"@),
        },
{
    match version {
        Some(v) => status("Ollama", true, Some(v), None),
        None => status(
            "Ollama",
            false,
            None,
            Some("Ollama not running. Please install from ollama.ai".to_string()),
        ),
    }
}

/// An HTTP answer to a health check: the status code, how the status
/// prints (`"404 Not Found"`), and the body (read only on success).
#[derive(Debug)]
pub struct HealthReply {
    pub code: u16,
    pub status_text: String,
    pub body: String,
}

/// A 2xx status.
pub open spec fn is_success(code: u16) -> bool {
    200 <= code <= 299
}

/// After the `/engine/health` check: a decision, or on to `/health`.
#[derive(Debug)]
pub enum EngineProbe {
    Decided(DependencyStatus),
    TryLegacy,
}

/// `"{label}"` when the body is blank, else `"{label} {body trimmed}"`.
pub open spec fn labelled_version(label: Seq<char>, body: Seq<char>) -> Seq<char> {
    if is_blank(body) {
        label
    } else {
        label + " "@ + trim(body)
    }
}

fn labelled(label: &str, body: &str) -> (r: String)
    ensures
        r@ == labelled_version(label@, body@),
{
    let mut r = label.to_string();
    if !blank(body) {
        r.append(" ");
        let t = trim_str(body);
        r.append(t.as_str());
    }
    r
}

/// `check_smolpc_engine`'s reading of `/engine/health` (`None` when the
/// request failed): success means the shared engine; 401 or 403 means a
/// token is needed; 404, 405 and failed requests lead on to the legacy
/// check; any other status is a failure.
pub fn shared_health_decision(reply: Option<HealthReply>) -> (r: EngineProbe)
    ensures
        match reply {
            Some(h) => if is_success(h.code) {
                r matches EngineProbe::Decided(s) && s.name@ == "SmolPC Engine"@ && s.installed
                    && s.error_message is None && (s.version matches Some(v) && v@
                    == labelled_version("shared-engine-v1"@, h.body@))
            } else if h.code == 401 || h.code == 403 {
                r matches EngineProbe::Decided(s) && s.name@ == "SmolPC Engine"@ && !s.installed
                    && s.version is None && (s.error_message matches Some(m) && m@
                    == "smolpc-engine host requires bearer token. Set SMOLPC_ENGINE_TOKEN or ensure %LOCALAPPDATA%\\SmolPC\\engine-runtime\\engine-token.txt exists."@)
            } else if h.code != 404 && h.code != 405 {
                r matches EngineProbe::Decided(s) && s.name@ == "SmolPC Engine"@ && !s.installed
                    && s.version is None && (s.error_message matches Some(m) && m@
                    == "smolpc-engine health check failed at /engine/health: "@ + h.status_text@)
            } else {
                r is TryLegacy
            },
            None => r is TryLegacy,
        },
{
    match reply {
        Some(h) => {
            if 200 <= h.code && h.code <= 299 {
                let v = labelled("shared-engine-v1", h.body.as_str());
                EngineProbe::Decided(status("SmolPC Engine", true, Some(v), None))
            } else if h.code == 401 || h.code == 403 {
                EngineProbe::Decided(
                    status(
                        "SmolPC Engine",
                        false,
                        None,
                        Some(
                            "smolpc-engine host requires bearer token. Set SMOLPC_ENGINE_TOKEN or ensure %LOCALAPPDATA%\\SmolPC\\engine-runtime\\engine-token.txt exists.".to_string(),
                        ),
                    ),
                )
            } else if h.code != 404 && h.code != 405 {
                let mut m = "smolpc-engine health check failed at /engine/health: ".to_string();
                m.append(h.status_text.as_str());
                EngineProbe::Decided(status("SmolPC Engine", false, None, Some(m)))
            } else {
                EngineProbe::TryLegacy
            }
        },
        None => EngineProbe::TryLegacy,
    }
}

/// `check_smolpc_engine`'s reading of the legacy `/health`: success means
/// the legacy preview; anything else means no engine.
pub fn legacy_health_status(reply: Option<HealthReply>) -> (r: DependencyStatus)
    ensures
        r.name@ == "SmolPC Engine"@,
        match reply {
            Some(h) => if is_success(h.code) {
                r.installed && r.error_message is None && (r.version matches Some(v) && v@
                    == labelled_version("legacy-preview"@, h.body@))
            } else {
                !r.installed && r.version is None && (r.error_message matches Some(m) && m@
                    == "smolpc-engine daemon not running. Expected shared-engine-v1 at /engine/health (default http://127.0.0.1:19432)."@)
            },
            None => !r.installed && r.version is None && (r.error_message matches Some(m) && m@
                == "smolpc-engine daemon not running. Expected shared-engine-v1 at /engine/health (default http://127.0.0.1:19432)."@),
        },
{
    let ok = match &reply {
        Some(h) => 200 <= h.code && h.code <= 299,
        None => false,
    };
    if ok {
        match reply {
            Some(h) => {
                let v = labelled("legacy-preview", h.body.as_str());
                return status("SmolPC Engine", true, Some(v), None);
            },
            None => {},
        }
    }
    status(
        "SmolPC Engine",
        false,
        None,
        Some(
            "smolpc-engine daemon not running. Expected shared-engine-v1 at /engine/health (default http://127.0.0.1:19432).".to_string(),
        ),
    )
}

/// A token candidate, trimmed, when it is not blank.
pub open spec fn usable_token(t: Option<Seq<char>>) -> Option<Seq<char>> {
    match t {
        Some(s) => if is_blank(s) {
            None
        } else {
            Some(trim(s))
        },
        None => None,
    }
}

/// `discover_engine_token`: the `SMOLPC_ENGINE_TOKEN` value, else the token
/// file's contents, each trimmed and only when not blank.
pub fn discover_engine_token(from_env: Option<String>, from_file: Option<String>) -> (r: Option<
    String,
>)
    ensures
        ({
            let e = usable_token(
                match from_env {
                    Some(s) => Some(s@),
                    None => None,
                },
            );
            let f = usable_token(
                match from_file {
                    Some(s) => Some(s@),
                    None => None,
                },
            );
            match r {
                Some(t) => Some(t@) == if e is Some {
                    e
                } else {
                    f
                },
                None => e is None && f is None,
            }
        }),
{
    match from_env {
        Some(t) => if !blank(t.as_str()) {
            return Some(trim_str(t.as_str()));
        },
        None => {},
    }
    match from_file {
        Some(t) => if !blank(t.as_str()) {
            Some(trim_str(t.as_str()))
        } else {
            None
        },
        None => None,
    }
}

/// Where LibreOffice is looked for.
pub fn libreoffice_paths() -> (r: Vec<String>)
    ensures
        r@.len() == 3,
        r@[0]@ == "C:\\Program Files\\LibreOffice\\program\\soffice.exe"@,
        r@[1]@ == "/Applications/LibreOffice.app/Contents/MacOS/soffice"@,
        r@[2]@ == "/usr/bin/libreoffice"@,
{
    let mut r: Vec<String> = Vec::new();
    r.push("C:\\Program Files\\LibreOffice\\program\\soffice.exe".to_string());
    r.push("/Applications/LibreOffice.app/Contents/MacOS/soffice".to_string());
    r.push("/usr/bin/libreoffice".to_string());
    r
}

/// `check_libreoffice`'s status, given whether any of the paths exists.
pub fn libreoffice_status(found: bool) -> (r: DependencyStatus)
    ensures
        r.name@ == "LibreOffice"@,
        r.installed == found,
        r.version is None,
        found ==> r.error_message is None,
        !found ==> (r.error_message matches Some(m) && m@
            == "LibreOffice not found. Document features will be disabled."@),
{
    status(
        "LibreOffice",
        found,
        None,
        if !found {
            Some("LibreOffice not found. Document features will be disabled.".to_string())
        } else {
            None
        },
    )
}

} // verus!
