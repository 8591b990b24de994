//! The backend's configuration values that are more than a number: how a
//! fuzz job's subprocess is isolated, and why a configuration was refused.

use vstd::prelude::*;

use crate::text::{all_ascii_digits, chars_of, digits_value, same_text, string_of, sub_chars};

verus! {

/// Why the configuration could not be read.
#[derive(Debug, Clone)]
pub enum ConfigError {
    /// A required setting is missing; the text names it.
    Missing(String),
    /// A setting holds a value that does not parse.
    Invalid { name: String, value: String, reason: String },
}

/// How a fuzz job's subprocess is isolated: `local` runs `cargo fuzz`
/// directly; `docker-exec` runs it inside an already-running container.
#[derive(Debug, Clone, PartialEq, Eq)]
pub enum SandboxKind {
    Local,
    DockerExec { container: String },
}

/// A sandbox kind, its container taken by its characters.
pub enum SandboxKindView {
    Local,
    DockerExec(Seq<char>),
}

impl View for SandboxKind {
    type V = SandboxKindView;

    open spec fn view(&self) -> SandboxKindView {
        match self {
            SandboxKind::Local => SandboxKindView::Local,
            SandboxKind::DockerExec { container } => SandboxKindView::DockerExec(container@),
        }
    }
}

/// The index of the first `c` in `s` at or after `i`, if any.
pub open spec fn index_of(s: Seq<char>, c: char, i: int) -> Option<int>
    decreases s.len() - i,
{
    if i < 0 || i >= s.len() {
        None
    } else if s[i] == c {
        Some(i)
    } else {
        index_of(s, c, i + 1)
    }
}

/// What the `FUZZ_SANDBOX` setting `raw` selects: `local`, or
/// `docker-exec:` followed by a non-empty container name (split at the
/// first colon, so the name may hold more); nothing for anything else.
pub open spec fn sandbox_for(raw: Seq<char>) -> Option<SandboxKindView> {
    match index_of(raw, ':', 0) {
        None => if raw == "local"@ {
            Some(SandboxKindView::Local)
        } else {
            None
        },
        Some(k) => if raw.subrange(0, k) == "docker-exec"@ && k + 1 < raw.len() {
            Some(SandboxKindView::DockerExec(raw.subrange(k + 1, raw.len() as int)))
        } else {
            None
        },
    }
}

/// The `FUZZ_SANDBOX` text that selects a sandbox kind.
pub open spec fn sandbox_text(kind: SandboxKindView) -> Seq<char> {
    match kind {
        SandboxKindView::Local => "local"@,
        SandboxKindView::DockerExec(container) => "docker-exec:"@ + container,
    }
}

/// Reads the `FUZZ_SANDBOX` setting: `local`, or `docker-exec:<container>`
/// with a non-empty container name. Anything else is refused, with the
/// value and what was expected.
pub fn parse_sandbox(raw: String) -> (r: Result<SandboxKind, ConfigError>)
    ensures
        r is Ok <==> sandbox_for(raw@) is Some,
        r matches Ok(kind) ==> sandbox_for(raw@) == Some(kind@),
        r matches Err(e) ==> (e matches ConfigError::Invalid { name, value, reason } && name@
            == "FUZZ_SANDBOX"@ && value@ == raw@ && reason@
            == "expected `local` or `docker-exec:<container-name>`"@),
{
    let cs = chars_of(raw.as_str());
    let mut k: usize = 0;
    while k < cs.len() && cs[k] != ':'
        invariant
            cs@ == raw@,
            k <= cs@.len(),
            index_of(raw@, ':', 0) == index_of(raw@, ':', k as int),
        decreases cs.len() - k,
    {
        k = k + 1;
    }
    if k == cs.len() {
        if same_text(raw.as_str(), "local") {
            return Ok(SandboxKind::Local);
        }
    } else {
        let head = sub_chars(cs.as_slice(), 0, k);
        let head_text = string_of(head.as_slice());
        if same_text(head_text.as_str(), "docker-exec") && k + 1 < cs.len() {
            let container = string_of(sub_chars(cs.as_slice(), k + 1, cs.len()).as_slice());
            return Ok(SandboxKind::DockerExec { container });
        }
    }
    Err(
        ConfigError::Invalid {
            name: String::from_str("FUZZ_SANDBOX"),
            value: raw,
            reason: String::from_str("expected `local` or `docker-exec:<container-name>`"),
        },
    )
}

/// The first `c` from `i` on is at `k` (or there is none, when `k` is the
/// length) when nothing in between is a `c`.
pub proof fn lemma_index_of_at(s: Seq<char>, c: char, i: int, k: int)
    requires
        0 <= i <= k <= s.len(),
        forall|j: int| i <= j < k ==> s[j] != c,
        k < s.len() ==> s[k] == c,
    ensures
        index_of(s, c, i) == if k < s.len() {
            Some(k)
        } else {
            None::<int>
        },
    decreases k - i,
{
    if i < k {
        lemma_index_of_at(s, c, i + 1, k);
    }
}

/// Writing a sandbox kind out and reading it back gives the same kind,
/// for any non-empty container name (only the first colon splits, so the
/// name may itself hold colons).
pub proof fn lemma_sandbox_text_reads_back(kind: SandboxKindView)
    requires
        kind matches SandboxKindView::DockerExec(c) ==> c.len() > 0,
    ensures
        sandbox_for(sandbox_text(kind)) == Some(kind),
{
    reveal_strlit("local");
    reveal_strlit("docker-exec:");
    reveal_strlit("docker-exec");
    match kind {
        SandboxKindView::Local => {
            lemma_index_of_at(sandbox_text(kind), ':', 0, 5);
        },
        SandboxKindView::DockerExec(c) => {
            let t = "docker-exec:"@ + c;
            lemma_index_of_at(t, ':', 0, 11);
            assert(t.subrange(0, 11) =~= "docker-exec"@);
            assert(t.subrange(12, t.len() as int) =~= c);
        },
    }
}

/// The unsigned number a setting's text spells the way `str::parse` reads
/// one: an optional `+`, then one or more ASCII digits and nothing else.
pub open spec fn unsigned_value(s: Seq<char>) -> Option<nat> {
    let digits = if s.len() > 0 && s[0] == '+' {
        s.subrange(1, s.len() as int)
    } else {
        s
    };
    if digits.len() > 0 && all_ascii_digits(digits) {
        Some(digits_value(digits))
    } else {
        None
    }
}

/// `str::parse::<u32>`: the number, when the text spells one that fits
/// (see `unsigned_value`); otherwise the parse error's text, which is not
/// stated.
#[verifier::external_body]
fn parse_u32(raw: &str) -> (r: Result<u32, String>)
    ensures
        r is Ok <==> (unsigned_value(raw@) matches Some(v) && v <= u32::MAX),
        r matches Ok(v) ==> unsigned_value(raw@) == Some(v as nat),
{
    match raw.parse::<u32>() {
        Ok(v) => Ok(v),
        Err(e) => Err(e.to_string()),
    }
}

/// `str::parse::<usize>`, as `parse_u32` says.
#[verifier::external_body]
fn parse_usize(raw: &str) -> (r: Result<usize, String>)
    ensures
        r is Ok <==> (unsigned_value(raw@) matches Some(v) && v <= usize::MAX),
        r matches Ok(v) ==> unsigned_value(raw@) == Some(v as nat),
{
    match raw.parse::<usize>() {
        Ok(v) => Ok(v),
        Err(e) => Err(e.to_string()),
    }
}

/// `str::parse::<u64>`, as `parse_u32` says.
#[verifier::external_body]
fn parse_u64(raw: &str) -> (r: Result<u64, String>)
    ensures
        r is Ok <==> (unsigned_value(raw@) matches Some(v) && v <= u64::MAX),
        r matches Ok(v) ==> unsigned_value(raw@) == Some(v as nat),
{
    match raw.parse::<u64>() {
        Ok(v) => Ok(v),
        Err(e) => Err(e.to_string()),
    }
}

/// The path `part` names from `base`, by `std::path::Path::join`. What it
/// is, is named, not written out.
pub uninterp spec fn joined_path(base: Seq<char>, part: Seq<char>) -> Seq<char>;

/// `Path::join`, on paths held as text.
#[verifier::external_body]
fn path_join(base: &str, part: &str) -> (r: String)
    ensures
        r@ == joined_path(base@, part@),
{
    std::path::Path::new(base).join(part).to_string_lossy().into_owned()
}

/// What the environment holds for each setting, by the setting's name.
#[derive(Debug, Clone, Default)]
pub struct Settings {
    pub targets_dir: Option<String>,
    pub database_url: Option<String>,
    pub http_addr: Option<String>,
    pub default_budget_seconds: Option<String>,
    pub max_concurrent_campaigns: Option<String>,
    pub rust_toolchain: Option<String>,
    pub fuzz_sanitizer: Option<String>,
    pub fuzz_sandbox: Option<String>,
    pub fuzz_workspace_dir: Option<String>,
    pub job_timeout_seconds: Option<String>,
    pub log_level: Option<String>,
}

/// The backend's configuration.
#[derive(Debug, Clone)]
pub struct Config {
    pub database_url: String,
    /// The address to listen on, as text that parses as a socket address.
    pub http_addr: String,
    pub targets_dir: String,
    pub default_budget_secs: u32,
    pub max_concurrent_campaigns: usize,
    pub rust_toolchain: String,
    /// `cargo fuzz`'s `--sanitizer` flag; `None` leaves the flag out.
    pub fuzz_sanitizer: Option<String>,
    pub fuzz_sandbox: SandboxKind,
    /// Where the `cargo fuzz` workspace is, as the sandbox sees it.
    pub fuzz_workspace_dir: String,
    pub job_timeout_secs: u64,
    pub log_level: String,
}

/// A setting's text, or its default.
pub open spec fn or_default(s: Option<String>, default: Seq<char>) -> Seq<char> {
    match s {
        Some(v) => v@,
        None => default,
    }
}

/// The text a setting holds, or `default` when it is not set.
fn text_or(s: &Option<String>, default: &str) -> (r: String)
    ensures
        r@ == or_default(*s, default@),
{
    match s {
        Some(v) => v.clone(),
        None => default.to_string(),
    }
}

/// Whether `e` refuses setting `name` holding `value`, for some reason.
pub open spec fn refuses(e: ConfigError, name: Seq<char>, value: Seq<char>) -> bool {
    e matches ConfigError::Invalid { name: n, value: v, reason: _ } && n@ == name && v@ == value
}

/// Whether `e` says setting `name` is missing.
pub open spec fn missing(e: ConfigError, name: Seq<char>) -> bool {
    e matches ConfigError::Missing(n) && n@ == name
}

/// Whether a number setting's text (or default) is one of `max` or less.
pub open spec fn number_ok(s: Option<String>, default: Seq<char>, max: nat) -> bool {
    unsigned_value(or_default(s, default)) matches Some(v) && v <= max
}

impl Settings {
    /// The text of the listening address: `HTTP_ADDR`, or `0.0.0.0:8080`.
    pub fn http_addr_text(&self) -> (r: String)
        ensures
            r@ == or_default(self.http_addr, "0.0.0.0:8080"@),
    {
        text_or(&self.http_addr, "0.0.0.0:8080")
    }
}

impl Config {
    /// Reads the configuration from the settings, checking them in this
    /// order and failing at the first that is wrong: `TARGETS_DIR` and
    /// `DATABASE_URL` must be set; `HTTP_ADDR` (default `0.0.0.0:8080`)
    /// must be a socket address (`http_addr_refusal` is why it is not, as
    /// the caller's address parser said, if it is not);
    /// `DEFAULT_BUDGET_SECONDS` (default 60), `MAX_CONCURRENT_CAMPAIGNS`
    /// (default 2) and `JOB_TIMEOUT_SECONDS` (default 600) must be numbers
    /// that fit their types; `FUZZ_SANDBOX` (default `local`) must name a
    /// sandbox (see `parse_sandbox`), checked before the timeout. The
    /// toolchain defaults to `nightly`, the log level to `info`, the fuzz
    /// workspace to `{TARGETS_DIR}/../fuzz`; an empty sanitizer means
    /// none.
    pub fn from_settings(s: Settings, http_addr_refusal: Option<String>) -> (r: Result<Config, ConfigError>)
        ensures
            s.targets_dir is None ==> r is Err && missing(r->Err_0, "TARGETS_DIR"@),
            s.targets_dir is Some && s.database_url is None ==> r is Err && missing(
                r->Err_0,
                "DATABASE_URL"@,
            ),
            s.targets_dir is Some && s.database_url is Some && http_addr_refusal is Some ==> r is Err
                && refuses(r->Err_0, "HTTP_ADDR"@, or_default(s.http_addr, "0.0.0.0:8080"@)),
            s.targets_dir is Some && s.database_url is Some && http_addr_refusal is None && !number_ok(
                s.default_budget_seconds,
                "60"@,
                u32::MAX as nat,
            ) ==> r is Err && refuses(
                r->Err_0,
                "DEFAULT_BUDGET_SECONDS"@,
                or_default(s.default_budget_seconds, "60"@),
            ),
            s.targets_dir is Some && s.database_url is Some && http_addr_refusal is None && number_ok(
                s.default_budget_seconds,
                "60"@,
                u32::MAX as nat,
            ) && !number_ok(s.max_concurrent_campaigns, "2"@, usize::MAX as nat) ==> r is Err
                && refuses(
                r->Err_0,
                "MAX_CONCURRENT_CAMPAIGNS"@,
                or_default(s.max_concurrent_campaigns, "2"@),
            ),
            s.targets_dir is Some && s.database_url is Some && http_addr_refusal is None && number_ok(
                s.default_budget_seconds,
                "60"@,
                u32::MAX as nat,
            ) && number_ok(s.max_concurrent_campaigns, "2"@, usize::MAX as nat) && sandbox_for(
                or_default(s.fuzz_sandbox, "local"@),
            ) is None ==> r is Err && refuses(
                r->Err_0,
                "FUZZ_SANDBOX"@,
                or_default(s.fuzz_sandbox, "local"@),
            ),
            s.targets_dir is Some && s.database_url is Some && http_addr_refusal is None && number_ok(
                s.default_budget_seconds,
                "60"@,
                u32::MAX as nat,
            ) && number_ok(s.max_concurrent_campaigns, "2"@, usize::MAX as nat) && sandbox_for(
                or_default(s.fuzz_sandbox, "local"@),
            ) is Some && !number_ok(s.job_timeout_seconds, "600"@, u64::MAX as nat) ==> r is Err
                && refuses(
                r->Err_0,
                "JOB_TIMEOUT_SECONDS"@,
                or_default(s.job_timeout_seconds, "600"@),
            ),
            r matches Ok(c) ==> {
                &&& s.targets_dir matches Some(t) && c.targets_dir == t
                &&& s.database_url matches Some(d) && c.database_url == d
                &&& http_addr_refusal is None
                &&& c.http_addr@ == or_default(s.http_addr, "0.0.0.0:8080"@)
                &&& unsigned_value(or_default(s.default_budget_seconds, "60"@)) == Some(
                    c.default_budget_secs as nat,
                )
                &&& unsigned_value(or_default(s.max_concurrent_campaigns, "2"@)) == Some(
                    c.max_concurrent_campaigns as nat,
                )
                &&& c.rust_toolchain@ == or_default(s.rust_toolchain, "nightly"@)
                &&& c.fuzz_sanitizer == (match s.fuzz_sanitizer {
                    Some(z) => if z@.len() == 0 {
                        None
                    } else {
                        Some(z)
                    },
                    None => None,
                })
                &&& sandbox_for(or_default(s.fuzz_sandbox, "local"@)) == Some(c.fuzz_sandbox@)
                &&& c.fuzz_workspace_dir@ == match s.fuzz_workspace_dir {
                    Some(w) => w@,
                    None => joined_path(joined_path(c.targets_dir@, ".."@), "fuzz"@),
                }
                &&& unsigned_value(or_default(s.job_timeout_seconds, "600"@)) == Some(
                    c.job_timeout_secs as nat,
                )
                &&& c.log_level@ == or_default(s.log_level, "info"@)
            },
            r is Ok <==> s.targets_dir is Some && s.database_url is Some && http_addr_refusal is None
                && number_ok(s.default_budget_seconds, "60"@, u32::MAX as nat) && number_ok(
                s.max_concurrent_campaigns,
                "2"@,
                usize::MAX as nat,
            ) && sandbox_for(or_default(s.fuzz_sandbox, "local"@)) is Some && number_ok(
                s.job_timeout_seconds,
                "600"@,
                u64::MAX as nat,
            ),
    {
        let http_addr = s.http_addr_text();
        let targets_dir = match s.targets_dir {
            Some(t) => t,
            None => return Err(ConfigError::Missing(String::from_str("TARGETS_DIR"))),
        };
        let database_url = match s.database_url {
            Some(d) => d,
            None => return Err(ConfigError::Missing(String::from_str("DATABASE_URL"))),
        };
        match http_addr_refusal {
            Some(reason) => {
                return Err(
                    ConfigError::Invalid { name: String::from_str("HTTP_ADDR"), value: http_addr, reason },
                );
            },
            None => {},
        }
        let budget_text = text_or(&s.default_budget_seconds, "60");
        let default_budget_secs = match parse_u32(budget_text.as_str()) {
            Ok(v) => v,
            Err(reason) => {
                return Err(
                    ConfigError::Invalid {
                        name: String::from_str("DEFAULT_BUDGET_SECONDS"),
                        value: budget_text,
                        reason,
                    },
                );
            },
        };
        let max_text = text_or(&s.max_concurrent_campaigns, "2");
        let max_concurrent_campaigns = match parse_usize(max_text.as_str()) {
            Ok(v) => v,
            Err(reason) => {
                return Err(
                    ConfigError::Invalid {
                        name: String::from_str("MAX_CONCURRENT_CAMPAIGNS"),
                        value: max_text,
                        reason,
                    },
                );
            },
        };
        let rust_toolchain = text_or(&s.rust_toolchain, "nightly");
        let fuzz_sanitizer = match s.fuzz_sanitizer {
            Some(z) => if chars_of(z.as_str()).len() == 0 {
                None
            } else {
                Some(z)
            },
            None => None,
        };
        let sandbox_text = text_or(&s.fuzz_sandbox, "local");
        let fuzz_sandbox = match parse_sandbox(sandbox_text) {
            Ok(k) => k,
            Err(e) => return Err(e),
        };
        let fuzz_workspace_dir = match s.fuzz_workspace_dir {
            Some(w) => w,
            None => {
                let up = path_join(targets_dir.as_str(), "..");
                path_join(up.as_str(), "fuzz")
            },
        };
        let timeout_text = text_or(&s.job_timeout_seconds, "600");
        let job_timeout_secs = match parse_u64(timeout_text.as_str()) {
            Ok(v) => v,
            Err(reason) => {
                return Err(
                    ConfigError::Invalid {
                        name: String::from_str("JOB_TIMEOUT_SECONDS"),
                        value: timeout_text,
                        reason,
                    },
                );
            },
        };
        let log_level = text_or(&s.log_level, "info");
        Ok(
            Config {
                database_url,
                http_addr,
                targets_dir,
                default_budget_secs,
                max_concurrent_campaigns,
                rust_toolchain,
                fuzz_sanitizer,
                fuzz_sandbox,
                fuzz_workspace_dir,
                job_timeout_secs,
                log_level,
            },
        )
    }
}

} // verus!
