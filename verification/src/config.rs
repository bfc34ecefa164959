//! Configuration: model connections, pipeline parameters, server and
//! workspace settings, and the command-line overrides.

use vstd::prelude::*;

verus! {

/// The default chapter-title pattern.
pub open spec fn default_chapter_regex_spec() -> Seq<char> {
    "第[零一二三四五六七八九十百千0-9]{1,6}[章节回]"@
}

/// The default chapter pattern is 第, one to six Chinese or Arabic
/// numerals, then one of 章, 节 and 回.
pub proof fn law_default_chapter_pattern()
    ensures
        default_chapter_regex_spec() == "第[零一二三四五六七八九十百千0-9]{1,6}[章节回]"@,
{
}

/// The default chapter-title pattern: 第, one to six numerals, then 章, 节
/// or 回.
pub fn default_chapter_regex() -> (s: String)
    ensures
        s@ == default_chapter_regex_spec(),
        s@ == "第[零一二三四五六七八九十百千0-9]{1,6}[章节回]"@,
{
    "第[零一二三四五六七八九十百千0-9]{1,6}[章节回]".to_owned()
}

} // verus!

verus! {

/// Connection settings of one model.
#[derive(Debug, Clone)]
pub struct ModelConfig {
    /// Backend label (all backends are reached through the OpenAI-compatible
    /// interface; `base_url` picks the service).
    pub backend: String,
    /// API key.
    pub api_key: Option<String>,
    /// Base URL.
    pub base_url: Option<String>,
    /// Model identifier.
    pub model: String,
    /// Output token limit (`None`: the service's default).
    pub max_tokens: Option<u32>,
}

/// Server listening settings.
#[derive(Debug, Clone)]
pub struct ServerConfig {
    pub host: String,
    pub port: u16,
}

/// Workspace settings: the directory that holds all projects.
#[derive(Debug, Clone)]
pub struct WorkspaceConfig {
    pub dir: String,
}

/// Sound-effect library settings.
#[derive(Debug, Clone)]
pub struct SoundsConfig {
    pub dir: String,
}

/// Pipeline configuration (the pause durations, which are fractional
/// seconds, are kept by the application).
#[derive(Debug, Clone)]
pub struct AppConfig {
    pub small_model: ModelConfig,
    pub large_model: ModelConfig,
    pub tts_model: ModelConfig,
    pub voice_design_model: Option<ModelConfig>,
    pub voice_clone_model: Option<ModelConfig>,
    pub chapter_regex: String,
    pub max_concurrency: usize,
    pub output_dir: String,
    pub max_paragraph_lines: usize,
    pub audio_format: String,
    pub tts_voice: String,
    pub tts_timeout_secs: u64,
    pub server: ServerConfig,
    pub workspace: WorkspaceConfig,
    pub sounds: SoundsConfig,
}

/// Default listening address.
pub fn default_server_host() -> (s: String)
    ensures
        s@ == "127.0.0.1"@,
{
    "127.0.0.1".to_owned()
}

/// Default listening port.
pub fn default_server_port() -> (p: u16)
    ensures
        p == 3001,
{
    3001
}

/// Default workspace directory.
pub fn default_workspace_dir() -> (s: String)
    ensures
        s@ == "./workspace"@,
{
    "./workspace".to_owned()
}

/// Default sound-effect directory.
pub fn default_sounds_dir() -> (s: String)
    ensures
        s@ == "./assets/sounds"@,
{
    "./assets/sounds".to_owned()
}

/// Default number of concurrent summary requests.
pub fn default_concurrency() -> (n: usize)
    ensures
        n == 4,
{
    4
}

/// Default output directory.
pub fn default_output_dir() -> (s: String)
    ensures
        s@ == "./output"@,
{
    "./output".to_owned()
}

/// Default limit of lines per paragraph.
pub fn default_max_paragraph_lines() -> (n: usize)
    ensures
        n == 20,
{
    20
}

/// Default audio format.
pub fn default_audio_format() -> (s: String)
    ensures
        s@ == "mp3"@,
{
    "mp3".to_owned()
}

/// Default voice.
pub fn default_tts_voice() -> (s: String)
    ensures
        s@ == "mimo_default"@,
{
    "mimo_default".to_owned()
}

/// Default synthesis timeout in seconds.
pub fn default_tts_timeout() -> (n: u64)
    ensures
        n == 120,
{
    120
}

impl Default for ServerConfig {
    fn default() -> (c: ServerConfig)
        ensures
            c.host@ == "127.0.0.1"@,
            c.port == 3001,
    {
        ServerConfig { host: default_server_host(), port: default_server_port() }
    }
}

impl Default for WorkspaceConfig {
    fn default() -> (c: WorkspaceConfig)
        ensures
            c.dir@ == "./workspace"@,
    {
        WorkspaceConfig { dir: default_workspace_dir() }
    }
}

impl Default for SoundsConfig {
    fn default() -> (c: SoundsConfig)
        ensures
            c.dir@ == "./assets/sounds"@,
    {
        SoundsConfig { dir: default_sounds_dir() }
    }
}

/// The semantic pause lengths of the `wait` action.
#[derive(Debug, Clone, Copy, PartialEq, Eq, Structural)]
pub enum PauseKind {
    Short,
    Medium,
    Long,
}

/// Which pause a duration label means: `short`, `medium` and `long` name
/// their pause; any other label falls back to the medium pause.
pub fn pause_kind(duration: &str) -> (k: PauseKind)
    ensures
        k == (if duration@ == "short"@ {
            PauseKind::Short
        } else if duration@ == "long"@ {
            PauseKind::Long
        } else {
            PauseKind::Medium
        }),
{
    if crate::text::str_eq(duration, "short") {
        PauseKind::Short
    } else if crate::text::str_eq(duration, "long") {
        PauseKind::Long
    } else {
        PauseKind::Medium
    }
}

/// Command-line options.
#[derive(Debug, Clone)]
pub struct Cli {
    /// Configuration file (TOML or JSON).
    pub config: String,
    /// Listening address (overrides the configuration).
    pub host: Option<String>,
    /// Listening port (overrides the configuration).
    pub port: Option<u16>,
    /// Workspace directory (overrides the configuration).
    pub workspace: Option<String>,
}

impl Cli {
    /// Applies the command-line overrides to the configuration: each option
    /// given replaces its setting; nothing else changes.
    pub fn apply_overrides(&self, config: &mut AppConfig)
        ensures
            final(config).server.host@ == (match self.host {
                Some(h) => h@,
                None => old(config).server.host@,
            }),
            final(config).server.port == (match self.port {
                Some(p) => p,
                None => old(config).server.port,
            }),
            final(config).workspace.dir@ == (match self.workspace {
                Some(w) => w@,
                None => old(config).workspace.dir@,
            }),
            final(config).small_model == old(config).small_model,
            final(config).large_model == old(config).large_model,
            final(config).tts_model == old(config).tts_model,
            final(config).voice_design_model == old(config).voice_design_model,
            final(config).voice_clone_model == old(config).voice_clone_model,
            final(config).chapter_regex == old(config).chapter_regex,
            final(config).max_concurrency == old(config).max_concurrency,
            final(config).output_dir == old(config).output_dir,
            final(config).max_paragraph_lines == old(config).max_paragraph_lines,
            final(config).audio_format == old(config).audio_format,
            final(config).tts_voice == old(config).tts_voice,
            final(config).tts_timeout_secs == old(config).tts_timeout_secs,
            final(config).sounds == old(config).sounds,
    {
        if let Some(host) = &self.host {
            config.server.host = host.clone();
        }
        if let Some(port) = self.port {
            config.server.port = port;
        }
        if let Some(ws) = &self.workspace {
            config.workspace.dir = ws.clone();
        }
    }
}

} // verus!
