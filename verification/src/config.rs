//! Configuration: the settings of each part of the indexer, their defaults, and the overrides
//! that environment variables make.
use vstd::prelude::*;

use crate::text::str_eq;

verus! {

/// The strings of `v`, each by its characters.
pub open spec fn strings_view(v: Seq<String>) -> Seq<Seq<char>> {
    v.map_values(|s: String| s@)
}

/// The directory names skipped by default.
pub open spec fn spec_default_exclude_dirs() -> Seq<Seq<char>> {
    seq![
        "target"@,
        "node_modules"@,
        ".git"@,
        "dist"@,
        "build"@,
        "vendor"@,
        "__pycache__"@,
    ]
}

/// The file-name patterns skipped by default.
pub open spec fn spec_default_exclude_patterns() -> Seq<Seq<char>> {
    seq!["*.min.js"@, "*.generated.*"@, "*.pb.go"@]
}

/// A vector of owned strings holding the given literals, in order.
fn strings_of(items: &[&str]) -> (res: Vec<String>)
    ensures
        res@.len() == items@.len(),
        forall|i: int| 0 <= i < items@.len() ==> #[trigger] res@[i]@ == items@[i]@,
{
    let mut res: Vec<String> = Vec::new();
    let mut i: usize = 0;
    while i < items.len()
        invariant
            i <= items@.len(),
            res@.len() == i,
            forall|k: int| 0 <= k < i ==> #[trigger] res@[k]@ == items@[k]@,
        decreases items@.len() - i,
    {
        res.push(String::from_str(items[i]));
        i = i + 1;
    }
    res
}

/// The directory names skipped by default: build outputs, dependencies and VCS metadata.
pub fn default_exclude_dirs() -> (res: Vec<String>)
    ensures
        strings_view(res@) == spec_default_exclude_dirs(),
{
    let items = ["target", "node_modules", ".git", "dist", "build", "vendor", "__pycache__"];
    let res = strings_of(&items);
    proof {
        reveal_strlit("target");
        reveal_strlit("node_modules");
        reveal_strlit(".git");
        reveal_strlit("dist");
        reveal_strlit("build");
        reveal_strlit("vendor");
        reveal_strlit("__pycache__");
        assert(strings_view(res@) =~= spec_default_exclude_dirs());
    }
    res
}

/// The file-name patterns skipped by default: minified, generated and protobuf output.
pub fn default_exclude_patterns() -> (res: Vec<String>)
    ensures
        strings_view(res@) == spec_default_exclude_patterns(),
{
    let items = ["*.min.js", "*.generated.*", "*.pb.go"];
    let res = strings_of(&items);
    proof {
        reveal_strlit("*.min.js");
        reveal_strlit("*.generated.*");
        reveal_strlit("*.pb.go");
        assert(strings_view(res@) =~= spec_default_exclude_patterns());
    }
    res
}

/// Files larger than this many bytes are not indexed, by default.
pub fn default_max_file_size() -> (n: u64)
    ensures
        n == 1_048_576,
{
    1_048_576
}

/// The embedding provider chosen by default: the first one that answers.
pub fn default_embedding_provider() -> (s: String)
    ensures
        s@ == "auto"@,
{
    String::from_str("auto")
}

/// Embeddings are on by default.
pub fn default_embedding_enabled() -> (b: bool)
    ensures
        b,
{
    true
}

/// Where the jina-grep server listens by default.
pub fn default_jina_grep_url() -> (s: String)
    ensures
        s@ == "http://localhost:8089"@,
{
    String::from_str("http://localhost:8089")
}

/// The jina-grep model used by default.
pub fn default_jina_grep_model() -> (s: String)
    ensures
        s@ == "jina-code-embeddings-0.5b"@,
{
    String::from_str("jina-code-embeddings-0.5b")
}

/// The dimension jina-grep embeddings are truncated to by default.
pub fn default_jina_grep_truncate_dim() -> (d: Option<u32>)
    ensures
        d == Some(256u32),
{
    Some(256)
}

/// How many texts go to jina-grep in one request, by default.
pub fn default_jina_grep_batch_size() -> (n: usize)
    ensures
        n == 256,
{
    256
}

/// Where Ollama listens by default.
pub fn default_ollama_url() -> (s: String)
    ensures
        s@ == "http://localhost:11434"@,
{
    String::from_str("http://localhost:11434")
}

/// The Ollama model used by default.
pub fn default_ollama_model() -> (s: String)
    ensures
        s@ == "nomic-embed-text"@,
{
    String::from_str("nomic-embed-text")
}

/// How many texts go to Ollama in one request, by default.
pub fn default_ollama_batch_size() -> (n: usize)
    ensures
        n == 64,
{
    64
}

/// How many results a search returns when the caller names no limit.
pub fn default_search_limit() -> (n: usize)
    ensures
        n == 20,
{
    20
}

/// The most results a search returns, whatever the caller asks for.
pub fn default_search_max_limit() -> (n: usize)
    ensures
        n == 100,
{
    100
}

/// The constant `k` of reciprocal rank fusion, by default.
pub fn default_rrf_k() -> (n: usize)
    ensures
        n == 60,
{
    60
}

/// The directory, below the repository, that holds the index by default.
pub fn default_db_dir() -> (s: String)
    ensures
        s@ == ".code-indexer"@,
{
    String::from_str(".code-indexer")
}

/// Settings of the jina-grep embedding server.
#[derive(Debug, Clone)]
pub struct JinaGrepConfig {
    pub url: String,
    pub model: String,
    pub task: Option<String>,
    pub truncate_dim: Option<u32>,
    pub batch_size: usize,
}

impl Default for JinaGrepConfig {
    fn default() -> (c: Self)
        ensures
            c.url@ == "http://localhost:8089"@,
            c.model@ == "jina-code-embeddings-0.5b"@,
            c.task is None,
            c.truncate_dim == Some(256u32),
            c.batch_size == 256,
    {
        JinaGrepConfig {
            url: default_jina_grep_url(),
            model: default_jina_grep_model(),
            task: None,
            truncate_dim: default_jina_grep_truncate_dim(),
            batch_size: default_jina_grep_batch_size(),
        }
    }
}

/// Settings of the Ollama embedding server.
#[derive(Debug, Clone)]
pub struct OllamaConfig {
    pub url: String,
    pub model: String,
    pub batch_size: usize,
}

impl Default for OllamaConfig {
    fn default() -> (c: Self)
        ensures
            c.url@ == "http://localhost:11434"@,
            c.model@ == "nomic-embed-text"@,
            c.batch_size == 64,
    {
        OllamaConfig {
            url: default_ollama_url(),
            model: default_ollama_model(),
            batch_size: default_ollama_batch_size(),
        }
    }
}

/// Settings of an OpenAI-compatible embedding endpoint.
#[derive(Debug, Clone)]
pub struct OpenAiCompatConfig {
    pub url: Option<String>,
    pub model: String,
    pub api_key_env: Option<String>,
    pub batch_size: usize,
}

impl Default for OpenAiCompatConfig {
    fn default() -> (c: Self)
        ensures
            c.url is None,
            c.model@ == "text-embedding-3-small"@,
            c.api_key_env is None,
            c.batch_size == 64,
    {
        OpenAiCompatConfig {
            url: None,
            model: String::from_str("text-embedding-3-small"),
            api_key_env: None,
            batch_size: 64,
        }
    }
}

/// Settings of the embedding step: which provider, whether at all, and each provider's own.
#[derive(Debug, Clone)]
pub struct EmbeddingConfig {
    pub provider: String,
    pub enabled: bool,
    pub jina_grep: JinaGrepConfig,
    pub ollama: OllamaConfig,
    pub openai_compat: OpenAiCompatConfig,
}

impl Default for EmbeddingConfig {
    fn default() -> (c: Self)
        ensures
            c.provider@ == "auto"@,
            c.enabled,
            c.jina_grep.url@ == "http://localhost:8089"@,
            c.jina_grep.model@ == "jina-code-embeddings-0.5b"@,
            c.jina_grep.task is None,
            c.jina_grep.truncate_dim == Some(256u32),
            c.jina_grep.batch_size == 256,
            c.ollama.url@ == "http://localhost:11434"@,
            c.ollama.model@ == "nomic-embed-text"@,
            c.ollama.batch_size == 64,
            c.openai_compat.url is None,
            c.openai_compat.model@ == "text-embedding-3-small"@,
            c.openai_compat.api_key_env is None,
            c.openai_compat.batch_size == 64,
    {
        EmbeddingConfig {
            provider: default_embedding_provider(),
            enabled: default_embedding_enabled(),
            jina_grep: JinaGrepConfig::default(),
            ollama: OllamaConfig::default(),
            openai_compat: OpenAiCompatConfig::default(),
        }
    }
}

/// Settings of file discovery and indexing.
#[derive(Debug, Clone)]
pub struct IndexerConfig {
    pub languages: Vec<String>,
    pub max_file_size: u64,
    pub exclude_dirs: Vec<String>,
    pub exclude_patterns: Vec<String>,
    pub watch: bool,
    pub watch_debounce_ms: u64,
}

impl Default for IndexerConfig {
    fn default() -> (c: Self)
        ensures
            c.languages@.len() == 0,
            c.max_file_size == 1_048_576,
            strings_view(c.exclude_dirs@) == spec_default_exclude_dirs(),
            strings_view(c.exclude_patterns@) == spec_default_exclude_patterns(),
            !c.watch,
            c.watch_debounce_ms == 500,
    {
        IndexerConfig {
            languages: Vec::new(),
            max_file_size: default_max_file_size(),
            exclude_dirs: default_exclude_dirs(),
            exclude_patterns: default_exclude_patterns(),
            watch: false,
            watch_debounce_ms: 500,
        }
    }
}

/// Settings of the index storage.
#[derive(Debug, Clone)]
pub struct StorageConfig {
    pub db_dir: String,
}

impl Default for StorageConfig {
    fn default() -> (c: Self)
        ensures
            c.db_dir@ == ".code-indexer"@,
    {
        StorageConfig { db_dir: default_db_dir() }
    }
}

/// What `str::parse::<bool>` gives: `true` and `false` for those words, nothing for any other
/// text.
pub open spec fn spec_parse_bool(s: Seq<char>) -> Option<bool> {
    if s == "true"@ {
        Some(true)
    } else if s == "false"@ {
        Some(false)
    } else {
        None
    }
}

/// Reads `true` or `false`; any other text is no boolean.
pub fn parse_bool(s: &str) -> (b: Option<bool>)
    ensures
        b == spec_parse_bool(s@),
{
    if str_eq(s, "true") {
        Some(true)
    } else if str_eq(s, "false") {
        Some(false)
    } else {
        None
    }
}

/// The values of the environment variables that override embedding settings, each `None`
/// where the variable is unset: `CODE_INDEXER_EMBEDDING_PROVIDER`,
/// `CODE_INDEXER_JINA_GREP_URL`, `CODE_INDEXER_OLLAMA_URL`, `CODE_INDEXER_API_KEY` and
/// `CODE_INDEXER_EMBEDDING_ENABLED`.
#[derive(Debug, Clone)]
pub struct EnvOverrides {
    pub embedding_provider: Option<String>,
    pub jina_grep_url: Option<String>,
    pub ollama_url: Option<String>,
    pub api_key: Option<String>,
    pub embedding_enabled: Option<String>,
}

/// The variable that holds the API key of an OpenAI-compatible provider, when it is set.
pub open spec fn spec_api_key_var() -> Seq<char> {
    "CODE_INDEXER_API_KEY"@
}

/// `n` is the embedding settings `c` after the overrides `env`: each variable that is set
/// replaces its setting (`CODE_INDEXER_EMBEDDING_ENABLED` only when it reads as a boolean),
/// and a set `CODE_INDEXER_API_KEY` makes that variable the one the API key is read from.
pub open spec fn env_applied(n: EmbeddingConfig, c: EmbeddingConfig, env: EnvOverrides) -> bool {
    &&& n.provider == (match env.embedding_provider {
        Some(v) => v,
        None => c.provider,
    })
    &&& n.enabled == (match env.embedding_enabled {
        Some(v) => match spec_parse_bool(v@) {
            Some(b) => b,
            None => c.enabled,
        },
        None => c.enabled,
    })
    &&& n.jina_grep == (JinaGrepConfig {
        url: match env.jina_grep_url {
            Some(v) => v,
            None => c.jina_grep.url,
        },
        ..c.jina_grep
    })
    &&& n.ollama == (OllamaConfig {
        url: match env.ollama_url {
            Some(v) => v,
            None => c.ollama.url,
        },
        ..c.ollama
    })
    &&& n.openai_compat.url == c.openai_compat.url
    &&& n.openai_compat.model == c.openai_compat.model
    &&& n.openai_compat.batch_size == c.openai_compat.batch_size
    &&& env.api_key is None ==> n.openai_compat.api_key_env == c.openai_compat.api_key_env
    &&& env.api_key is Some ==> (n.openai_compat.api_key_env matches Some(k) && k@ == spec_api_key_var())
}

impl EmbeddingConfig {
    /// These settings with the environment overrides applied.
    pub fn with_env(self, env: EnvOverrides) -> (c: EmbeddingConfig)
        ensures
            env_applied(c, self, env),
    {
        let mut c = self;
        if let Some(v) = env.embedding_provider {
            c.provider = v;
        }
        if let Some(v) = env.jina_grep_url {
            c.jina_grep.url = v;
        }
        if let Some(v) = env.ollama_url {
            c.ollama.url = v;
        }
        if env.api_key.is_some() {
            c.openai_compat.api_key_env = Some(String::from_str("CODE_INDEXER_API_KEY"));
            proof {
                reveal_strlit("CODE_INDEXER_API_KEY");
            }
        }
        if let Some(v) = env.embedding_enabled {
            if let Some(b) = parse_bool(v.as_str()) {
                c.enabled = b;
            }
        }
        c
    }
}

/// With no variable set, the environment changes no setting.
pub proof fn lemma_env_unset_changes_nothing(n: EmbeddingConfig, c: EmbeddingConfig, env: EnvOverrides)
    requires
        env.embedding_provider is None,
        env.jina_grep_url is None,
        env.ollama_url is None,
        env.api_key is None,
        env.embedding_enabled is None,
        env_applied(n, c, env),
    ensures
        n == c,
{
}

/// Environment overrides take precedence over any earlier setting: applying them to settings
/// that they already override gives what applying them once gives.
pub proof fn lemma_env_overrides_idempotent(
    n1: EmbeddingConfig,
    n2: EmbeddingConfig,
    c: EmbeddingConfig,
    env: EnvOverrides,
)
    requires
        env_applied(n1, c, env),
        env_applied(n2, n1, env),
    ensures
        env_applied(n2, c, env),
{
}

/// Each variable that is set decides its setting, whatever the settings were before.
pub proof fn lemma_env_overrides_win(
    n1: EmbeddingConfig,
    c1: EmbeddingConfig,
    n2: EmbeddingConfig,
    c2: EmbeddingConfig,
    env: EnvOverrides,
)
    requires
        env_applied(n1, c1, env),
        env_applied(n2, c2, env),
    ensures
        env.embedding_provider is Some ==> n1.provider == n2.provider,
        env.jina_grep_url is Some ==> n1.jina_grep.url == n2.jina_grep.url,
        env.ollama_url is Some ==> n1.ollama.url == n2.ollama.url,
        env.api_key is Some ==> (n1.openai_compat.api_key_env matches Some(a) && n2.openai_compat.api_key_env matches Some(b) && a@ == b@),
        (env.embedding_enabled matches Some(v) && spec_parse_bool(v@) is Some) ==> n1.enabled
            == n2.enabled,
{
}

// ---------------------------------------------------------------------------
// Layers
// ---------------------------------------------------------------------------

/// The value a layer sets, or else the value below it.
pub open spec fn or_below<T>(set: Option<T>, below: T) -> T {
    match set {
        Some(v) => v,
        None => below,
    }
}

/// The value a layer sets, or else the value below it.
fn pick<T>(set: Option<T>, below: T) -> (r: T)
    ensures
        r == or_below(set, below),
{
    match set {
        Some(v) => v,
        None => below,
    }
}

/// The jina-grep settings one configuration file sets; `None` where it sets nothing.
#[derive(Debug, Clone)]
pub struct JinaGrepLayer {
    pub url: Option<String>,
    pub model: Option<String>,
    pub task: Option<String>,
    pub truncate_dim: Option<u32>,
    pub batch_size: Option<usize>,
}

/// The Ollama settings one configuration file sets.
#[derive(Debug, Clone)]
pub struct OllamaLayer {
    pub url: Option<String>,
    pub model: Option<String>,
    pub batch_size: Option<usize>,
}

/// The OpenAI-compatible settings one configuration file sets.
#[derive(Debug, Clone)]
pub struct OpenAiCompatLayer {
    pub url: Option<String>,
    pub model: Option<String>,
    pub api_key_env: Option<String>,
    pub batch_size: Option<usize>,
}

/// The embedding settings one configuration file sets.
#[derive(Debug, Clone)]
pub struct EmbeddingLayer {
    pub provider: Option<String>,
    pub enabled: Option<bool>,
    pub jina_grep: JinaGrepLayer,
    pub ollama: OllamaLayer,
    pub openai_compat: OpenAiCompatLayer,
}

/// The indexer settings one configuration file sets.
#[derive(Debug, Clone)]
pub struct IndexerLayer {
    pub languages: Option<Vec<String>>,
    pub max_file_size: Option<u64>,
    pub exclude_dirs: Option<Vec<String>>,
    pub exclude_patterns: Option<Vec<String>>,
    pub watch: Option<bool>,
    pub watch_debounce_ms: Option<u64>,
}

/// The storage settings one configuration file sets.
#[derive(Debug, Clone)]
pub struct StorageLayer {
    pub db_dir: Option<String>,
}

impl JinaGrepConfig {
    /// These settings under a layer: each setting the layer sets wins.
    pub fn layered(self, over: JinaGrepLayer) -> (c: Self)
        ensures
            c.url == or_below(over.url, self.url),
            c.model == or_below(over.model, self.model),
            c.task == (if over.task is Some { over.task } else { self.task }),
            c.truncate_dim == (if over.truncate_dim is Some { over.truncate_dim } else { self.truncate_dim }),
            c.batch_size == or_below(over.batch_size, self.batch_size),
    {
        JinaGrepConfig {
            url: pick(over.url, self.url),
            model: pick(over.model, self.model),
            task: match over.task {
                Some(t) => Some(t),
                None => self.task,
            },
            truncate_dim: match over.truncate_dim {
                Some(d) => Some(d),
                None => self.truncate_dim,
            },
            batch_size: pick(over.batch_size, self.batch_size),
        }
    }
}

impl OllamaConfig {
    /// These settings under a layer: each setting the layer sets wins.
    pub fn layered(self, over: OllamaLayer) -> (c: Self)
        ensures
            c.url == or_below(over.url, self.url),
            c.model == or_below(over.model, self.model),
            c.batch_size == or_below(over.batch_size, self.batch_size),
    {
        OllamaConfig {
            url: pick(over.url, self.url),
            model: pick(over.model, self.model),
            batch_size: pick(over.batch_size, self.batch_size),
        }
    }
}

impl OpenAiCompatConfig {
    /// These settings under a layer: each setting the layer sets wins.
    pub fn layered(self, over: OpenAiCompatLayer) -> (c: Self)
        ensures
            c.url == (if over.url is Some { over.url } else { self.url }),
            c.model == or_below(over.model, self.model),
            c.api_key_env == (if over.api_key_env is Some { over.api_key_env } else { self.api_key_env }),
            c.batch_size == or_below(over.batch_size, self.batch_size),
    {
        OpenAiCompatConfig {
            url: match over.url {
                Some(u) => Some(u),
                None => self.url,
            },
            model: pick(over.model, self.model),
            api_key_env: match over.api_key_env {
                Some(k) => Some(k),
                None => self.api_key_env,
            },
            batch_size: pick(over.batch_size, self.batch_size),
        }
    }
}

impl EmbeddingConfig {
    /// These settings under a layer: each setting the layer sets wins, section by section.
    pub fn layered(self, over: EmbeddingLayer) -> (c: Self)
        ensures
            c.provider == or_below(over.provider, self.provider),
            c.enabled == or_below(over.enabled, self.enabled),
            c.jina_grep.url == or_below(over.jina_grep.url, self.jina_grep.url),
            c.jina_grep.model == or_below(over.jina_grep.model, self.jina_grep.model),
            c.jina_grep.task == (if over.jina_grep.task is Some { over.jina_grep.task } else { self.jina_grep.task }),
            c.jina_grep.truncate_dim == (if over.jina_grep.truncate_dim is Some {
                over.jina_grep.truncate_dim
            } else {
                self.jina_grep.truncate_dim
            }),
            c.jina_grep.batch_size == or_below(over.jina_grep.batch_size, self.jina_grep.batch_size),
            c.ollama.url == or_below(over.ollama.url, self.ollama.url),
            c.ollama.model == or_below(over.ollama.model, self.ollama.model),
            c.ollama.batch_size == or_below(over.ollama.batch_size, self.ollama.batch_size),
            c.openai_compat.url == (if over.openai_compat.url is Some {
                over.openai_compat.url
            } else {
                self.openai_compat.url
            }),
            c.openai_compat.model == or_below(over.openai_compat.model, self.openai_compat.model),
            c.openai_compat.api_key_env == (if over.openai_compat.api_key_env is Some {
                over.openai_compat.api_key_env
            } else {
                self.openai_compat.api_key_env
            }),
            c.openai_compat.batch_size == or_below(over.openai_compat.batch_size, self.openai_compat.batch_size),
    {
        EmbeddingConfig {
            provider: pick(over.provider, self.provider),
            enabled: pick(over.enabled, self.enabled),
            jina_grep: self.jina_grep.layered(over.jina_grep),
            ollama: self.ollama.layered(over.ollama),
            openai_compat: self.openai_compat.layered(over.openai_compat),
        }
    }
}

impl IndexerConfig {
    /// These settings under a layer: each setting the layer sets wins.
    pub fn layered(self, over: IndexerLayer) -> (c: Self)
        ensures
            c.languages == or_below(over.languages, self.languages),
            c.max_file_size == or_below(over.max_file_size, self.max_file_size),
            c.exclude_dirs == or_below(over.exclude_dirs, self.exclude_dirs),
            c.exclude_patterns == or_below(over.exclude_patterns, self.exclude_patterns),
            c.watch == or_below(over.watch, self.watch),
            c.watch_debounce_ms == or_below(over.watch_debounce_ms, self.watch_debounce_ms),
    {
        IndexerConfig {
            languages: pick(over.languages, self.languages),
            max_file_size: pick(over.max_file_size, self.max_file_size),
            exclude_dirs: pick(over.exclude_dirs, self.exclude_dirs),
            exclude_patterns: pick(over.exclude_patterns, self.exclude_patterns),
            watch: pick(over.watch, self.watch),
            watch_debounce_ms: pick(over.watch_debounce_ms, self.watch_debounce_ms),
        }
    }
}

impl StorageConfig {
    /// These settings under a layer: the directory the layer sets wins.
    pub fn layered(self, over: StorageLayer) -> (c: Self)
        ensures
            c.db_dir == or_below(over.db_dir, self.db_dir),
    {
        StorageConfig { db_dir: pick(over.db_dir, self.db_dir) }
    }
}

/// Precedence of layers: a setting that the upper layer sets is the upper layer's, whatever
/// lies below; one it leaves unset is the one below.
pub proof fn lemma_upper_layer_wins<T>(set: Option<T>, below1: T, below2: T)
    ensures
        set is Some ==> or_below(set, below1) == or_below(set, below2),
        set is None ==> or_below(set, below1) == below1,
{
}

} // verus!
