//! Embedding providers as plain settings: which ones are tried and in what order, where each
//! one is reached, what it returns, and what text a chunk is embedded as.
use vstd::prelude::*;

use crate::config::{EmbeddingConfig, JinaGrepConfig, OllamaConfig, OpenAiCompatConfig};
use crate::text::str_eq;
use crate::types::Chunk;

verus! {

/// The embedding services the indexer can use.
#[derive(Debug, Clone, Copy, PartialEq, Eq, Structural)]
pub enum ProviderKind {
    Jina,
    Ollama,
    OpenAiCompat,
}

impl ProviderKind {
    /// The word that selects this provider in the `provider` setting.
    pub open spec fn spec_keyword(self) -> Seq<char> {
        match self {
            ProviderKind::Jina => "jina"@,
            ProviderKind::Ollama => "ollama"@,
            ProviderKind::OpenAiCompat => "openai"@,
        }
    }

    /// The word that selects this provider in the `provider` setting.
    pub fn keyword(&self) -> (s: &'static str)
        ensures
            s@ == self.spec_keyword(),
    {
        match self {
            ProviderKind::Jina => "jina",
            ProviderKind::Ollama => "ollama",
            ProviderKind::OpenAiCompat => "openai",
        }
    }
}

/// The order in which providers are tried.
pub open spec fn provider_order() -> Seq<ProviderKind> {
    seq![ProviderKind::Jina, ProviderKind::Ollama, ProviderKind::OpenAiCompat]
}

/// The provider setting `pref` lets `k` be tried: it names `k`, or it is `auto`.
pub open spec fn allowed_by(pref: Seq<char>, k: ProviderKind) -> bool {
    pref == "auto"@ || pref == k.spec_keyword()
}

/// The providers tried, in order, under the given settings: none when embeddings are off;
/// otherwise those of jina-grep, Ollama and OpenAI-compatible, in that order, that the
/// provider setting allows.
pub open spec fn spec_provider_candidates(enabled: bool, pref: Seq<char>) -> Seq<ProviderKind> {
    if !enabled {
        Seq::empty()
    } else {
        provider_order().filter(|k: ProviderKind| allowed_by(pref, k))
    }
}

/// The providers to try, in order; the first one whose health check passes is used, and none
/// is used when none passes.
pub fn provider_candidates(config: &EmbeddingConfig) -> (res: Vec<ProviderKind>)
    ensures
        res@ == spec_provider_candidates(config.enabled, config.provider@),
{
    let mut res: Vec<ProviderKind> = Vec::new();
    if !config.enabled {
        return res;
    }
    let pref = config.provider.as_str();
    let auto = str_eq(pref, "auto");
    proof {
        reveal_strlit("auto");
        reveal_strlit("jina");
        reveal_strlit("ollama");
        reveal_strlit("openai");
    }
    let ghost order = provider_order();
    let ghost f = |k: ProviderKind| allowed_by(pref@, k);
    proof {
        assert(order.take(0).filter(f) =~= Seq::<ProviderKind>::empty());
    }
    if auto || str_eq(pref, "jina") {
        res.push(ProviderKind::Jina);
    }
    proof {
        assert(order.take(1) =~= order.take(0).push(order[0]));
        order.take(0).lemma_filter_push(order[0], f);
        assert(res@ =~= order.take(1).filter(f));
    }
    if auto || str_eq(pref, "ollama") {
        res.push(ProviderKind::Ollama);
    }
    proof {
        assert(order.take(2) =~= order.take(1).push(order[1]));
        order.take(1).lemma_filter_push(order[1], f);
        assert(res@ =~= order.take(2).filter(f));
    }
    if auto || str_eq(pref, "openai") {
        res.push(ProviderKind::OpenAiCompat);
    }
    proof {
        assert(order.take(3) =~= order.take(2).push(order[2]));
        order.take(2).lemma_filter_push(order[2], f);
        assert(order.take(3) =~= order);
        assert(res@ =~= order.filter(f));
    }
    res
}

/// No provider keyword is `auto`, and the keywords differ from each other.
proof fn lemma_keywords_distinct()
    ensures
        "auto"@ != ProviderKind::Jina.spec_keyword(),
        "auto"@ != ProviderKind::Ollama.spec_keyword(),
        "auto"@ != ProviderKind::OpenAiCompat.spec_keyword(),
        ProviderKind::Jina.spec_keyword() != ProviderKind::Ollama.spec_keyword(),
        ProviderKind::Jina.spec_keyword() != ProviderKind::OpenAiCompat.spec_keyword(),
        ProviderKind::Ollama.spec_keyword() != ProviderKind::OpenAiCompat.spec_keyword(),
{
    reveal_strlit("auto");
    reveal_strlit("jina");
    reveal_strlit("ollama");
    reveal_strlit("openai");
    assert("auto"@[0] != "jina"@[0]);
    assert("ollama"@[1] != "openai"@[1]);
}

/// Provider detection tries nothing when embeddings are off; tries jina-grep, then Ollama,
/// then an OpenAI-compatible endpoint under `auto`; tries only the named provider when the
/// setting names one; and tries nothing for any other setting.
pub proof fn lemma_provider_candidates(enabled: bool, pref: Seq<char>, k: ProviderKind)
    ensures
        !enabled ==> spec_provider_candidates(enabled, pref).len() == 0,
        enabled && pref == "auto"@ ==> spec_provider_candidates(enabled, pref) == provider_order(),
        enabled && pref == k.spec_keyword() ==> spec_provider_candidates(enabled, pref) == seq![k],
        enabled && pref != "auto"@ && pref != ProviderKind::Jina.spec_keyword() && pref
            != ProviderKind::Ollama.spec_keyword() && pref != ProviderKind::OpenAiCompat.spec_keyword()
            ==> spec_provider_candidates(enabled, pref).len() == 0,
{
    lemma_keywords_distinct();
    let order = provider_order();
    let f = |x: ProviderKind| allowed_by(pref, x);
    assert(order.take(0).filter(f) =~= Seq::<ProviderKind>::empty());
    assert(order.take(1) =~= order.take(0).push(order[0]));
    order.take(0).lemma_filter_push(order[0], f);
    assert(order.take(2) =~= order.take(1).push(order[1]));
    order.take(1).lemma_filter_push(order[1], f);
    assert(order.take(3) =~= order.take(2).push(order[2]));
    order.take(2).lemma_filter_push(order[2], f);
    assert(order.take(3) =~= order);
    if enabled && pref == "auto"@ {
        assert(order.filter(f) =~= order);
    }
    if enabled && pref == k.spec_keyword() {
        assert(order.filter(f) =~= seq![k]);
    }
}

/// `base` followed by `suffix`.
fn joined(base: &str, suffix: &str) -> (s: String)
    ensures
        s@ == base@ + suffix@,
{
    let mut s = String::from_str(base);
    s.append(suffix);
    s
}

/// The jina-grep embedding server, by its settings.
#[derive(Debug, Clone)]
pub struct JinaProvider {
    pub url: String,
    pub model: String,
    pub truncate_dim: Option<usize>,
    pub batch_size: usize,
}

impl JinaProvider {
    /// The provider that the jina-grep settings describe.
    pub fn new(config: &JinaGrepConfig) -> (p: Self)
        ensures
            p.url@ == config.url@,
            p.model@ == config.model@,
            p.truncate_dim == (match config.truncate_dim {
                Some(d) => Some(d as usize),
                None => None,
            }),
            p.batch_size == config.batch_size,
    {
        JinaProvider {
            url: config.url.clone(),
            model: config.model.clone(),
            truncate_dim: match config.truncate_dim {
                Some(d) => Some(d as usize),
                None => None,
            },
            batch_size: config.batch_size,
        }
    }

    /// The length of the vectors it returns: the truncation dimension, or 896, the model's
    /// own.
    pub fn dimensions(&self) -> (n: usize)
        ensures
            n == self.truncate_dim.unwrap_or(896),
    {
        match self.truncate_dim {
            Some(d) => d,
            None => 896,
        }
    }

    /// The name it reports.
    pub fn provider_name(&self) -> (s: &'static str)
        ensures
            s@ == "jina-grep"@,
    {
        "jina-grep"
    }

    /// How many texts go in one request.
    pub fn max_batch_size(&self) -> (n: usize)
        ensures
            n == self.batch_size,
    {
        self.batch_size
    }

    /// Where embedding requests go: `/v1/embeddings` below the server's URL.
    pub fn embed_url(&self) -> (s: String)
        ensures
            s@ == self.url@ + "/v1/embeddings"@,
    {
        joined(self.url.as_str(), "/v1/embeddings")
    }

    /// Where the health check goes: `/health` below the server's URL.
    pub fn health_url(&self) -> (s: String)
        ensures
            s@ == self.url@ + "/health"@,
    {
        joined(self.url.as_str(), "/health")
    }
}

/// The Ollama embedding server, by its settings.
#[derive(Debug, Clone)]
pub struct OllamaProvider {
    pub url: String,
    pub model: String,
    pub batch_size: usize,
    pub dimensions: usize,
}

impl OllamaProvider {
    /// The provider that the Ollama settings describe; its vectors have the 768 dimensions of
    /// `nomic-embed-text`.
    pub fn new(config: &OllamaConfig) -> (p: Self)
        ensures
            p.url@ == config.url@,
            p.model@ == config.model@,
            p.batch_size == config.batch_size,
            p.dimensions == 768,
    {
        OllamaProvider {
            url: config.url.clone(),
            model: config.model.clone(),
            batch_size: config.batch_size,
            dimensions: 768,
        }
    }

    /// The length of the vectors it returns.
    pub fn dimensions(&self) -> (n: usize)
        ensures
            n == self.dimensions,
    {
        self.dimensions
    }

    /// The name it reports.
    pub fn provider_name(&self) -> (s: &'static str)
        ensures
            s@ == "ollama"@,
    {
        "ollama"
    }

    /// How many texts go in one request.
    pub fn max_batch_size(&self) -> (n: usize)
        ensures
            n == self.batch_size,
    {
        self.batch_size
    }

    /// Where embedding requests go: `/api/embed` below the server's URL.
    pub fn embed_url(&self) -> (s: String)
        ensures
            s@ == self.url@ + "/api/embed"@,
    {
        joined(self.url.as_str(), "/api/embed")
    }

    /// Where the health check goes: `/api/tags` below the server's URL.
    pub fn health_url(&self) -> (s: String)
        ensures
            s@ == self.url@ + "/api/tags"@,
    {
        joined(self.url.as_str(), "/api/tags")
    }
}

/// The endpoint an OpenAI-compatible provider uses when its settings name none.
pub open spec fn spec_default_openai_url() -> Seq<char> {
    "https://api.openai.com/v1/embeddings"@
}

/// An OpenAI-compatible embedding endpoint, by its settings.
#[derive(Debug, Clone)]
pub struct OpenAiCompatProvider {
    pub url: String,
    pub model: String,
    pub api_key: Option<String>,
    pub batch_size: usize,
}

impl OpenAiCompatProvider {
    /// The provider that the settings describe, with `api_key` the value of the environment
    /// variable the settings name (if any, and if set); the endpoint is OpenAI's own where the
    /// settings name none.
    pub fn new(config: &OpenAiCompatConfig, api_key: Option<String>) -> (p: Self)
        ensures
            p.url@ == (match config.url {
                Some(u) => u@,
                None => spec_default_openai_url(),
            }),
            p.model@ == config.model@,
            p.api_key == api_key,
            p.batch_size == config.batch_size,
    {
        let url = match &config.url {
            Some(u) => u.clone(),
            None => {
                proof {
                    reveal_strlit("https://api.openai.com/v1/embeddings");
                }
                String::from_str("https://api.openai.com/v1/embeddings")
            },
        };
        OpenAiCompatProvider {
            url,
            model: config.model.clone(),
            api_key,
            batch_size: config.batch_size,
        }
    }

    /// The length of the vectors it returns: 1536.
    pub fn dimensions(&self) -> (n: usize)
        ensures
            n == 1536,
    {
        1536
    }

    /// The name it reports.
    pub fn provider_name(&self) -> (s: &'static str)
        ensures
            s@ == "openai-compat"@,
    {
        "openai-compat"
    }

    /// How many texts go in one request.
    pub fn max_batch_size(&self) -> (n: usize)
        ensures
            n == self.batch_size,
    {
        self.batch_size
    }
}

/// The text a chunk is embedded as: its content, after its preamble and a line feed where it
/// has a preamble.
pub open spec fn spec_embedding_text(preamble: Seq<char>, content: Seq<char>) -> Seq<char> {
    if preamble.len() == 0 {
        content
    } else {
        preamble + seq!['\n'] + content
    }
}

/// The text a chunk is embedded as.
pub fn embedding_text(chunk: &Chunk) -> (s: String)
    ensures
        s@ == spec_embedding_text(chunk.preamble@, chunk.content@),
{
    if chunk.preamble.as_str().unicode_len() == 0 {
        chunk.content.clone()
    } else {
        let mut s = chunk.preamble.clone();
        s.append("\n");
        s.append(chunk.content.as_str());
        proof {
            reveal_strlit("\n");
        }
        s
    }
}

/// Whether the embedding step starts a jina-grep server it finds not running: only when the
/// provider setting is `jina` or `auto`.
pub fn should_autostart_jina(provider: &str) -> (b: bool)
    ensures
        b == (provider@ == "jina"@ || provider@ == "auto"@),
{
    str_eq(provider, "jina") || str_eq(provider, "auto")
}

/// What the embedding step tells the user when no provider answers.
pub fn provider_hint(provider: &str) -> (s: &'static str)
    ensures
        s@ == (if provider@ == "jina"@ {
            "  Install jina-grep: uv tool install jina-grep --from git+https://github.com/jina-ai/jina-grep-cli.git"@
        } else if provider@ == "ollama"@ {
            "  Start Ollama: ollama serve"@
        } else {
            "  Start your configured embedding provider"@
        }),
{
    if str_eq(provider, "jina") {
        "  Install jina-grep: uv tool install jina-grep --from git+https://github.com/jina-ai/jina-grep-cli.git"
    } else if str_eq(provider, "ollama") {
        "  Start Ollama: ollama serve"
    } else {
        "  Start your configured embedding provider"
    }
}

/// How many failed attempts in a row the embedding step tolerates before it gives up.
pub const MAX_EMBED_RETRIES: u32 = 3;

/// Where the embedding step stands: how many chunks it has embedded, and how many attempts in
/// a row have failed.
#[derive(Debug, Clone, Copy, PartialEq, Eq, Structural)]
pub struct EmbedProgress {
    pub embedded: usize,
    pub retries: u32,
}

/// What the embedding step does after a failed attempt.
#[derive(Debug, Clone, Copy, PartialEq, Eq, Structural)]
pub enum AfterFailure {
    /// Wait, then try the same batch again; `attempt` failures in a row so far.
    Retry { attempt: u32 },
    /// Stop with an error: the attempts are used up.
    GiveUp,
}

impl EmbedProgress {
    /// Nothing embedded, no failure yet.
    pub fn new() -> (p: Self)
        ensures
            p == (EmbedProgress { embedded: 0, retries: 0 }),
    {
        EmbedProgress { embedded: 0, retries: 0 }
    }

    /// A batch of `stored` chunks was embedded and stored: the count grows by it and the
    /// failures in a row start again from zero.
    pub fn batch_stored(&mut self, stored: usize)
        requires
            old(self).embedded + stored <= usize::MAX,
        ensures
            *final(self) == (EmbedProgress { embedded: (old(self).embedded + stored) as usize, retries: 0 }),
    {
        self.embedded = self.embedded + stored;
        self.retries = 0;
    }

    /// An attempt failed: one more failure in a row; the step retries while there have been at
    /// most `MAX_EMBED_RETRIES` of them, and gives up after that.
    pub fn attempt_failed(&mut self) -> (r: AfterFailure)
        requires
            old(self).retries < u32::MAX,
        ensures
            final(self).embedded == old(self).embedded,
            final(self).retries == old(self).retries + 1,
            r == (if old(self).retries + 1 > MAX_EMBED_RETRIES {
                AfterFailure::GiveUp
            } else {
                AfterFailure::Retry { attempt: (old(self).retries + 1) as u32 }
            }),
    {
        self.retries = self.retries + 1;
        if self.retries > MAX_EMBED_RETRIES {
            AfterFailure::GiveUp
        } else {
            AfterFailure::Retry { attempt: self.retries }
        }
    }
}

/// What provider detection does next.
#[derive(Debug, Clone, Copy, PartialEq, Eq, Structural)]
pub enum DetectStep {
    /// Run the health check of this provider.
    Probe(ProviderKind),
    /// Use this provider: its health check passed.
    Use(ProviderKind),
    /// Use no provider (keyword search only): none passed.
    NoProvider,
}

/// Provider detection in progress: the providers to try, in order, and how many of them have
/// failed their health checks.
pub struct Detection {
    pub candidates: Vec<ProviderKind>,
    pub failed: usize,
}

/// The step after the first `failed` candidates failed their health checks: probe the next one,
/// or give up when none is left.
pub open spec fn spec_next_probe(candidates: Seq<ProviderKind>, failed: int) -> DetectStep {
    if failed < candidates.len() {
        DetectStep::Probe(candidates[failed])
    } else {
        DetectStep::NoProvider
    }
}

impl Detection {
    /// Detection under the given settings, before any health check, and its first step.
    pub fn start(config: &EmbeddingConfig) -> (r: (Detection, DetectStep))
        ensures
            r.0.candidates@ == spec_provider_candidates(config.enabled, config.provider@),
            r.0.failed == 0,
            r.1 == spec_next_probe(r.0.candidates@, 0),
    {
        let candidates = provider_candidates(config);
        let step = if candidates.len() > 0 {
            DetectStep::Probe(candidates[0])
        } else {
            DetectStep::NoProvider
        };
        (Detection { candidates, failed: 0 }, step)
    }

    /// The health check of the provider probed last came back: a pass selects it; a failure
    /// moves on to the next candidate.
    pub fn probed(&mut self, healthy: bool) -> (step: DetectStep)
        requires
            old(self).failed < old(self).candidates@.len(),
        ensures
            final(self).candidates == old(self).candidates,
            healthy ==> final(self).failed == old(self).failed && step == DetectStep::Use(
                old(self).candidates@[old(self).failed as int],
            ),
            !healthy ==> final(self).failed == old(self).failed + 1 && step == spec_next_probe(
                old(self).candidates@,
                old(self).failed + 1,
            ),
    {
        let n = self.candidates.len();
        if healthy {
            DetectStep::Use(self.candidates[self.failed])
        } else {
            self.failed = self.failed + 1;
            if self.failed < n {
                DetectStep::Probe(self.candidates[self.failed])
            } else {
                DetectStep::NoProvider
            }
        }
    }
}

} // verus!
