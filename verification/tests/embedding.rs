use code_indexer::config::{EmbeddingConfig, JinaGrepConfig, OllamaConfig, OpenAiCompatConfig};
use code_indexer::embedding::{
    embedding_text, provider_candidates, provider_hint, should_autostart_jina, AfterFailure,
    DetectStep, Detection, EmbedProgress, JinaProvider, OllamaProvider, OpenAiCompatProvider,
    ProviderKind,
};
use code_indexer::types::{Chunk, Language};

fn with_provider(p: &str, enabled: bool) -> EmbeddingConfig {
    let mut c = EmbeddingConfig::default();
    c.provider = p.to_string();
    c.enabled = enabled;
    c
}

#[test]
fn candidates_follow_preference() {
    assert_eq!(
        provider_candidates(&with_provider("auto", true)),
        vec![ProviderKind::Jina, ProviderKind::Ollama, ProviderKind::OpenAiCompat]
    );
    assert_eq!(provider_candidates(&with_provider("jina", true)), vec![ProviderKind::Jina]);
    assert_eq!(provider_candidates(&with_provider("ollama", true)), vec![ProviderKind::Ollama]);
    assert_eq!(provider_candidates(&with_provider("openai", true)), vec![ProviderKind::OpenAiCompat]);
    assert!(provider_candidates(&with_provider("other", true)).is_empty());
    assert!(provider_candidates(&with_provider("auto", false)).is_empty());
}

#[test]
fn detection_uses_first_healthy_candidate() {
    let (mut d, step) = Detection::start(&with_provider("auto", true));
    assert_eq!(step, DetectStep::Probe(ProviderKind::Jina));
    assert_eq!(d.probed(false), DetectStep::Probe(ProviderKind::Ollama));
    assert_eq!(d.probed(true), DetectStep::Use(ProviderKind::Ollama));

    let (mut d, step) = Detection::start(&with_provider("jina", true));
    assert_eq!(step, DetectStep::Probe(ProviderKind::Jina));
    assert_eq!(d.probed(false), DetectStep::NoProvider);

    let (_, step) = Detection::start(&with_provider("auto", false));
    assert_eq!(step, DetectStep::NoProvider);
}

#[test]
fn jina_provider_settings() {
    let p = JinaProvider::new(&JinaGrepConfig::default());
    assert_eq!(p.dimensions(), 256);
    assert_eq!(p.provider_name(), "jina-grep");
    assert_eq!(p.max_batch_size(), 256);
    assert_eq!(p.embed_url(), "http://localhost:8089/v1/embeddings");
    assert_eq!(p.health_url(), "http://localhost:8089/health");
    let config = JinaGrepConfig { url: "http://localhost:19999".to_string(), truncate_dim: None, ..JinaGrepConfig::default() };
    let p = JinaProvider::new(&config);
    assert_eq!(p.dimensions(), 896);
    assert_eq!(p.health_url(), "http://localhost:19999/health");
}

#[test]
fn ollama_provider_settings() {
    let config = OllamaConfig { url: "http://localhost:19998".to_string(), ..OllamaConfig::default() };
    let p = OllamaProvider::new(&config);
    assert_eq!(p.dimensions(), 768);
    assert_eq!(p.provider_name(), "ollama");
    assert_eq!(p.max_batch_size(), 64);
    assert_eq!(p.embed_url(), "http://localhost:19998/api/embed");
    assert_eq!(p.health_url(), "http://localhost:19998/api/tags");
}

#[test]
fn openai_provider_settings() {
    let p = OpenAiCompatProvider::new(&OpenAiCompatConfig::default(), None);
    assert_eq!(p.url, "https://api.openai.com/v1/embeddings");
    assert_eq!(p.dimensions(), 1536);
    assert_eq!(p.provider_name(), "openai-compat");
    assert_eq!(p.max_batch_size(), 64);
    assert_eq!(p.api_key, None);
    let config = OpenAiCompatConfig { url: Some("http://localhost:4000/v1/embeddings".to_string()), ..OpenAiCompatConfig::default() };
    let p = OpenAiCompatProvider::new(&config, Some("secret".to_string()));
    assert_eq!(p.url, "http://localhost:4000/v1/embeddings");
    assert_eq!(p.api_key.as_deref(), Some("secret"));
}

fn chunk(preamble: &str, content: &str) -> Chunk {
    Chunk {
        file_path: "a.rs".to_string(),
        content: content.to_string(),
        preamble: preamble.to_string(),
        content_hash: String::new(),
        line_start: 1,
        line_end: 1,
        language: Language::Rust,
    }
}

#[test]
fn embedding_text_puts_preamble_first() {
    assert_eq!(embedding_text(&chunk("a.rs:1-1 [rust]", "fn a() {}")), "a.rs:1-1 [rust]\nfn a() {}");
    assert_eq!(embedding_text(&chunk("", "fn a() {}")), "fn a() {}");
}

#[test]
fn jina_autostart_and_hints() {
    assert!(should_autostart_jina("jina"));
    assert!(should_autostart_jina("auto"));
    assert!(!should_autostart_jina("ollama"));
    assert!(provider_hint("jina").contains("Install jina-grep"));
    assert_eq!(provider_hint("ollama"), "  Start Ollama: ollama serve");
    assert_eq!(provider_hint("openai"), "  Start your configured embedding provider");
}

#[test]
fn embedding_gives_up_after_three_retries() {
    let mut p = EmbedProgress::new();
    assert_eq!(p.attempt_failed(), AfterFailure::Retry { attempt: 1 });
    assert_eq!(p.attempt_failed(), AfterFailure::Retry { attempt: 2 });
    p.batch_stored(10);
    assert_eq!(p.embedded, 10);
    assert_eq!(p.retries, 0);
    assert_eq!(p.attempt_failed(), AfterFailure::Retry { attempt: 1 });
    assert_eq!(p.attempt_failed(), AfterFailure::Retry { attempt: 2 });
    assert_eq!(p.attempt_failed(), AfterFailure::Retry { attempt: 3 });
    assert_eq!(p.attempt_failed(), AfterFailure::GiveUp);
    assert_eq!(p.embedded, 10);
}
