use code_indexer::config::{
    default_db_dir, default_embedding_enabled, default_embedding_provider, default_exclude_dirs,
    default_exclude_patterns, default_jina_grep_batch_size, default_jina_grep_model,
    default_jina_grep_truncate_dim, default_jina_grep_url, default_max_file_size,
    default_ollama_batch_size, default_ollama_model, default_ollama_url, default_rrf_k,
    default_search_limit, default_search_max_limit, parse_bool, EmbeddingConfig, EnvOverrides,
    EmbeddingLayer, IndexerConfig, IndexerLayer, JinaGrepConfig, JinaGrepLayer, OllamaConfig,
    OllamaLayer, OpenAiCompatConfig, OpenAiCompatLayer, StorageConfig, StorageLayer,
};

fn empty_embedding_layer() -> EmbeddingLayer {
    EmbeddingLayer {
        provider: None,
        enabled: None,
        jina_grep: JinaGrepLayer { url: None, model: None, task: None, truncate_dim: None, batch_size: None },
        ollama: OllamaLayer { url: None, model: None, batch_size: None },
        openai_compat: OpenAiCompatLayer { url: None, model: None, api_key_env: None, batch_size: None },
    }
}

fn no_env() -> EnvOverrides {
    EnvOverrides {
        embedding_provider: None,
        jina_grep_url: None,
        ollama_url: None,
        api_key: None,
        embedding_enabled: None,
    }
}

#[test]
fn test_default_config() {
    let indexer = IndexerConfig::default();
    let embedding = EmbeddingConfig::default();
    assert_eq!(indexer.max_file_size, 1_048_576);
    assert!(indexer.exclude_dirs.contains(&"node_modules".to_string()));
    assert!(indexer.exclude_dirs.contains(&"target".to_string()));
    assert_eq!(embedding.provider, "auto");
    assert_eq!(default_rrf_k(), 60);
    assert_eq!(default_search_limit(), 20);
}

#[test]
fn test_config_env_override() {
    let env = EnvOverrides { embedding_provider: Some("jina".to_string()), ..no_env() };
    let config = EmbeddingConfig::default().with_env(env);
    assert_eq!(config.provider, "jina");
}

#[test]
fn defaults_of_each_section() {
    let jina = JinaGrepConfig::default();
    assert_eq!(jina.url, "http://localhost:8089");
    assert_eq!(jina.model, "jina-code-embeddings-0.5b");
    assert_eq!(jina.task, None);
    assert_eq!(jina.truncate_dim, Some(256));
    assert_eq!(jina.batch_size, 256);

    let ollama = OllamaConfig::default();
    assert_eq!(ollama.url, "http://localhost:11434");
    assert_eq!(ollama.model, "nomic-embed-text");
    assert_eq!(ollama.batch_size, 64);

    let openai = OpenAiCompatConfig::default();
    assert_eq!(openai.url, None);
    assert_eq!(openai.model, "text-embedding-3-small");
    assert_eq!(openai.api_key_env, None);
    assert_eq!(openai.batch_size, 64);

    let embedding = EmbeddingConfig::default();
    assert!(embedding.enabled);

    let indexer = IndexerConfig::default();
    assert!(indexer.languages.is_empty());
    assert!(!indexer.watch);
    assert_eq!(indexer.watch_debounce_ms, 500);
    assert_eq!(
        indexer.exclude_dirs,
        vec!["target", "node_modules", ".git", "dist", "build", "vendor", "__pycache__"]
    );
    assert_eq!(indexer.exclude_patterns, vec!["*.min.js", "*.generated.*", "*.pb.go"]);

    assert_eq!(StorageConfig::default().db_dir, ".code-indexer");
}

#[test]
fn default_functions() {
    assert_eq!(default_max_file_size(), 1_048_576);
    assert_eq!(default_embedding_provider(), "auto");
    assert!(default_embedding_enabled());
    assert_eq!(default_jina_grep_url(), "http://localhost:8089");
    assert_eq!(default_jina_grep_model(), "jina-code-embeddings-0.5b");
    assert_eq!(default_jina_grep_truncate_dim(), Some(256));
    assert_eq!(default_jina_grep_batch_size(), 256);
    assert_eq!(default_ollama_url(), "http://localhost:11434");
    assert_eq!(default_ollama_model(), "nomic-embed-text");
    assert_eq!(default_ollama_batch_size(), 64);
    assert_eq!(default_search_max_limit(), 100);
    assert_eq!(default_db_dir(), ".code-indexer");
    assert_eq!(default_exclude_dirs().len(), 7);
    assert_eq!(default_exclude_patterns().len(), 3);
}

#[test]
fn parse_bool_reads_only_true_and_false() {
    assert_eq!(parse_bool("true"), Some(true));
    assert_eq!(parse_bool("false"), Some(false));
    assert_eq!(parse_bool("TRUE"), None);
    assert_eq!(parse_bool("1"), None);
    assert_eq!(parse_bool(""), None);
}

#[test]
fn every_override_replaces_its_setting() {
    let env = EnvOverrides {
        embedding_provider: Some("ollama".to_string()),
        jina_grep_url: Some("http://jina:1".to_string()),
        ollama_url: Some("http://ollama:2".to_string()),
        api_key: Some("sk-secret".to_string()),
        embedding_enabled: Some("false".to_string()),
    };
    let c = EmbeddingConfig::default().with_env(env);
    assert_eq!(c.provider, "ollama");
    assert_eq!(c.jina_grep.url, "http://jina:1");
    assert_eq!(c.ollama.url, "http://ollama:2");
    // The key itself stays in its variable; the settings name the variable to read it from.
    assert_eq!(c.openai_compat.api_key_env.as_deref(), Some("CODE_INDEXER_API_KEY"));
    assert!(!c.enabled);
    assert_eq!(c.jina_grep.model, "jina-code-embeddings-0.5b");
    assert_eq!(c.ollama.model, "nomic-embed-text");
}

#[test]
fn unreadable_enabled_value_is_ignored() {
    let env = EnvOverrides { embedding_enabled: Some("no".to_string()), ..no_env() };
    let c = EmbeddingConfig::default().with_env(env);
    assert!(c.enabled);
}

#[test]
fn no_override_keeps_settings() {
    let c = EmbeddingConfig::default().with_env(no_env());
    assert_eq!(c.provider, "auto");
    assert!(c.enabled);
    assert_eq!(c.jina_grep.url, "http://localhost:8089");
    assert_eq!(c.openai_compat.api_key_env, None);
}

#[test]
fn overrides_applied_twice_change_nothing_more() {
    let env = EnvOverrides { ollama_url: Some("http://o:3".to_string()), ..no_env() };
    let once = EmbeddingConfig::default().with_env(env.clone());
    let twice = once.clone().with_env(env);
    assert_eq!(once.ollama.url, twice.ollama.url);
    assert_eq!(once.provider, twice.provider);
}

#[test]
fn each_layer_wins_only_for_what_it_sets() {
    // The global file picks a provider; the project file sets only the Ollama URL.
    let global = EmbeddingLayer { provider: Some("ollama".to_string()), ..empty_embedding_layer() };
    let mut project = empty_embedding_layer();
    project.ollama.url = Some("http://gpu:11434".to_string());
    let c = EmbeddingConfig::default().layered(global).layered(project);
    assert_eq!(c.provider, "ollama");
    assert_eq!(c.ollama.url, "http://gpu:11434");
    assert_eq!(c.ollama.model, "nomic-embed-text");
    assert_eq!(c.jina_grep.batch_size, 256);

    let indexer = IndexerConfig::default().layered(IndexerLayer {
        languages: None,
        max_file_size: Some(2_000_000),
        exclude_dirs: Some(vec!["vendor".to_string(), "build".to_string()]),
        exclude_patterns: None,
        watch: None,
        watch_debounce_ms: None,
    });
    assert_eq!(indexer.max_file_size, 2_000_000);
    assert_eq!(indexer.exclude_dirs, vec!["vendor", "build"]);
    assert_eq!(indexer.exclude_patterns.len(), 3);
    assert_eq!(indexer.watch_debounce_ms, 500);

    let storage = StorageConfig::default().layered(StorageLayer { db_dir: None });
    assert_eq!(storage.db_dir, ".code-indexer");
    let storage = storage.layered(StorageLayer { db_dir: Some(".idx".to_string()) });
    assert_eq!(storage.db_dir, ".idx");
}
