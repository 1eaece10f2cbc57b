use token_optimizer::config::defaults;
use token_optimizer::config::{Config, PartialConfig};

#[test]
fn default_lm_studio_url() {
    assert_eq!(Config::default().lm_studio_url, "http://localhost:1234");
}

#[test]
fn default_model() {
    assert_eq!(Config::default().model, "meta-llama-3-8b-instruct");
}

#[test]
fn default_hotkey() {
    assert_eq!(Config::default().hotkey, "F14");
}

#[test]
fn default_auto_trigger_disabled() {
    assert!(!Config::default().auto_trigger);
}

#[test]
fn default_auto_threshold() {
    assert_eq!(Config::default().auto_threshold_chars, 2000);
}

#[test]
fn default_max_tokens() {
    assert_eq!(Config::default().max_tokens, 512);
}

#[test]
fn default_log_to_file_disabled() {
    assert!(!Config::default().log_to_file);
}

#[test]
fn default_system_prompt_non_empty() {
    assert!(!Config::default().system_prompt.is_empty());
}

fn text_field(table: &toml::Table, key: &str) -> Option<String> {
    table.get(key).map(|v| v.as_str().unwrap().to_string())
}

fn partial_from_toml(text: &str) -> PartialConfig {
    let table: toml::Table = toml::from_str(text).unwrap();
    PartialConfig {
        lm_studio_url: text_field(&table, "lm_studio_url"),
        model: text_field(&table, "model"),
        hotkey: text_field(&table, "hotkey"),
        auto_trigger: table.get("auto_trigger").map(|v| v.as_bool().unwrap()),
        auto_threshold_chars: table
            .get("auto_threshold_chars")
            .map(|v| v.as_integer().unwrap() as usize),
        system_prompt: text_field(&table, "system_prompt"),
        max_tokens: table.get("max_tokens").map(|v| v.as_integer().unwrap() as u32),
        log_to_file: table.get("log_to_file").map(|v| v.as_bool().unwrap()),
    }
}

#[test]
fn deserialize_partial_toml_fills_defaults() {
    let toml = r#"model = "my-custom-model""#;
    let cfg: Config = Config::from_partial(partial_from_toml(toml));
    assert_eq!(cfg.model, "my-custom-model");
    assert_eq!(cfg.hotkey, "F14");
    assert_eq!(cfg.max_tokens, 512);
}

#[test]
fn empty_file_gives_every_default() {
    let cfg = Config::from_partial(PartialConfig::empty());
    let d = Config::default();
    assert_eq!(cfg.lm_studio_url, d.lm_studio_url);
    assert_eq!(cfg.model, d.model);
    assert_eq!(cfg.hotkey, d.hotkey);
    assert_eq!(cfg.auto_trigger, d.auto_trigger);
    assert_eq!(cfg.auto_threshold_chars, d.auto_threshold_chars);
    assert_eq!(cfg.system_prompt, d.system_prompt);
    assert_eq!(cfg.max_tokens, d.max_tokens);
    assert_eq!(cfg.log_to_file, d.log_to_file);
}

#[test]
fn every_named_field_wins() {
    let text = "lm_studio_url = \"http://box:9000/\"\nmodel = \"Phi-4-mini-instruct\"\nhotkey = \"Alt+C\"\nauto_trigger = true\nauto_threshold_chars = 10\nsystem_prompt = \"shorten\"\nmax_tokens = 64\nlog_to_file = true\n";
    let cfg = Config::from_partial(partial_from_toml(text));
    assert_eq!(cfg.lm_studio_url, "http://box:9000/");
    assert_eq!(cfg.model, "Phi-4-mini-instruct");
    assert_eq!(cfg.hotkey, "Alt+C");
    assert!(cfg.auto_trigger);
    assert_eq!(cfg.auto_threshold_chars, 10);
    assert_eq!(cfg.system_prompt, "shorten");
    assert_eq!(cfg.max_tokens, 64);
    assert!(cfg.log_to_file);
}

#[test]
fn default_functions_give_the_documented_values() {
    assert_eq!(defaults::lm_studio_url(), "http://localhost:1234");
    assert_eq!(defaults::model(), "meta-llama-3-8b-instruct");
    assert_eq!(defaults::hotkey(), "F14");
    assert!(!defaults::auto_trigger());
    assert_eq!(defaults::auto_threshold_chars(), 2000);
    assert_eq!(defaults::max_tokens(), 512);
    assert!(!defaults::log_to_file());
    let prompt = defaults::system_prompt();
    assert!(prompt.starts_with("You are a lossless text compressor for developer content. Output ONLY"));
    assert!(prompt.ends_with("No explanations, no preamble."));
    assert_eq!(prompt, defaults::DEFAULT_SYSTEM_PROMPT);
}
