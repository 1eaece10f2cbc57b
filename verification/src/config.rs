//! The daemon's settings: every field has a default, and a settings file
//! overrides exactly the fields it names.

pub mod defaults;

use vstd::prelude::*;

use self::defaults::{
    default_auto_threshold_chars, default_auto_trigger, default_hotkey, default_lm_studio_url,
    default_log_to_file, default_max_tokens, default_model, default_system_prompt,
};

verus! {

/// The daemon's settings.
#[derive(Debug)]
pub struct Config {
    pub lm_studio_url: String,
    pub model: String,
    pub hotkey: String,
    pub auto_trigger: bool,
    pub auto_threshold_chars: usize,
    pub system_prompt: String,
    pub max_tokens: u32,
    pub log_to_file: bool,
}

/// The settings as mathematical values.
pub struct ConfigView {
    pub lm_studio_url: Seq<char>,
    pub model: Seq<char>,
    pub hotkey: Seq<char>,
    pub auto_trigger: bool,
    pub auto_threshold_chars: usize,
    pub system_prompt: Seq<char>,
    pub max_tokens: u32,
    pub log_to_file: bool,
}

impl View for Config {
    type V = ConfigView;

    open spec fn view(&self) -> ConfigView {
        ConfigView {
            lm_studio_url: self.lm_studio_url@,
            model: self.model@,
            hotkey: self.hotkey@,
            auto_trigger: self.auto_trigger,
            auto_threshold_chars: self.auto_threshold_chars,
            system_prompt: self.system_prompt@,
            max_tokens: self.max_tokens,
            log_to_file: self.log_to_file,
        }
    }
}

/// The settings when every field takes its default.
pub open spec fn default_config() -> ConfigView {
    ConfigView {
        lm_studio_url: default_lm_studio_url(),
        model: default_model(),
        hotkey: default_hotkey(),
        auto_trigger: default_auto_trigger(),
        auto_threshold_chars: default_auto_threshold_chars(),
        system_prompt: default_system_prompt(),
        max_tokens: default_max_tokens(),
        log_to_file: default_log_to_file(),
    }
}

impl Default for Config {
    fn default() -> (c: Self)
        ensures
            c@ == default_config(),
    {
        Config {
            lm_studio_url: defaults::lm_studio_url(),
            model: defaults::model(),
            hotkey: defaults::hotkey(),
            auto_trigger: defaults::auto_trigger(),
            auto_threshold_chars: defaults::auto_threshold_chars(),
            system_prompt: defaults::system_prompt(),
            max_tokens: defaults::max_tokens(),
            log_to_file: defaults::log_to_file(),
        }
    }
}

/// The fields that a settings file gives; `None` where it leaves a field out.
#[derive(Debug)]
pub struct PartialConfig {
    pub lm_studio_url: Option<String>,
    pub model: Option<String>,
    pub hotkey: Option<String>,
    pub auto_trigger: Option<bool>,
    pub auto_threshold_chars: Option<usize>,
    pub system_prompt: Option<String>,
    pub max_tokens: Option<u32>,
    pub log_to_file: Option<bool>,
}

/// A given text field, or its default.
pub open spec fn text_or(given: Option<String>, default: Seq<char>) -> Seq<char> {
    match given {
        Some(s) => s@,
        None => default,
    }
}

/// A given value, or its default.
pub open spec fn value_or<T>(given: Option<T>, default: T) -> T {
    match given {
        Some(v) => v,
        None => default,
    }
}

/// The settings that a file with the fields `p` stands for: each field it
/// gives, and the default of each field it leaves out.
pub open spec fn overlay(p: PartialConfig) -> ConfigView {
    ConfigView {
        lm_studio_url: text_or(p.lm_studio_url, default_lm_studio_url()),
        model: text_or(p.model, default_model()),
        hotkey: text_or(p.hotkey, default_hotkey()),
        auto_trigger: value_or(p.auto_trigger, default_auto_trigger()),
        auto_threshold_chars: value_or(p.auto_threshold_chars, default_auto_threshold_chars()),
        system_prompt: text_or(p.system_prompt, default_system_prompt()),
        max_tokens: value_or(p.max_tokens, default_max_tokens()),
        log_to_file: value_or(p.log_to_file, default_log_to_file()),
    }
}

/// The fields of a file that names none.
pub open spec fn names_nothing(p: PartialConfig) -> bool {
    &&& p.lm_studio_url is None
    &&& p.model is None
    &&& p.hotkey is None
    &&& p.auto_trigger is None
    &&& p.auto_threshold_chars is None
    &&& p.system_prompt is None
    &&& p.max_tokens is None
    &&& p.log_to_file is None
}

impl PartialConfig {
    /// The fields of a file that names none.
    pub fn empty() -> (p: Self)
        ensures
            names_nothing(p),
    {
        PartialConfig {
            lm_studio_url: None,
            model: None,
            hotkey: None,
            auto_trigger: None,
            auto_threshold_chars: None,
            system_prompt: None,
            max_tokens: None,
            log_to_file: None,
        }
    }
}

fn text_or_default(given: Option<String>, default: String) -> (s: String)
    ensures
        s@ == text_or(given, default@),
{
    match given {
        Some(s) => s,
        None => default,
    }
}

impl Config {
    /// Fills the fields that a settings file leaves out with their defaults.
    pub fn from_partial(p: PartialConfig) -> (c: Config)
        ensures
            c@ == overlay(p),
    {
        let ghost g = p;
        let PartialConfig {
            lm_studio_url,
            model,
            hotkey,
            auto_trigger,
            auto_threshold_chars,
            system_prompt,
            max_tokens,
            log_to_file,
        } = p;
        Config {
            lm_studio_url: text_or_default(lm_studio_url, defaults::lm_studio_url()),
            model: text_or_default(model, defaults::model()),
            hotkey: text_or_default(hotkey, defaults::hotkey()),
            auto_trigger: match auto_trigger {
                Some(b) => b,
                None => defaults::auto_trigger(),
            },
            auto_threshold_chars: match auto_threshold_chars {
                Some(n) => n,
                None => defaults::auto_threshold_chars(),
            },
            system_prompt: text_or_default(system_prompt, defaults::system_prompt()),
            max_tokens: match max_tokens {
                Some(n) => n,
                None => defaults::max_tokens(),
            },
            log_to_file: match log_to_file {
                Some(b) => b,
                None => defaults::log_to_file(),
            },
        }
    }
}

/// A settings file that names no field gives exactly the default settings.
pub proof fn lemma_empty_file_gives_defaults(p: PartialConfig)
    requires
        names_nothing(p),
    ensures
        overlay(p) == default_config(),
{
}

/// Every field that a settings file names is taken as given, whatever the
/// other fields hold.
pub proof fn lemma_named_fields_win(p: PartialConfig)
    ensures
        p.model matches Some(m) ==> overlay(p).model == m@,
        p.hotkey matches Some(h) ==> overlay(p).hotkey == h@,
        p.lm_studio_url matches Some(u) ==> overlay(p).lm_studio_url == u@,
        p.system_prompt matches Some(s) ==> overlay(p).system_prompt == s@,
        p.max_tokens matches Some(n) ==> overlay(p).max_tokens == n,
        p.auto_threshold_chars matches Some(n) ==> overlay(p).auto_threshold_chars == n,
        p.auto_trigger matches Some(b) ==> overlay(p).auto_trigger == b,
        p.log_to_file matches Some(b) ==> overlay(p).log_to_file == b,
{
}

/// Every field that a settings file leaves out takes its default, whatever
/// the other fields hold.
pub proof fn lemma_omitted_fields_default(p: PartialConfig)
    ensures
        p.lm_studio_url is None ==> overlay(p).lm_studio_url == default_lm_studio_url(),
        p.model is None ==> overlay(p).model == default_model(),
        p.hotkey is None ==> overlay(p).hotkey == default_hotkey(),
        p.auto_trigger is None ==> overlay(p).auto_trigger == default_auto_trigger(),
        p.auto_threshold_chars is None ==> overlay(p).auto_threshold_chars
            == default_auto_threshold_chars(),
        p.system_prompt is None ==> overlay(p).system_prompt == default_system_prompt(),
        p.max_tokens is None ==> overlay(p).max_tokens == default_max_tokens(),
        p.log_to_file is None ==> overlay(p).log_to_file == default_log_to_file(),
{
}

/// Each field of the settings depends on that field of the file alone: two
/// files that agree on a field give the same value for it.
pub proof fn lemma_fields_independent(p: PartialConfig, q: PartialConfig)
    ensures
        p.lm_studio_url == q.lm_studio_url ==> overlay(p).lm_studio_url == overlay(q).lm_studio_url,
        p.model == q.model ==> overlay(p).model == overlay(q).model,
        p.hotkey == q.hotkey ==> overlay(p).hotkey == overlay(q).hotkey,
        p.auto_trigger == q.auto_trigger ==> overlay(p).auto_trigger == overlay(q).auto_trigger,
        p.auto_threshold_chars == q.auto_threshold_chars ==> overlay(p).auto_threshold_chars
            == overlay(q).auto_threshold_chars,
        p.system_prompt == q.system_prompt ==> overlay(p).system_prompt == overlay(
            q,
        ).system_prompt,
        p.max_tokens == q.max_tokens ==> overlay(p).max_tokens == overlay(q).max_tokens,
        p.log_to_file == q.log_to_file ==> overlay(p).log_to_file == overlay(q).log_to_file,
{
}

} // verus!
