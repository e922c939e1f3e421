//! The user's settings: one value per installation, created from built-in
//! defaults, replaced as a whole on every save.

use vstd::prelude::*;
use vstd::string::StringExecFns;
use crate::persistence::{
    persist_report,
    persist_result,
    report_view,
    Collection,
    LoadOutcome,
    PersistOutcome,
    StoreError,
};
use crate::text::{clone_texts, text_views};
use crate::tool_flags::ToolFlags;

verus! {

/// The services that can answer a request.
#[derive(Clone, Copy, Debug, PartialEq, Eq, Structural)]
pub enum ApiProvider {
    OpenAI,
    Claude,
    OpenRouter,
}

impl Default for ApiProvider {
    fn default() -> (provider: Self)
        ensures
            provider == ApiProvider::OpenAI,
    {
        ApiProvider::OpenAI
    }
}

/// The appearance of the application.
#[derive(Clone, Copy, Debug, PartialEq, Eq, Structural)]
pub enum Theme {
    System,
    Light,
    Dark,
}

impl Default for Theme {
    fn default() -> (theme: Self)
        ensures
            theme == Theme::System,
    {
        Theme::System
    }
}

/// The model used for walkthroughs unless the user picks another.
pub fn default_walkthrough_model() -> (model: String)
    ensures
        model@ == "gpt-4o"@,
{
    String::from_str("gpt-4o")
}

/// The model used for actions unless the user picks another.
pub fn default_action_model() -> (model: String)
    ensures
        model@ == "gpt-4o"@,
{
    String::from_str("gpt-4o")
}

/// Everything the user can configure. The keys are kept as given and never
/// checked; the command lists are data only.
#[derive(Debug, PartialEq, Eq)]
pub struct AppSettings {
    pub openai_api_key: String,
    pub claude_api_key: String,
    pub open_router_api_key: String,
    pub brave_search_api_key: String,
    pub walkthrough_provider: String,
    pub walkthrough_model: String,
    pub action_provider: String,
    pub action_model: String,
    pub auto_approve_tools: bool,
    /// Which tools a walkthrough may use.
    pub walkthrough_tools: ToolFlags,
    /// Which tools an action may use.
    pub action_tools: ToolFlags,
    /// Which tools run without asking during a walkthrough.
    pub auto_approve_walkthrough: ToolFlags,
    /// Which tools run without asking during an action.
    pub auto_approve_action: ToolFlags,
    pub whitelisted_commands: Vec<String>,
    pub blacklisted_commands: Vec<String>,
    pub theme: String,
}

/// The model of `AppSettings`.
pub struct AppSettingsView {
    pub openai_api_key: Seq<char>,
    pub claude_api_key: Seq<char>,
    pub open_router_api_key: Seq<char>,
    pub brave_search_api_key: Seq<char>,
    pub walkthrough_provider: Seq<char>,
    pub walkthrough_model: Seq<char>,
    pub action_provider: Seq<char>,
    pub action_model: Seq<char>,
    pub auto_approve_tools: bool,
    pub walkthrough_tools: Map<Seq<char>, bool>,
    pub action_tools: Map<Seq<char>, bool>,
    pub auto_approve_walkthrough: Map<Seq<char>, bool>,
    pub auto_approve_action: Map<Seq<char>, bool>,
    pub whitelisted_commands: Seq<Seq<char>>,
    pub blacklisted_commands: Seq<Seq<char>>,
    pub theme: Seq<char>,
}

impl View for AppSettings {
    type V = AppSettingsView;

    open spec fn view(&self) -> AppSettingsView {
        AppSettingsView {
            openai_api_key: self.openai_api_key@,
            claude_api_key: self.claude_api_key@,
            open_router_api_key: self.open_router_api_key@,
            brave_search_api_key: self.brave_search_api_key@,
            walkthrough_provider: self.walkthrough_provider@,
            walkthrough_model: self.walkthrough_model@,
            action_provider: self.action_provider@,
            action_model: self.action_model@,
            auto_approve_tools: self.auto_approve_tools,
            walkthrough_tools: self.walkthrough_tools@,
            action_tools: self.action_tools@,
            auto_approve_walkthrough: self.auto_approve_walkthrough@,
            auto_approve_action: self.auto_approve_action@,
            whitelisted_commands: text_views(self.whitelisted_commands@),
            blacklisted_commands: text_views(self.blacklisted_commands@),
            theme: self.theme@,
        }
    }
}

impl Clone for AppSettings {
    fn clone(&self) -> (copy: Self)
        ensures
            copy@ == self@,
    {
        AppSettings {
            openai_api_key: self.openai_api_key.clone(),
            claude_api_key: self.claude_api_key.clone(),
            open_router_api_key: self.open_router_api_key.clone(),
            brave_search_api_key: self.brave_search_api_key.clone(),
            walkthrough_provider: self.walkthrough_provider.clone(),
            walkthrough_model: self.walkthrough_model.clone(),
            action_provider: self.action_provider.clone(),
            action_model: self.action_model.clone(),
            auto_approve_tools: self.auto_approve_tools,
            walkthrough_tools: self.walkthrough_tools.clone(),
            action_tools: self.action_tools.clone(),
            auto_approve_walkthrough: self.auto_approve_walkthrough.clone(),
            auto_approve_action: self.auto_approve_action.clone(),
            whitelisted_commands: clone_texts(&self.whitelisted_commands),
            blacklisted_commands: clone_texts(&self.blacklisted_commands),
            theme: self.theme.clone(),
        }
    }
}

/// The switches of a new installation: both built-in tools, all set to `on`.
pub open spec fn builtin_tools(on: bool) -> Map<Seq<char>, bool> {
    Map::<Seq<char>, bool>::empty().insert("command"@, on).insert("web_search"@, on)
}

/// The settings of a new installation: no keys, OpenAI with `gpt-4o` for both
/// modes, nothing approved automatically, both built-in tools enabled, empty
/// command lists, the system theme.
pub open spec fn default_settings() -> AppSettingsView {
    AppSettingsView {
        openai_api_key: ""@,
        claude_api_key: ""@,
        open_router_api_key: ""@,
        brave_search_api_key: ""@,
        walkthrough_provider: "openai"@,
        walkthrough_model: "gpt-4o"@,
        action_provider: "openai"@,
        action_model: "gpt-4o"@,
        auto_approve_tools: false,
        walkthrough_tools: builtin_tools(true),
        action_tools: builtin_tools(true),
        auto_approve_walkthrough: builtin_tools(false),
        auto_approve_action: builtin_tools(false),
        whitelisted_commands: Seq::empty(),
        blacklisted_commands: Seq::empty(),
        theme: "system"@,
    }
}

/// Switches for the two built-in tools, all set to `on`.
fn builtin_flags(on: bool) -> (flags: ToolFlags)
    ensures
        flags@ == builtin_tools(on),
{
    let mut flags = ToolFlags::new();
    flags.insert(String::from_str("command"), on);
    flags.insert(String::from_str("web_search"), on);
    flags
}

/// The settings of a new installation.
pub fn create_default_settings() -> (settings: AppSettings)
    ensures
        settings@ == default_settings(),
{
    let settings = AppSettings {
        openai_api_key: String::from_str(""),
        claude_api_key: String::from_str(""),
        open_router_api_key: String::from_str(""),
        brave_search_api_key: String::from_str(""),
        walkthrough_provider: String::from_str("openai"),
        walkthrough_model: default_walkthrough_model(),
        action_provider: String::from_str("openai"),
        action_model: default_action_model(),
        auto_approve_tools: false,
        walkthrough_tools: builtin_flags(true),
        action_tools: builtin_flags(true),
        auto_approve_walkthrough: builtin_flags(false),
        auto_approve_action: builtin_flags(false),
        whitelisted_commands: Vec::new(),
        blacklisted_commands: Vec::new(),
        theme: String::from_str("system"),
    };
    proof {
        assert(text_views(settings.whitelisted_commands@) =~= Seq::<Seq<char>>::empty());
        assert(text_views(settings.blacklisted_commands@) =~= Seq::<Seq<char>>::empty());
    }
    settings
}

/// Settings as found in a file that may lack fields.
pub struct PartialSettings {
    pub openai_api_key: Option<String>,
    pub claude_api_key: Option<String>,
    pub open_router_api_key: Option<String>,
    pub brave_search_api_key: Option<String>,
    pub walkthrough_provider: Option<String>,
    pub walkthrough_model: Option<String>,
    pub action_provider: Option<String>,
    pub action_model: Option<String>,
    pub auto_approve_tools: Option<bool>,
    pub walkthrough_tools: Option<ToolFlags>,
    pub action_tools: Option<ToolFlags>,
    pub auto_approve_walkthrough: Option<ToolFlags>,
    pub auto_approve_action: Option<ToolFlags>,
    pub whitelisted_commands: Option<Vec<String>>,
    pub blacklisted_commands: Option<Vec<String>>,
    pub theme: Option<String>,
}

/// The text of a field, or `fallback` where the field is absent.
pub open spec fn text_or(field: Option<String>, fallback: Seq<char>) -> Seq<char> {
    match field {
        Some(t) => t@,
        None => fallback,
    }
}

/// The switches of a field, or none where the field is absent.
pub open spec fn flags_or_empty(field: Option<ToolFlags>) -> Map<Seq<char>, bool> {
    match field {
        Some(f) => f@,
        None => Map::empty(),
    }
}

/// The texts of a field, or none where the field is absent.
pub open spec fn texts_or_empty(field: Option<Vec<String>>) -> Seq<Seq<char>> {
    match field {
        Some(t) => text_views(t@),
        None => Seq::empty(),
    }
}

/// The settings that a file with missing fields stands for. Each absent field
/// takes its own default: keys are empty, the provider is OpenAI and the
/// model `gpt-4o`, nothing is approved automatically, switches and lists are
/// empty, the theme is the system's.
pub open spec fn completed(partial: PartialSettings) -> AppSettingsView {
    AppSettingsView {
        openai_api_key: text_or(partial.openai_api_key, ""@),
        claude_api_key: text_or(partial.claude_api_key, ""@),
        open_router_api_key: text_or(partial.open_router_api_key, ""@),
        brave_search_api_key: text_or(partial.brave_search_api_key, ""@),
        walkthrough_provider: text_or(partial.walkthrough_provider, "openai"@),
        walkthrough_model: text_or(partial.walkthrough_model, "gpt-4o"@),
        action_provider: text_or(partial.action_provider, "openai"@),
        action_model: text_or(partial.action_model, "gpt-4o"@),
        auto_approve_tools: match partial.auto_approve_tools {
            Some(b) => b,
            None => false,
        },
        walkthrough_tools: flags_or_empty(partial.walkthrough_tools),
        action_tools: flags_or_empty(partial.action_tools),
        auto_approve_walkthrough: flags_or_empty(partial.auto_approve_walkthrough),
        auto_approve_action: flags_or_empty(partial.auto_approve_action),
        whitelisted_commands: texts_or_empty(partial.whitelisted_commands),
        blacklisted_commands: texts_or_empty(partial.blacklisted_commands),
        theme: text_or(partial.theme, "system"@),
    }
}

fn or_text(field: Option<String>, fallback: &str) -> (text: String)
    ensures
        text@ == text_or(field, fallback@),
{
    match field {
        Some(t) => t,
        None => String::from_str(fallback),
    }
}

fn or_no_flags(field: Option<ToolFlags>) -> (flags: ToolFlags)
    ensures
        flags@ == flags_or_empty(field),
{
    match field {
        Some(f) => f,
        None => ToolFlags::new(),
    }
}

fn or_no_texts(field: Option<Vec<String>>) -> (texts: Vec<String>)
    ensures
        text_views(texts@) == texts_or_empty(field),
{
    match field {
        Some(t) => t,
        None => {
            let texts: Vec<String> = Vec::new();
            proof {
                assert(text_views(texts@) =~= Seq::<Seq<char>>::empty());
            }
            texts
        },
    }
}

/// Fills each absent field with its default.
pub fn complete(partial: PartialSettings) -> (settings: AppSettings)
    ensures
        settings@ == completed(partial),
{
    let walkthrough_model = match partial.walkthrough_model {
        Some(m) => m,
        None => default_walkthrough_model(),
    };
    let action_model = match partial.action_model {
        Some(m) => m,
        None => default_action_model(),
    };
    let auto_approve_tools = match partial.auto_approve_tools {
        Some(b) => b,
        None => false,
    };
    AppSettings {
        openai_api_key: or_text(partial.openai_api_key, ""),
        claude_api_key: or_text(partial.claude_api_key, ""),
        open_router_api_key: or_text(partial.open_router_api_key, ""),
        brave_search_api_key: or_text(partial.brave_search_api_key, ""),
        walkthrough_provider: or_text(partial.walkthrough_provider, "openai"),
        walkthrough_model,
        action_provider: or_text(partial.action_provider, "openai"),
        action_model,
        auto_approve_tools,
        walkthrough_tools: or_no_flags(partial.walkthrough_tools),
        action_tools: or_no_flags(partial.action_tools),
        auto_approve_walkthrough: or_no_flags(partial.auto_approve_walkthrough),
        auto_approve_action: or_no_flags(partial.auto_approve_action),
        whitelisted_commands: or_no_texts(partial.whitelisted_commands),
        blacklisted_commands: or_no_texts(partial.blacklisted_commands),
        theme: or_text(partial.theme, "system"),
    }
}

/// What a read of the settings file stands for: the parsed settings, or the
/// defaults when the file is missing, unreadable or malformed.
pub open spec fn loaded_settings(outcome: LoadOutcome<AppSettings>) -> AppSettingsView {
    match outcome {
        LoadOutcome::Parsed(settings) => settings@,
        _ => default_settings(),
    }
}

/// The model of optional settings.
pub open spec fn optional_settings(settings: Option<AppSettings>) -> Option<AppSettingsView> {
    match settings {
        Some(s) => Some(s@),
        None => None,
    }
}

/// Keeps the settings in memory once they are known.
pub struct SettingsRepository {
    cached: Option<AppSettings>,
}

impl View for SettingsRepository {
    type V = Option<AppSettingsView>;

    closed spec fn view(&self) -> Option<AppSettingsView> {
        optional_settings(self.cached)
    }
}

impl SettingsRepository {
    /// A repository that has not seen any settings yet.
    pub fn new() -> (repo: Self)
        ensures
            repo@ is None,
    {
        SettingsRepository { cached: None }
    }

    /// A copy of the settings held in memory, or `None` when the file has to
    /// be read first (see `load`).
    pub fn get(&self) -> (hit: Option<AppSettings>)
        ensures
            optional_settings(hit) == self@,
    {
        match &self.cached {
            Some(settings) => Some(settings.clone()),
            None => None,
        }
    }

    /// The settings to write to the file, once there are any.
    pub fn snapshot(&self) -> (settings: Option<&AppSettings>)
        ensures
            match settings {
                Some(s) => self@ == Some(s@) && self.held() == Some(*s),
                None => self@ is None,
            },
    {
        match &self.cached {
            Some(settings) => Some(settings),
            None => None,
        }
    }

    /// Completes a read: takes what reading the file came back with and
    /// returns the settings.
    ///
    /// A repository that already holds settings keeps them and ignores
    /// `outcome`. Otherwise it takes the parsed settings, or the defaults when
    /// the file is missing, unreadable or malformed, and keeps them.
    pub fn load(&mut self, outcome: LoadOutcome<AppSettings>) -> (settings: AppSettings)
        ensures
            final(self)@ == Some(settings@),
            old(self)@ is Some ==> final(self)@ == old(self)@,
            old(self)@ is None ==> settings@ == loaded_settings(outcome),
    {
        let held = self.get();
        match held {
            Some(settings) => settings,
            None => {
                let settings = match outcome {
                    LoadOutcome::Parsed(settings) => settings,
                    _ => create_default_settings(),
                };
                let copy = settings.clone();
                self.cached = Some(settings);
                copy
            },
        }
    }

    /// Replaces the settings as a whole. The caller then writes `snapshot()`
    /// to the file; whether that write succeeds does not change what is held
    /// in memory.
    pub fn save(&mut self, settings: AppSettings)
        ensures
            final(self)@ == Some(settings@),
    {
        self.cached = Some(settings);
    }

    /// The settings as they are held, which is what `snapshot` hands out.
    pub closed spec fn held(&self) -> Option<AppSettings> {
        self.cached
    }

    /// The model of a repository is the model of the settings it holds.
    pub proof fn lemma_held(&self)
        ensures
            optional_settings(self.held()) == self@,
    {
    }

    /// Returns the settings, reading the file only if none are held yet:
    /// `loader` is then called once, and what it comes back with is taken as
    /// by `load`. A repository that holds settings does not call `loader`.
    pub fn get_or_load<F: FnOnce() -> LoadOutcome<AppSettings>>(&mut self, loader: F) -> (settings:
        AppSettings)
        requires
            loader.requires(()),
        ensures
            final(self)@ == Some(settings@),
            old(self)@ is Some ==> final(self)@ == old(self)@,
            old(self)@ is None ==> exists|outcome: LoadOutcome<AppSettings>|
                loader.ensures((), outcome) && settings@ == loaded_settings(outcome),
    {
        match self.get() {
            Some(settings) => settings,
            None => {
                let outcome = loader();
                self.load(outcome)
            },
        }
    }

    /// Replaces the settings as `save` does and has them written: `persist`
    /// is called once with the new settings, and what it comes back with is
    /// reported as by `persist_result`. The new settings stay in memory when
    /// the write fails.
    pub fn save_with<F: FnOnce(&AppSettings) -> PersistOutcome>(
        &mut self,
        settings: AppSettings,
        persist: F,
    ) -> (report: Result<(), StoreError>)
        requires
            forall|written: &AppSettings| persist.requires((written,)),
        ensures
            final(self)@ == Some(settings@),
            final(self).held() == Some(settings),
            exists|outcome: PersistOutcome|
                persist.ensures((&settings,), outcome) && report_view(report) == persist_report(
                    Collection::Settings,
                    false,
                    outcome@,
                ),
    {
        self.cached = Some(settings);
        let outcome = match &self.cached {
            Some(held) => persist(held),
            None => PersistOutcome::Written,
        };
        persist_result(Collection::Settings, false, outcome)
    }
}

} // verus!
