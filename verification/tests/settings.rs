use assistant_backend::persistence::LoadOutcome;
use assistant_backend::settings::{
    complete, create_default_settings, default_action_model, default_walkthrough_model,
    ApiProvider, AppSettings, PartialSettings, SettingsRepository, Theme,
};
use assistant_backend::tool_flags::{ToolFlag, ToolFlags};

fn nothing_given() -> PartialSettings {
    PartialSettings {
        openai_api_key: None,
        claude_api_key: None,
        open_router_api_key: None,
        brave_search_api_key: None,
        walkthrough_provider: None,
        walkthrough_model: None,
        action_provider: None,
        action_model: None,
        auto_approve_tools: None,
        walkthrough_tools: None,
        action_tools: None,
        auto_approve_walkthrough: None,
        auto_approve_action: None,
        whitelisted_commands: None,
        blacklisted_commands: None,
        theme: None,
    }
}

fn custom() -> AppSettings {
    let mut settings = create_default_settings();
    settings.openai_api_key = "key-one".to_string();
    settings.walkthrough_provider = "openrouter".to_string();
    settings.walkthrough_model = "gpt-4o-mini".to_string();
    settings.auto_approve_tools = true;
    settings.action_tools.insert("command".to_string(), false);
    settings.whitelisted_commands.push("ls".to_string());
    settings.blacklisted_commands.push("rm".to_string());
    settings.theme = "dark".to_string();
    settings
}

#[test]
fn the_default_models_are_gpt_4o() {
    assert_eq!(default_walkthrough_model(), "gpt-4o");
    assert_eq!(default_action_model(), "gpt-4o");
}

#[test]
fn the_default_provider_and_theme() {
    assert_eq!(ApiProvider::default(), ApiProvider::OpenAI);
    assert_eq!(Theme::default(), Theme::System);
    assert_ne!(ApiProvider::Claude, ApiProvider::OpenRouter);
    assert_ne!(Theme::Light, Theme::Dark);
}

#[test]
fn default_settings_field_by_field() {
    let s = create_default_settings();
    assert_eq!(s.openai_api_key, "");
    assert_eq!(s.claude_api_key, "");
    assert_eq!(s.open_router_api_key, "");
    assert_eq!(s.brave_search_api_key, "");
    assert_eq!(s.walkthrough_provider, "openai");
    assert_eq!(s.walkthrough_model, "gpt-4o");
    assert_eq!(s.action_provider, "openai");
    assert_eq!(s.action_model, "gpt-4o");
    assert!(!s.auto_approve_tools);
    for tools in [&s.walkthrough_tools, &s.action_tools] {
        assert_eq!(tools.len(), 2);
        assert_eq!(tools.get("command"), Some(true));
        assert_eq!(tools.get("web_search"), Some(true));
        assert_eq!(tools.get("other"), None);
    }
    for approvals in [&s.auto_approve_walkthrough, &s.auto_approve_action] {
        assert_eq!(approvals.len(), 2);
        assert_eq!(approvals.get("command"), Some(false));
        assert_eq!(approvals.get("web_search"), Some(false));
    }
    assert!(s.whitelisted_commands.is_empty());
    assert!(s.blacklisted_commands.is_empty());
    assert_eq!(s.theme, "system");
}

#[test]
fn a_new_settings_repository_holds_nothing() {
    let repo = SettingsRepository::new();
    assert!(repo.get().is_none());
    assert!(repo.snapshot().is_none());
}

#[test]
fn a_malformed_settings_file_gives_the_defaults() {
    let mut repo = SettingsRepository::new();
    let settings = repo.load(LoadOutcome::Malformed);
    assert_eq!(settings, create_default_settings());
    assert_eq!(repo.get(), Some(create_default_settings()));
}

#[test]
fn a_missing_or_unreadable_settings_file_gives_the_defaults() {
    for outcome in [LoadOutcome::Missing, LoadOutcome::Unreadable] {
        let mut repo = SettingsRepository::new();
        assert_eq!(repo.load(outcome), create_default_settings());
        assert_eq!(repo.snapshot(), Some(&create_default_settings()));
    }
}

#[test]
fn parsed_settings_are_taken_as_they_are() {
    let mut repo = SettingsRepository::new();
    let settings = repo.load(LoadOutcome::Parsed(custom()));
    assert_eq!(settings, custom());
    assert_eq!(repo.get(), Some(custom()));
}

#[test]
fn load_keeps_settings_that_are_already_held() {
    let mut repo = SettingsRepository::new();
    repo.save(custom());
    assert_eq!(repo.load(LoadOutcome::Parsed(create_default_settings())), custom());
    assert_eq!(repo.load(LoadOutcome::Malformed), custom());
    assert_eq!(repo.get(), Some(custom()));
}

#[test]
fn save_replaces_the_settings_as_a_whole() {
    let mut repo = SettingsRepository::new();
    repo.load(LoadOutcome::Missing);
    repo.save(custom());
    assert_eq!(repo.get(), Some(custom()));
    assert_eq!(repo.snapshot(), Some(&custom()));
    repo.save(create_default_settings());
    assert_eq!(repo.get(), Some(create_default_settings()));
}

#[test]
fn saved_settings_read_back_into_a_fresh_repository_are_equal() {
    let mut repo = SettingsRepository::new();
    repo.save(custom());
    let written = repo.snapshot().unwrap().clone();
    let mut fresh = SettingsRepository::new();
    assert_eq!(fresh.load(LoadOutcome::Parsed(written)), custom());
    assert_eq!(fresh.get(), repo.get());
}

#[test]
fn absent_fields_take_their_defaults() {
    let s = complete(nothing_given());
    assert_eq!(s.openai_api_key, "");
    assert_eq!(s.claude_api_key, "");
    assert_eq!(s.open_router_api_key, "");
    assert_eq!(s.brave_search_api_key, "");
    assert_eq!(s.walkthrough_provider, "openai");
    assert_eq!(s.walkthrough_model, "gpt-4o");
    assert_eq!(s.action_provider, "openai");
    assert_eq!(s.action_model, "gpt-4o");
    assert!(!s.auto_approve_tools);
    assert_eq!(s.walkthrough_tools.len(), 0);
    assert_eq!(s.action_tools.len(), 0);
    assert_eq!(s.auto_approve_walkthrough.len(), 0);
    assert_eq!(s.auto_approve_action.len(), 0);
    assert!(s.whitelisted_commands.is_empty());
    assert!(s.blacklisted_commands.is_empty());
    assert_eq!(s.theme, "system");
}

#[test]
fn given_fields_are_kept() {
    let mut partial = nothing_given();
    partial.claude_api_key = Some("key-one".to_string());
    partial.action_model = Some("other-model".to_string());
    partial.auto_approve_tools = Some(true);
    let mut tools = ToolFlags::new();
    tools.insert("command".to_string(), false);
    partial.action_tools = Some(tools);
    partial.blacklisted_commands = Some(vec!["rm".to_string(), "dd".to_string()]);
    partial.theme = Some("light".to_string());
    let s = complete(partial);
    assert_eq!(s.claude_api_key, "key-one");
    assert_eq!(s.action_model, "other-model");
    assert_eq!(s.walkthrough_model, "gpt-4o");
    assert!(s.auto_approve_tools);
    assert_eq!(s.action_tools.get("command"), Some(false));
    assert_eq!(s.action_tools.len(), 1);
    assert_eq!(s.walkthrough_tools.len(), 0);
    assert_eq!(s.blacklisted_commands, vec!["rm", "dd"]);
    assert_eq!(s.theme, "light");
}

#[test]
fn tool_flags_behave_like_a_map() {
    let mut flags = ToolFlags::new();
    assert_eq!(flags.len(), 0);
    assert_eq!(flags.get("command"), None);
    flags.insert("command".to_string(), true);
    flags.insert("web_search".to_string(), false);
    assert_eq!(flags.len(), 2);
    assert_eq!(flags.get("command"), Some(true));
    assert_eq!(flags.get("web_search"), Some(false));
    flags.insert("command".to_string(), false);
    assert_eq!(flags.len(), 2);
    assert_eq!(flags.get("command"), Some(false));
    assert_eq!(flags.get(""), None);
    flags.insert("".to_string(), true);
    assert_eq!(flags.get(""), Some(true));
    assert_eq!(flags.len(), 3);
}

#[test]
fn tool_flags_list_each_name_once_in_order_of_first_insertion() {
    let mut flags = ToolFlags::new();
    flags.insert("b".to_string(), true);
    flags.insert("a".to_string(), true);
    flags.insert("b".to_string(), false);
    assert_eq!(
        flags.entries(),
        &vec![
            ToolFlag { name: "b".to_string(), enabled: false },
            ToolFlag { name: "a".to_string(), enabled: true },
        ]
    );
    let copy = flags.clone();
    assert_eq!(copy, flags);
}

#[test]
fn a_copy_of_settings_is_independent() {
    let first = custom();
    let mut copy = first.clone();
    assert_eq!(copy, first);
    copy.action_tools.insert("command".to_string(), true);
    copy.whitelisted_commands.clear();
    assert_eq!(first.action_tools.get("command"), Some(false));
    assert_eq!(first.whitelisted_commands, vec!["ls"]);
}
