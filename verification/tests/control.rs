use byok_server::control::{
    clear_scope, ClearStorageInput, CommitSettings, CommitSettingsView, StatisticsStorageScope,
};

#[test]
fn a_clear_without_a_body_removes_the_details_only() {
    assert_eq!(clear_scope(None), StatisticsStorageScope::Details);
    assert_eq!(StatisticsStorageScope::default(), StatisticsStorageScope::Details);
}

#[test]
fn a_clear_with_a_body_uses_its_scope() {
    let all = ClearStorageInput { scope: StatisticsStorageScope::All };
    assert_eq!(clear_scope(Some(all)), StatisticsStorageScope::All);
    let details = ClearStorageInput { scope: StatisticsStorageScope::Details };
    assert_eq!(clear_scope(Some(details)), StatisticsStorageScope::Details);
}

#[test]
fn the_commit_view_shows_the_trimmed_built_in_prompt() {
    let settings = CommitSettings { model_id: String::new(), prompt: String::new() };
    let view = CommitSettingsView::new(settings, "\n  Write a commit message.\n");
    assert_eq!(view.model_id, "");
    assert_eq!(view.prompt, "");
    assert_eq!(view.default_prompt, "Write a commit message.");

    let settings = CommitSettings { model_id: "gpt".to_owned(), prompt: " mine ".to_owned() };
    let view = CommitSettingsView::new(settings, "default");
    assert_eq!(view.model_id, "gpt");
    assert_eq!(view.prompt, " mine ");
    assert_eq!(view.default_prompt, "default");
}
