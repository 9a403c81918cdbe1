use renri::config::{
    candidate_files, default_pr_cache_ttl_hours, placeholders, AutoUpdateMode, Config, LoadStep,
    LoadedConfig, UiConfig,
};
use renri::process::{Action, Reply};

fn ui(auto: Option<AutoUpdateMode>, check: Option<bool>) -> UiConfig {
    UiConfig {
        auto_update: auto,
        auto_update_check: check,
        ..UiConfig::default()
    }
}

#[test]
fn load_returns_default_when_no_files() {
    let files = candidate_files(None, Some("/tmp/proj"), false);
    match Config::load(&files, &[Reply::Found(false)], None) {
        LoadStep::Done(Ok(loaded)) => {
            assert!(loaded.sources.is_empty());
            assert!(loaded.config.layout.worktree_root.is_none());
            assert!(loaded.config.hooks.post_create.is_empty());
            assert_eq!(loaded, LoadedConfig::default());
        }
        other => panic!("{other:?}"),
    }
}

#[test]
fn update_mode_defaults_to_install() {
    assert_eq!(UiConfig::default().update_mode(), AutoUpdateMode::Install);
    assert_eq!(ui(None, None).update_mode(), AutoUpdateMode::Install);
    assert_eq!(AutoUpdateMode::default(), AutoUpdateMode::Install);
}

#[test]
fn auto_update_modes_are_taken_as_they_are() {
    for m in [
        AutoUpdateMode::Off,
        AutoUpdateMode::Notify,
        AutoUpdateMode::Install,
    ] {
        assert_eq!(ui(Some(m), None).update_mode(), m);
    }
}

#[test]
fn legacy_auto_update_check_false_maps_to_off() {
    assert_eq!(ui(None, Some(false)).update_mode(), AutoUpdateMode::Off);
}

#[test]
fn legacy_auto_update_check_true_maps_to_notify() {
    assert_eq!(ui(None, Some(true)).update_mode(), AutoUpdateMode::Notify);
}

#[test]
fn explicit_auto_update_overrides_legacy_bool() {
    let u = ui(Some(AutoUpdateMode::Install), Some(false));
    assert_eq!(u.update_mode(), AutoUpdateMode::Install);
    assert_eq!(u.warn_deprecated_auto_update_check(), None);
}

#[test]
fn the_legacy_key_is_warned_of_where_it_counts() {
    assert_eq!(
        ui(None, Some(true)).warn_deprecated_auto_update_check(),
        Some(
            "\u{26a0} [ui] auto_update_check is deprecated; \
             use auto_update = \"notify\" (or \"off\"/\"install\") instead"
        )
    );
    assert_eq!(
        ui(None, Some(false)).warn_deprecated_auto_update_check(),
        Some(
            "\u{26a0} [ui] auto_update_check is deprecated; \
             use auto_update = \"off\" (or \"notify\"/\"install\") instead"
        )
    );
    assert_eq!(ui(None, None).warn_deprecated_auto_update_check(), None);
}

#[test]
fn ui_defaults() {
    let u = UiConfig::default();
    assert!(!u.show_pr);
    assert_eq!(u.pr_cache_ttl_hours, 24);
    assert_eq!(default_pr_cache_ttl_hours(), 24);
    assert_eq!(u.update_check_interval, None);
}

#[test]
fn the_user_comes_before_the_project() {
    assert_eq!(
        candidate_files(Some("/cfg"), Some("/proj"), false),
        vec!["/cfg/renri/config.toml", "/proj/renri.toml"]
    );
    assert_eq!(candidate_files(None, None, false), Vec::<String>::new());
    let mine = Config::sources(Some("/proj"), false);
    assert_eq!(mine.last().unwrap(), "/proj/renri.toml");
    assert!(mine.len() == 1 || mine[0].ends_with("/renri/config.toml"));
}

#[test]
fn only_files_that_are_there_are_merged() {
    let files = candidate_files(Some("/cfg"), Some("/proj"), false);
    assert_eq!(
        Config::load(&files, &[], None),
        LoadStep::Do(Action::Look("/cfg/renri/config.toml".to_string()))
    );
    assert_eq!(
        Config::load(&files, &[Reply::Found(false)], None),
        LoadStep::Do(Action::Look("/proj/renri.toml".to_string()))
    );
    let looks = [Reply::Found(false), Reply::Found(true)];
    assert_eq!(
        Config::load(&files, &looks, None),
        LoadStep::Merge(vec!["/proj/renri.toml".to_string()])
    );
    match Config::load(&files, &looks, Some(Ok(Config::default()))) {
        LoadStep::Done(Ok(l)) => assert_eq!(l.sources, vec!["/proj/renri.toml"]),
        other => panic!("{other:?}"),
    }
    assert_eq!(
        Config::load(&files, &looks, Some(Err("bad".to_string()))),
        LoadStep::Done(Err("bad".to_string()))
    );
}

#[test]
fn placeholders_stand_for_themselves() {
    let t = placeholders();
    assert_eq!(t.name, "vcs");
    for f in &t.fields {
        let own = format!("{{{{ vcs.{} }}}}", f.name);
        assert_eq!(f.value.as_deref(), Some(own.as_str()));
    }
    assert_eq!(t.fields.len(), 4);
}

#[test]
fn references_to_the_repository_survive_loading() {
    let t = placeholders();
    let fields: std::collections::BTreeMap<String, Option<String>> =
        t.fields.into_iter().map(|f| (f.name, f.value)).collect();
    let mut ctx = teravars::Context::new();
    ctx.insert(t.name, &fields);
    let template = "/srv/{{ vcs.owner }}/{{ vcs.repo }}-{{ vcs.host }}/{{ vcs.branch }}";
    assert_eq!(
        teravars::Engine::new().render(template, &ctx).unwrap(),
        template
    );
}
