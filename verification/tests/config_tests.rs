use swarmux::config::TmuxConfig;

#[test]
fn tmux_config_defaults_have_no_session_ignore_list() {
    assert!(TmuxConfig::default().session_ignore.is_empty());
}

#[test]
fn tmux_config_builds_a_true_filter_when_the_list_is_empty() {
    let config = TmuxConfig { session_ignore: Vec::new() };

    assert_eq!(config.ignore_filter(), "1");
}
