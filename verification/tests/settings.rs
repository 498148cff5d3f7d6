use vopecs_pos::AppSettings;

#[test]
fn default_settings() {
    let settings = AppSettings::default();
    assert_eq!(settings.server_url, "http://vopecspos.test/");
    assert_eq!(settings.window_width, 1400);
    assert_eq!(settings.window_height, 900);
    assert!(!settings.fullscreen);
}

#[test]
fn saved_settings_win_over_initial_ones() {
    let saved = AppSettings {
        server_url: "https://pos.example/".to_string(),
        window_width: 800,
        window_height: 600,
        fullscreen: true,
    };
    assert_eq!(AppSettings::or_initial(Some(saved.clone())), saved);
}

#[test]
fn missing_settings_fall_back_to_initial_ones() {
    assert_eq!(AppSettings::or_initial(None), AppSettings::default());
}

#[test]
fn settings_clone_is_equal() {
    let settings = AppSettings::default();
    assert_eq!(settings.clone(), settings);
}
