use lionclip::settings::autostart::{
    config_home, is_enabled, override_path, AutostartError, HIDDEN_OVERRIDE,
};
use lionclip::settings::service::{history_limit_at, history_limit_position, snapped_history_limit};
use lionclip::settings::{nearest_history_limit, Defaults, HISTORY_LIMIT_CHOICES};

#[test]
fn nearest_history_limit_snaps_to_the_closest_choice() {
    assert_eq!(nearest_history_limit(100), 100);
    assert_eq!(nearest_history_limit(500), 500);
    assert_eq!(nearest_history_limit(1000), 1000);
    assert_eq!(nearest_history_limit(0), 100);
    assert_eq!(nearest_history_limit(10_000), 1000);
    assert_eq!(nearest_history_limit(733), 500);
    assert_eq!(nearest_history_limit(760), 1000);
}

#[test]
fn ties_between_two_choices_go_to_the_smaller() {
    assert_eq!(nearest_history_limit(175), 100);
    assert_eq!(nearest_history_limit(375), 250);
    assert_eq!(nearest_history_limit(750), 500);
    assert_eq!(nearest_history_limit(i32::MIN), 100);
    assert_eq!(nearest_history_limit(i32::MAX), 1000);
    for choice in HISTORY_LIMIT_CHOICES {
        assert_eq!(nearest_history_limit(choice as i32), choice);
    }
}

#[test]
fn out_of_band_stored_values_are_snapped() {
    assert_eq!(snapped_history_limit(733), 500);
    assert_eq!(snapped_history_limit(u32::MAX), 1000);
    assert_eq!(snapped_history_limit(250), 250);
}

#[test]
fn defaults_match_the_schema() {
    let settings = Defaults::default();
    assert_eq!(settings.history_limit(), 500);
    assert!(settings.save_images());
    assert!(!settings.recording_paused());
    assert!(!settings.auto_paste());
}

#[test]
fn each_setting_persists_across_reads() {
    let mut settings = Defaults::default();

    settings.set_history_limit(250);
    assert_eq!(settings.history_limit(), 250);

    settings.set_save_images(false);
    assert!(!settings.save_images());

    settings.set_recording_paused(true);
    assert!(settings.recording_paused());

    settings.set_auto_paste(true);
    assert!(settings.auto_paste());
}

#[test]
fn history_limit_setter_snaps_out_of_band_values() {
    let mut settings = Defaults::default();
    settings.set_history_limit(733);
    assert_eq!(settings.history_limit(), 500);
}

#[test]
fn two_isolated_instances_never_see_each_others_values() {
    let mut a = Defaults::default();
    let b = Defaults::default();

    a.set_recording_paused(true);
    assert!(a.recording_paused());
    assert!(!b.recording_paused());
}

#[test]
fn no_override_file_means_enabled() {
    assert!(is_enabled(None));
}

#[test]
fn a_non_hidden_override_file_is_still_treated_as_enabled() {
    assert!(is_enabled(Some("[Desktop Entry]\nName=Something else\n")));
}

#[test]
fn the_written_override_disables_autostart() {
    assert!(!is_enabled(Some(HIDDEN_OVERRIDE)));
    assert!(!is_enabled(Some("  Hidden=true  \r\n")));
    assert!(!is_enabled(Some("Name=x\nHidden=true")));
    assert!(is_enabled(Some("Hidden=false\n")));
    assert!(is_enabled(Some("X-Hidden=true\n")));
    assert!(is_enabled(Some("")));
}

#[test]
fn the_override_lives_in_the_user_autostart_directory() {
    assert_eq!(
        override_path("/home/user/.config"),
        "/home/user/.config/autostart/io.github.Pianisuto.LionClip.desktop"
    );
    assert_eq!(
        config_home(Some("/xdg/config"), Some("/home/user")),
        Some("/xdg/config".to_owned())
    );
    assert_eq!(
        config_home(Some("relative"), Some("/home/user")),
        Some("/home/user/.config".to_owned())
    );
    assert_eq!(config_home(None, Some("")), None);
}

#[test]
fn autostart_errors_have_stable_diagnostics() {
    assert_eq!(AutostartError::ConfigHome.diagnostic(), "autostart-config-home");
    assert_eq!(AutostartError::Directory.diagnostic(), "autostart-directory");
    assert_eq!(AutostartError::Write.diagnostic(), "autostart-write");
}

#[test]
fn the_preferences_list_rows_map_to_the_choices() {
    assert_eq!(history_limit_position(100), Some(0));
    assert_eq!(history_limit_position(1000), Some(3));
    assert_eq!(history_limit_position(733), None);
    assert_eq!(history_limit_at(1), Some(250));
    assert_eq!(history_limit_at(2), Some(500));
    assert_eq!(history_limit_at(4), None);
    for (index, choice) in HISTORY_LIMIT_CHOICES.iter().enumerate() {
        assert_eq!(history_limit_at(index as u32), Some(*choice));
        assert_eq!(history_limit_position(*choice), Some(index));
    }
}
