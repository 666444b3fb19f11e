use banzai::{
    app_bundle_path, create_auto_launch, create_icon, create_tray_menu, data_dir_under,
    flip_auto_launch, get_data_dir, get_history_path, history_path_under,
    is_auto_launch_enabled, join_path, menu_command, pixel_at, set_auto_launch, tray_click,
    ClipboardEntry, LaunchAction, LaunchSettings, MenuCommand, Rgba, Timestamp, TrayMenu,
    WindowAction, ICON_SIZE,
};

fn entry(content: &str) -> ClipboardEntry {
    ClipboardEntry { timestamp: Timestamp { seconds: 0, nanoseconds: 0 }, content: content.to_string() }
}

#[test]
fn join_puts_a_slash_between() {
    assert_eq!(join_path("/home/alice", "banzai"), "/home/alice/banzai");
    assert_eq!(join_path(".", "banzai"), "./banzai");
}

#[test]
fn join_adds_no_second_slash() {
    assert_eq!(join_path("/", "banzai"), "/banzai");
    assert_eq!(join_path("/data/", "banzai"), "/data/banzai");
}

#[test]
fn join_under_nothing_is_the_name() {
    assert_eq!(join_path("", "banzai"), "banzai");
}

#[test]
fn data_dir_lies_under_the_user_data_dir() {
    let base = Some("/home/alice/.local/share".to_string());
    assert_eq!(data_dir_under(&base), "/home/alice/.local/share/banzai");
}

#[test]
fn data_dir_falls_back_to_the_current_dir() {
    assert_eq!(data_dir_under(&None), "./banzai");
}

#[test]
fn history_file_lies_in_the_data_dir() {
    let base = Some("/home/alice/.local/share".to_string());
    assert_eq!(
        history_path_under(&base),
        "/home/alice/.local/share/banzai/clipboard_history.jsonl"
    );
    assert_eq!(history_path_under(&None), "./banzai/clipboard_history.jsonl");
}

#[test]
fn paths_for_the_current_user_end_as_they_should() {
    let dir = get_data_dir();
    assert!(dir == "banzai" || dir.ends_with("/banzai"));
    let file = get_history_path();
    assert_eq!(file, join_path(&dir, "clipboard_history.jsonl"));
}

#[test]
fn bundle_is_cut_after_dot_app() {
    assert_eq!(
        app_bundle_path("/Applications/Banzai.app/Contents/MacOS/banzai"),
        "/Applications/Banzai.app"
    );
}

#[test]
fn bundle_is_cut_at_the_first_dot_app() {
    assert_eq!(app_bundle_path("/a/One.app/b/Two.app/c"), "/a/One.app");
}

#[test]
fn a_path_outside_a_bundle_stays_whole() {
    assert_eq!(app_bundle_path("/usr/bin/banzai"), "/usr/bin/banzai");
    assert_eq!(app_bundle_path("/Applications/Banzai.app"), "/Applications/Banzai.app");
    assert_eq!(app_bundle_path(""), "");
    assert_eq!(app_bundle_path(".app"), ".app");
}

#[test]
fn bundle_paths_count_characters_not_bytes() {
    assert_eq!(app_bundle_path("/Programme/B\u{e4}nz\u{e4}i.app/bin/x"), "/Programme/B\u{e4}nz\u{e4}i.app");
    assert_eq!(app_bundle_path(".app/"), ".app");
}

#[test]
fn launch_settings_name_the_bundle() {
    let exe = Some("/Applications/Banzai.app/Contents/MacOS/banzai".to_string());
    assert_eq!(
        create_auto_launch(&exe),
        Some(LaunchSettings {
            app_name: "Banzai".to_string(),
            app_path: "/Applications/Banzai.app".to_string(),
            use_launch_agent: true,
        })
    );
    assert_eq!(create_auto_launch(&None), None);
}

#[test]
fn only_a_plain_yes_counts_as_enabled() {
    assert!(is_auto_launch_enabled(&Some(Ok(true))));
    assert!(!is_auto_launch_enabled(&Some(Ok(false))));
    assert!(!is_auto_launch_enabled(&Some(Err("denied".to_string()))));
    assert!(!is_auto_launch_enabled(&None));
}

#[test]
fn setting_asks_to_enable_or_disable() {
    assert_eq!(set_auto_launch(true, true), Ok(LaunchAction::Enable));
    assert_eq!(set_auto_launch(true, false), Ok(LaunchAction::Disable));
}

#[test]
fn setting_fails_without_a_registration() {
    assert_eq!(set_auto_launch(false, true), Err("Failed to create auto launch".to_string()));
    assert_eq!(set_auto_launch(false, false), Err("Failed to create auto launch".to_string()));
}

#[test]
fn menu_counts_the_history() {
    let history = vec![entry("A"), entry("B")];
    assert_eq!(
        create_tray_menu(&history, true),
        TrayMenu { history_count: 2, clear_enabled: true, auto_launch_checked: true }
    );
}

#[test]
fn menu_of_an_empty_history_cannot_clear() {
    assert_eq!(
        create_tray_menu(&Vec::new(), false),
        TrayMenu { history_count: 0, clear_enabled: false, auto_launch_checked: false }
    );
}

#[test]
fn menu_items_carry_their_commands() {
    assert_eq!(menu_command("show_window"), MenuCommand::ShowWindow);
    assert_eq!(menu_command("auto_launch"), MenuCommand::ToggleAutoLaunch);
    assert_eq!(menu_command("clear"), MenuCommand::ClearHistory);
    assert_eq!(menu_command("quit"), MenuCommand::Quit);
}

#[test]
fn other_menu_items_carry_none() {
    assert_eq!(menu_command("version"), MenuCommand::Nothing);
    assert_eq!(menu_command("status"), MenuCommand::Nothing);
    assert_eq!(menu_command(""), MenuCommand::Nothing);
    assert_eq!(menu_command("Quit"), MenuCommand::Nothing);
}

#[test]
fn icon_regions_have_their_colours() {
    let black = Rgba { red: 0, green: 0, blue: 0, alpha: 255 };
    let white = Rgba { red: 255, green: 255, blue: 255, alpha: 255 };
    let grey = Rgba { red: 80, green: 80, blue: 80, alpha: 255 };
    let clear = Rgba { red: 0, green: 0, blue: 0, alpha: 0 };
    assert_eq!(pixel_at(8, 0), black);
    assert_eq!(pixel_at(13, 4), black);
    assert_eq!(pixel_at(10, 5), white);
    assert_eq!(pixel_at(6, 17), white);
    assert_eq!(pixel_at(4, 3), grey);
    assert_eq!(pixel_at(5, 10), grey);
    assert_eq!(pixel_at(17, 19), grey);
    assert_eq!(pixel_at(7, 4), grey);
    assert_eq!(pixel_at(0, 0), clear);
    assert_eq!(pixel_at(14, 2), clear);
    assert_eq!(pixel_at(21, 21), clear);
    assert_eq!(pixel_at(18, 10), clear);
}

#[test]
fn icon_buffer_holds_every_pixel() {
    let rgba = create_icon();
    assert_eq!(ICON_SIZE, 22);
    assert_eq!(rgba.len(), 22 * 22 * 4);
    for y in 0..22u32 {
        for x in 0..22u32 {
            let at = ((y * 22 + x) * 4) as usize;
            let pixel = pixel_at(x, y);
            assert_eq!(
                (rgba[at], rgba[at + 1], rgba[at + 2], rgba[at + 3]),
                (pixel.red, pixel.green, pixel.blue, pixel.alpha)
            );
        }
    }
    let at = (5 * 22 + 10) * 4;
    assert_eq!(&rgba[at..at + 4], &[255, 255, 255, 255]);
    let at = (3 * 22 + 4) * 4;
    assert_eq!(&rgba[at..at + 4], &[80, 80, 80, 255]);
}

#[test]
fn flipping_turns_on_what_is_off() {
    assert_eq!(flip_auto_launch(&Some(Ok(false))), Ok(LaunchAction::Enable));
    assert_eq!(flip_auto_launch(&Some(Err("denied".to_string()))), Ok(LaunchAction::Enable));
}

#[test]
fn flipping_turns_off_what_is_on() {
    assert_eq!(flip_auto_launch(&Some(Ok(true))), Ok(LaunchAction::Disable));
}

#[test]
fn flipping_fails_without_a_registration() {
    assert_eq!(flip_auto_launch(&None), Err("Failed to create auto launch".to_string()));
}

#[test]
fn a_tray_click_toggles_the_window() {
    assert_eq!(tray_click(Some(true)), WindowAction::Hide);
    assert_eq!(tray_click(Some(false)), WindowAction::Show);
    assert_eq!(tray_click(None), WindowAction::Show);
}
