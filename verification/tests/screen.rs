use tavern_core::interact::Rgb;
use tavern_core::screen::{
    esc_back_to_main_menu, esc_to_quit, handle_button, handle_buttons, handle_esc,
    scaled_image_dimension, select_setting, set_screen_mode_with_keys, settings_button_colors,
    space_to_play,
    ButtonColors, GameState, IngameState, Interaction, MenuButtonAction, MenuState,
    PauseButtonAction, QuitEscTime, ScaleByAssetResolution, ScreenMode,
};

#[test]
fn escape_pauses_and_resumes() {
    let mut state = IngameState::Running;
    handle_esc(false, &mut state);
    assert_eq!(state, IngameState::Running);
    handle_esc(true, &mut state);
    assert_eq!(state, IngameState::Paused);
    handle_esc(true, &mut state);
    assert_eq!(state, IngameState::Running);
    state = IngameState::Settings;
    handle_esc(true, &mut state);
    assert_eq!(state, IngameState::Paused);
    state = IngameState::ToMenu;
    handle_esc(true, &mut state);
    assert_eq!(state, IngameState::ToMenu);
    state = IngameState::Diabled;
    handle_esc(true, &mut state);
    assert_eq!(state, IngameState::Diabled);
}

#[test]
fn screen_mode_toggles_on_keys() {
    let mut mode = ScreenMode::Windowed;
    set_screen_mode_with_keys(true, false, false, &mut mode);
    assert_eq!(mode, ScreenMode::Windowed);
    set_screen_mode_with_keys(false, true, false, &mut mode);
    assert_eq!(mode, ScreenMode::Windowed);
    set_screen_mode_with_keys(true, true, false, &mut mode);
    assert_eq!(mode, ScreenMode::BorderlessFullscreen);
    set_screen_mode_with_keys(false, false, true, &mut mode);
    assert_eq!(mode, ScreenMode::Windowed);
}

#[test]
fn pause_buttons_change_the_state() {
    let mut colors = ButtonColors::default();
    let mut state = IngameState::Paused;
    let mut action = PauseButtonAction::Settings;
    assert_eq!(handle_button(Interaction::Pressed, &mut colors, &mut action, &mut state), None);
    assert_eq!(state, IngameState::Settings);
    action = PauseButtonAction::BackToPaused;
    handle_button(Interaction::Pressed, &mut colors, &mut action, &mut state);
    assert_eq!(state, IngameState::Paused);
    action = PauseButtonAction::Resume;
    handle_button(Interaction::Pressed, &mut colors, &mut action, &mut state);
    assert_eq!(state, IngameState::Running);
    assert_eq!(colors, ButtonColors::default());
}

#[test]
fn main_menu_button_asks_once() {
    let mut colors = ButtonColors::default();
    let mut state = IngameState::Paused;
    let mut action = PauseButtonAction::MainMenu(false);
    assert_eq!(handle_button(Interaction::Pressed, &mut colors, &mut action, &mut state), None);
    assert_eq!(state, IngameState::Paused);
    assert_eq!(action, PauseButtonAction::MainMenu(true));
    assert_eq!(colors.normal, Rgb { r: 500, g: 200, b: 200 });
    assert_eq!(colors.hovered, Rgb { r: 800, g: 200, b: 200 });
    assert_eq!(
        handle_button(Interaction::Hovered, &mut colors, &mut action, &mut state),
        Some(Rgb { r: 800, g: 200, b: 200 })
    );
    assert_eq!(
        handle_button(Interaction::Idle, &mut colors, &mut action, &mut state),
        Some(Rgb { r: 500, g: 200, b: 200 })
    );
    assert_eq!(state, IngameState::Paused);
    handle_button(Interaction::Pressed, &mut colors, &mut action, &mut state);
    assert_eq!(state, IngameState::ToMenu);
}

#[test]
fn default_button_colors() {
    let colors = ButtonColors::default();
    assert_eq!(colors.normal, Rgb { r: 200, g: 200, b: 200 });
    assert_eq!(colors.hovered, Rgb { r: 350, g: 350, b: 350 });
}

#[test]
fn settings_buttons_show_the_selected_option() {
    let pressed = Rgb { r: 350, g: 750, b: 350 };
    assert_eq!(settings_button_colors(Interaction::Pressed, false), pressed);
    assert_eq!(settings_button_colors(Interaction::Pressed, true), pressed);
    assert_eq!(settings_button_colors(Interaction::Idle, true), pressed);
    assert_eq!(settings_button_colors(Interaction::Hovered, true), Rgb { r: 250, g: 650, b: 250 });
    assert_eq!(settings_button_colors(Interaction::Hovered, false), Rgb { r: 250, g: 250, b: 250 });
    assert_eq!(settings_button_colors(Interaction::Idle, false), Rgb { r: 150, g: 150, b: 150 });
}

#[test]
fn scale_by_asset_resolution() {
    assert_eq!(ScaleByAssetResolution::Res1080p.scale(), (1000, 1000));
    assert_eq!(ScaleByAssetResolution::Res720p.scale(), (1500, 1500));
    assert_eq!(ScaleByAssetResolution::Custom(1280, 720).scale(), (1500, 1500));
    assert_eq!(ScaleByAssetResolution::Custom(3840, 1000).scale(), (500, 1080));
    assert_eq!(ScaleByAssetResolution::Custom(7, 7).scale(), (274_285, 154_285));
}

#[test]
fn scaled_image_dimension_is_pixels_times_factor() {
    assert_eq!(scaled_image_dimension(100, 1500), Some(150_000));
    assert_eq!(scaled_image_dimension(0, 1500), Some(0));
    assert_eq!(scaled_image_dimension(65_537, 65_535), Some(4_294_967_295));
    assert_eq!(scaled_image_dimension(65_536, 65_536), None);
}

#[test]
fn main_menu_buttons_change_the_screens() {
    let mut colors = ButtonColors::default();
    let mut game = GameState::Menu;
    let mut menu = MenuState::Main;
    let mut action = MenuButtonAction::Settings;
    assert_eq!(handle_buttons(Interaction::Pressed, &mut colors, &mut action, &mut game, &mut menu), None);
    assert_eq!((game, menu), (GameState::Menu, MenuState::Settings));
    action = MenuButtonAction::BackToMainMenu;
    handle_buttons(Interaction::Pressed, &mut colors, &mut action, &mut game, &mut menu);
    assert_eq!((game, menu), (GameState::Menu, MenuState::Main));
    action = MenuButtonAction::Continue;
    handle_buttons(Interaction::Pressed, &mut colors, &mut action, &mut game, &mut menu);
    assert_eq!((game, menu), (GameState::Menu, MenuState::Main));
    action = MenuButtonAction::Play;
    assert_eq!(
        handle_buttons(Interaction::Hovered, &mut colors, &mut action, &mut game, &mut menu),
        Some(Rgb { r: 350, g: 350, b: 350 })
    );
    assert_eq!(
        handle_buttons(Interaction::Idle, &mut colors, &mut action, &mut game, &mut menu),
        Some(Rgb { r: 200, g: 200, b: 200 })
    );
    assert_eq!((game, menu), (GameState::Menu, MenuState::Main));
    handle_buttons(Interaction::Pressed, &mut colors, &mut action, &mut game, &mut menu);
    assert_eq!((game, menu), (GameState::Playing, MenuState::Disabled));
    assert_eq!(colors, ButtonColors::default());
}

#[test]
fn quit_button_asks_once() {
    let mut colors = ButtonColors::default();
    let mut game = GameState::Menu;
    let mut menu = MenuState::Main;
    let mut action = MenuButtonAction::Quit(false);
    handle_buttons(Interaction::Pressed, &mut colors, &mut action, &mut game, &mut menu);
    assert_eq!(action, MenuButtonAction::Quit(true));
    assert_eq!(menu, MenuState::Main);
    assert_eq!(colors.normal, Rgb { r: 500, g: 200, b: 200 });
    assert_eq!(colors.hovered, Rgb { r: 800, g: 200, b: 200 });
    handle_buttons(Interaction::Pressed, &mut colors, &mut action, &mut game, &mut menu);
    assert_eq!(menu, MenuState::Exit);
    assert_eq!(game, GameState::Menu);
}

#[test]
fn space_starts_the_game() {
    let mut game = GameState::Menu;
    let mut menu = MenuState::Main;
    space_to_play(false, &mut game, &mut menu);
    assert_eq!((game, menu), (GameState::Menu, MenuState::Main));
    space_to_play(true, &mut game, &mut menu);
    assert_eq!((game, menu), (GameState::Playing, MenuState::Disabled));
}

#[test]
fn escape_leaves_the_settings() {
    let mut menu = MenuState::Settings;
    esc_back_to_main_menu(false, &mut menu);
    assert_eq!(menu, MenuState::Settings);
    esc_back_to_main_menu(true, &mut menu);
    assert_eq!(menu, MenuState::Main);
}

#[test]
fn second_escape_within_a_second_quits() {
    let mut question = QuitEscTime::new();
    assert_eq!(esc_to_quit(false, &mut question, 16), (false, None));
    assert_eq!(question.time, None);
    assert_eq!(esc_to_quit(true, &mut question, 16), (false, Some(true)));
    assert_eq!(question.time, Some(16));
    assert_eq!(esc_to_quit(false, &mut question, 900), (false, None));
    assert_eq!(question.time, Some(916));
    assert_eq!(esc_to_quit(true, &mut question, 16), (true, None));
}

#[test]
fn escape_question_goes_away_after_a_second() {
    let mut question = QuitEscTime::new();
    esc_to_quit(true, &mut question, 999);
    assert_eq!(esc_to_quit(false, &mut question, 1), (false, None));
    assert_eq!(question.time, Some(1000));
    assert_eq!(esc_to_quit(true, &mut question, 16), (false, Some(false)));
    assert_eq!(question.time, None);
    assert_eq!(esc_to_quit(true, &mut question, u64::MAX), (false, Some(true)));
    assert_eq!(question.time, Some(u64::MAX));
    assert_eq!(esc_to_quit(false, &mut question, u64::MAX), (false, Some(false)));
}

#[test]
fn pressed_setting_comes_into_force() {
    let mut setting = ScreenMode::Windowed;
    assert!(!select_setting(Interaction::Pressed, ScreenMode::Windowed, &mut setting));
    assert!(!select_setting(Interaction::Hovered, ScreenMode::BorderlessFullscreen, &mut setting));
    assert!(!select_setting(Interaction::Idle, ScreenMode::BorderlessFullscreen, &mut setting));
    assert_eq!(setting, ScreenMode::Windowed);
    assert!(select_setting(Interaction::Pressed, ScreenMode::BorderlessFullscreen, &mut setting));
    assert_eq!(setting, ScreenMode::BorderlessFullscreen);
}
