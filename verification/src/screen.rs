//! The screens around the room: which of them shows, what the escape key
//! and the buttons of the menus do, and how images are scaled.

use vstd::prelude::*;
use crate::interact::Rgb;

verus! {

/// What the program as a whole is doing.
#[derive(Clone, Copy, Debug, PartialEq, Eq, Structural, Hash)]
pub enum GameState {
    Loading,
    Playing,
    Menu,
}

/// What the game is doing while it is played.
#[derive(Clone, Copy, Debug, PartialEq, Eq, Structural, Hash)]
pub enum IngameState {
    Running,
    Paused,
    Settings,
    ToMenu,
    Diabled,
}

/// Which screen of the main menu shows.
#[derive(Clone, Copy, Debug, PartialEq, Eq, Structural, Hash)]
pub enum MenuState {
    Main,
    Settings,
    Disabled,
    Exit,
}

/// How the window is shown.
#[derive(Clone, Copy, Debug, PartialEq, Eq, Structural, Hash)]
pub enum ScreenMode {
    Windowed,
    BorderlessFullscreen,
}

/// What a button of the pause menu does. The button that leaves for the
/// main menu asks once before it acts: its flag says whether it has asked.
#[derive(Clone, Copy, Debug, PartialEq, Eq, Structural, Hash)]
pub enum PauseButtonAction {
    Resume,
    Settings,
    BackToPaused,
    MainMenu(bool),
}

/// What the pointer does to a button.
#[derive(Clone, Copy, Debug, PartialEq, Eq, Structural, Hash)]
pub enum Interaction {
    Pressed,
    Hovered,
    Idle,
}

/// The colour of a button at rest and under the pointer.
#[derive(Clone, Copy, Debug, PartialEq, Eq, Structural, Hash)]
pub struct ButtonColors {
    pub normal: Rgb,
    pub hovered: Rgb,
}

impl ButtonColors {
    pub open spec fn plain() -> ButtonColors {
        ButtonColors {
            normal: Rgb { r: 200, g: 200, b: 200 },
            hovered: Rgb { r: 350, g: 350, b: 350 },
        }
    }

    /// The colours of a button that has asked and waits for the second
    /// press.
    pub open spec fn warning() -> ButtonColors {
        ButtonColors {
            normal: Rgb { r: 500, g: 200, b: 200 },
            hovered: Rgb { r: 800, g: 200, b: 200 },
        }
    }
}

impl Default for ButtonColors {
    fn default() -> (colors: Self)
        ensures
            colors == ButtonColors::plain(),
    {
        ButtonColors {
            normal: Rgb { r: 200, g: 200, b: 200 },
            hovered: Rgb { r: 350, g: 350, b: 350 },
        }
    }
}

impl IngameState {
    /// The state after the escape key: a running game pauses, a paused one
    /// runs on, the settings go back to the pause menu.
    pub open spec fn escaped(self) -> IngameState {
        match self {
            IngameState::Running => IngameState::Paused,
            IngameState::Paused => IngameState::Running,
            IngameState::Settings => IngameState::Paused,
            IngameState::ToMenu => IngameState::ToMenu,
            IngameState::Diabled => IngameState::Diabled,
        }
    }
}

/// Acts on the escape key: where it was pressed in this tick, the state
/// changes as `escaped` says; where not, it stays.
pub fn handle_esc(escape_just_pressed: bool, ingame_state: &mut IngameState)
    ensures
        *final(ingame_state) == (if escape_just_pressed {
            old(ingame_state).escaped()
        } else {
            *old(ingame_state)
        }),
{
    if escape_just_pressed {
        match *ingame_state {
            IngameState::Running => {
                *ingame_state = IngameState::Paused;
            },
            IngameState::Paused => {
                *ingame_state = IngameState::Running;
            },
            IngameState::Settings => {
                *ingame_state = IngameState::Paused;
            },
            _ => {},
        }
    }
}

impl ScreenMode {
    pub open spec fn toggled(self) -> ScreenMode {
        match self {
            ScreenMode::Windowed => ScreenMode::BorderlessFullscreen,
            ScreenMode::BorderlessFullscreen => ScreenMode::Windowed,
        }
    }
}

/// Switches between the window and the full screen on the key F, or on
/// return while alt is held.
pub fn set_screen_mode_with_keys(
    alt_pressed: bool,
    return_just_pressed: bool,
    f_just_pressed: bool,
    screen_mode: &mut ScreenMode,
)
    ensures
        *final(screen_mode) == (if (alt_pressed && return_just_pressed) || f_just_pressed {
            old(screen_mode).toggled()
        } else {
            *old(screen_mode)
        }),
{
    if (alt_pressed && return_just_pressed) || f_just_pressed {
        match *screen_mode {
            ScreenMode::Windowed => {
                *screen_mode = ScreenMode::BorderlessFullscreen;
            },
            ScreenMode::BorderlessFullscreen => {
                *screen_mode = ScreenMode::Windowed;
            },
        }
    }
}

/// What a button of the pause menu shows and does.
pub struct ButtonOutcome {
    /// The colour in which the button is drawn, where it changes.
    pub color: Option<Rgb>,
    pub colors: ButtonColors,
    pub action: PauseButtonAction,
    /// The state that the game goes to, where it changes.
    pub next: Option<IngameState>,
}

/// What becomes of a button of the pause menu whose interaction changed.
///
/// A press acts: it resumes, opens the settings, goes back to the pause
/// menu, or, on the button for the main menu, first turns the button into
/// its warning colours and only on the second press leaves. Under the
/// pointer a button shows its hovered colour, else its colour at rest.
pub open spec fn button_outcome(
    interaction: Interaction,
    colors: ButtonColors,
    action: PauseButtonAction,
) -> ButtonOutcome {
    match interaction {
        Interaction::Pressed => match action {
            PauseButtonAction::Resume => ButtonOutcome {
                color: None,
                colors,
                action,
                next: Some(IngameState::Running),
            },
            PauseButtonAction::Settings => ButtonOutcome {
                color: None,
                colors,
                action,
                next: Some(IngameState::Settings),
            },
            PauseButtonAction::BackToPaused => ButtonOutcome {
                color: None,
                colors,
                action,
                next: Some(IngameState::Paused),
            },
            PauseButtonAction::MainMenu(confirm) => if confirm {
                ButtonOutcome { color: None, colors, action, next: Some(IngameState::ToMenu) }
            } else {
                ButtonOutcome {
                    color: None,
                    colors: ButtonColors::warning(),
                    action: PauseButtonAction::MainMenu(true),
                    next: None,
                }
            },
        },
        Interaction::Hovered => ButtonOutcome {
            color: Some(colors.hovered),
            colors,
            action,
            next: None,
        },
        Interaction::Idle => ButtonOutcome { color: Some(colors.normal), colors, action, next: None },
    }
}

/// Acts on a button of the pause menu whose interaction changed. Returns
/// the colour in which the button is to be drawn, if that changes.
pub fn handle_button(
    interaction: Interaction,
    button_colors: &mut ButtonColors,
    action: &mut PauseButtonAction,
    ingame_state: &mut IngameState,
) -> (color: Option<Rgb>)
    ensures
        color == button_outcome(interaction, *old(button_colors), *old(action)).color,
        *final(button_colors) == button_outcome(
            interaction,
            *old(button_colors),
            *old(action),
        ).colors,
        *final(action) == button_outcome(interaction, *old(button_colors), *old(action)).action,
        *final(ingame_state) == (match button_outcome(
            interaction,
            *old(button_colors),
            *old(action),
        ).next {
            Some(next) => next,
            None => *old(ingame_state),
        }),
{
    match interaction {
        Interaction::Pressed => {
            match *action {
                PauseButtonAction::Resume => {
                    *ingame_state = IngameState::Running;
                },
                PauseButtonAction::Settings => {
                    *ingame_state = IngameState::Settings;
                },
                PauseButtonAction::BackToPaused => {
                    *ingame_state = IngameState::Paused;
                },
                PauseButtonAction::MainMenu(confirm) => {
                    if !confirm {
                        button_colors.normal = Rgb { r: 500, g: 200, b: 200 };
                        button_colors.hovered = Rgb { r: 800, g: 200, b: 200 };
                        *action = PauseButtonAction::MainMenu(true);
                    } else {
                        *ingame_state = IngameState::ToMenu;
                    }
                },
            }
            None
        },
        Interaction::Hovered => Some(button_colors.hovered),
        Interaction::Idle => Some(button_colors.normal),
    }
}

/// What a button of the main menu does. The button that quits asks once
/// before it acts: its flag says whether it has asked.
#[derive(Clone, Copy, Debug, PartialEq, Eq, Structural, Hash)]
pub enum MenuButtonAction {
    Continue,
    Play,
    Settings,
    BackToMainMenu,
    Quit(bool),
}

/// What a button of the main menu shows and does.
pub struct MenuOutcome {
    /// The colour in which the button is drawn, where it changes.
    pub color: Option<Rgb>,
    pub colors: ButtonColors,
    pub action: MenuButtonAction,
    /// The state that the program goes to, where it changes.
    pub game: Option<GameState>,
    /// The screen of the menu that shows next, where it changes.
    pub menu: Option<MenuState>,
}

/// What becomes of a button of the main menu whose interaction changed.
///
/// A press acts: it starts the game and puts the menu away, opens the
/// settings, goes back to the first screen, or, on the button that quits,
/// first turns the button into its warning colours and only on the second
/// press leaves. Under the pointer a button shows its hovered colour, else
/// its colour at rest.
pub open spec fn menu_outcome(
    interaction: Interaction,
    colors: ButtonColors,
    action: MenuButtonAction,
) -> MenuOutcome {
    let still = MenuOutcome { color: None, colors, action, game: None, menu: None };
    match interaction {
        Interaction::Pressed => match action {
            MenuButtonAction::Continue => still,
            MenuButtonAction::Play => MenuOutcome {
                game: Some(GameState::Playing),
                menu: Some(MenuState::Disabled),
                ..still
            },
            MenuButtonAction::Settings => MenuOutcome { menu: Some(MenuState::Settings), ..still },
            MenuButtonAction::BackToMainMenu => MenuOutcome {
                menu: Some(MenuState::Main),
                ..still
            },
            MenuButtonAction::Quit(confirm) => if confirm {
                MenuOutcome { menu: Some(MenuState::Exit), ..still }
            } else {
                MenuOutcome {
                    colors: ButtonColors::warning(),
                    action: MenuButtonAction::Quit(true),
                    ..still
                }
            },
        },
        Interaction::Hovered => MenuOutcome { color: Some(colors.hovered), ..still },
        Interaction::Idle => MenuOutcome { color: Some(colors.normal), ..still },
    }
}

/// Acts on a button of the main menu whose interaction changed. Returns the
/// colour in which the button is to be drawn, if that changes.
pub fn handle_buttons(
    interaction: Interaction,
    button_colors: &mut ButtonColors,
    action: &mut MenuButtonAction,
    game_state: &mut GameState,
    menu_state: &mut MenuState,
) -> (color: Option<Rgb>)
    ensures
        color == menu_outcome(interaction, *old(button_colors), *old(action)).color,
        *final(button_colors) == menu_outcome(
            interaction,
            *old(button_colors),
            *old(action),
        ).colors,
        *final(action) == menu_outcome(interaction, *old(button_colors), *old(action)).action,
        *final(game_state) == (match menu_outcome(
            interaction,
            *old(button_colors),
            *old(action),
        ).game {
            Some(next) => next,
            None => *old(game_state),
        }),
        *final(menu_state) == (match menu_outcome(
            interaction,
            *old(button_colors),
            *old(action),
        ).menu {
            Some(next) => next,
            None => *old(menu_state),
        }),
{
    match interaction {
        Interaction::Pressed => {
            match *action {
                MenuButtonAction::Continue => {},
                MenuButtonAction::Play => {
                    *game_state = GameState::Playing;
                    *menu_state = MenuState::Disabled;
                },
                MenuButtonAction::Settings => {
                    *menu_state = MenuState::Settings;
                },
                MenuButtonAction::BackToMainMenu => {
                    *menu_state = MenuState::Main;
                },
                MenuButtonAction::Quit(confirm) => {
                    if !confirm {
                        button_colors.normal = Rgb { r: 500, g: 200, b: 200 };
                        button_colors.hovered = Rgb { r: 800, g: 200, b: 200 };
                        *action = MenuButtonAction::Quit(true);
                    } else {
                        *menu_state = MenuState::Exit;
                    }
                },
            }
            None
        },
        Interaction::Hovered => Some(button_colors.hovered),
        Interaction::Idle => Some(button_colors.normal),
    }
}

/// Starts the game from the menu when the space bar was pressed in this
/// tick.
pub fn space_to_play(
    space_just_pressed: bool,
    game_state: &mut GameState,
    menu_state: &mut MenuState,
)
    ensures
        *final(game_state) == (if space_just_pressed {
            GameState::Playing
        } else {
            *old(game_state)
        }),
        *final(menu_state) == (if space_just_pressed {
            MenuState::Disabled
        } else {
            *old(menu_state)
        }),
{
    if space_just_pressed {
        *game_state = GameState::Playing;
        *menu_state = MenuState::Disabled;
    }
}

/// Goes back from the settings to the first screen of the menu when the
/// escape key was pressed in this tick.
pub fn esc_back_to_main_menu(escape_just_pressed: bool, menu_state: &mut MenuState)
    ensures
        *final(menu_state) == (if escape_just_pressed {
            MenuState::Main
        } else {
            *old(menu_state)
        }),
{
    if escape_just_pressed {
        *menu_state = MenuState::Main;
    }
}

/// Milliseconds within which a second press of the escape key quits.
pub const QUIT_ESC_WINDOW: u64 = 1000;

/// The time since the escape key was pressed in the menu, while the
/// question whether to quit shows.
#[derive(Clone, Copy, Debug, PartialEq, Eq, Structural)]
pub struct QuitEscTime {
    pub time: Option<u64>,
}

/// What a tick makes of the question whether to quit.
pub struct QuitOutcome {
    pub quit_esc_time: QuitEscTime,
    /// Whether the program is to quit.
    pub exit: bool,
    /// Whether the question is to be shown or hidden, where that changes.
    pub popup: Option<bool>,
}

/// The first press of the escape key shows the question and starts the
/// time; a second press within the window quits. The time runs while it is
/// within the window; after that the question is hidden and the time
/// forgotten.
pub open spec fn quit_outcome(quit_esc_time: QuitEscTime, escape_just_pressed: bool, dt: u64)
    -> QuitOutcome {
    let exit = escape_just_pressed && quit_esc_time.time is Some && quit_esc_time.time->0
        < QUIT_ESC_WINDOW;
    let started = if escape_just_pressed && quit_esc_time.time is None {
        Some(0u64)
    } else {
        quit_esc_time.time
    };
    let shown = escape_just_pressed && quit_esc_time.time is None;
    match started {
        Some(elapsed) => if elapsed < QUIT_ESC_WINDOW {
            QuitOutcome {
                quit_esc_time: QuitEscTime {
                    time: Some(
                        if elapsed + dt > u64::MAX {
                            u64::MAX
                        } else {
                            (elapsed + dt) as u64
                        },
                    ),
                },
                exit,
                popup: if shown {
                    Some(true)
                } else {
                    None
                },
            }
        } else {
            QuitOutcome { quit_esc_time: QuitEscTime { time: None }, exit, popup: Some(false) }
        },
        None => QuitOutcome { quit_esc_time: QuitEscTime { time: None }, exit, popup: None },
    }
}

impl QuitEscTime {
    pub fn new() -> (quit_esc_time: QuitEscTime)
        ensures
            quit_esc_time.time is None,
    {
        QuitEscTime { time: None }
    }
}

/// Acts on the escape key in the menu for one tick of `dt` milliseconds.
/// Returns whether the program is to quit, and whether the question is to
/// be shown or hidden where that changes.
pub fn esc_to_quit(escape_just_pressed: bool, quit_esc_time: &mut QuitEscTime, dt: u64) -> (outcome:
    (bool, Option<bool>))
    ensures
        *final(quit_esc_time) == quit_outcome(
            *old(quit_esc_time),
            escape_just_pressed,
            dt,
        ).quit_esc_time,
        outcome.0 == quit_outcome(*old(quit_esc_time), escape_just_pressed, dt).exit,
        outcome.1 == quit_outcome(*old(quit_esc_time), escape_just_pressed, dt).popup,
{
    let mut exit = false;
    let mut popup: Option<bool> = None;
    if escape_just_pressed {
        match quit_esc_time.time {
            Some(elapsed) => {
                if elapsed < QUIT_ESC_WINDOW {
                    exit = true;
                }
            },
            None => {
                quit_esc_time.time = Some(0);
                popup = Some(true);
            },
        }
    }
    match quit_esc_time.time {
        Some(elapsed) => {
            if elapsed < QUIT_ESC_WINDOW {
                quit_esc_time.time = Some(
                    if dt > u64::MAX - elapsed {
                        u64::MAX
                    } else {
                        elapsed + dt
                    },
                );
            } else {
                quit_esc_time.time = None;
                popup = Some(false);
            }
        },
        None => {},
    }
    (exit, popup)
}

/// The colour of a button of the settings, by what the pointer does to it
/// and by whether it is the selected one.
pub open spec fn settings_color(interaction: Interaction, selected: bool) -> Rgb {
    match (interaction, selected) {
        (Interaction::Pressed, _) => Rgb { r: 350, g: 750, b: 350 },
        (Interaction::Idle, true) => Rgb { r: 350, g: 750, b: 350 },
        (Interaction::Hovered, true) => Rgb { r: 250, g: 650, b: 250 },
        (Interaction::Hovered, false) => Rgb { r: 250, g: 250, b: 250 },
        (Interaction::Idle, false) => Rgb { r: 150, g: 150, b: 150 },
    }
}

pub fn settings_button_colors(interaction: Interaction, selected: bool) -> (color: Rgb)
    ensures
        color == settings_color(interaction, selected),
{
    match interaction {
        Interaction::Pressed => Rgb { r: 350, g: 750, b: 350 },
        Interaction::Hovered => if selected {
            Rgb { r: 250, g: 650, b: 250 }
        } else {
            Rgb { r: 250, g: 250, b: 250 }
        },
        Interaction::Idle => if selected {
            Rgb { r: 350, g: 750, b: 350 }
        } else {
            Rgb { r: 150, g: 150, b: 150 }
        },
    }
}

/// Acts on a button of the settings that stands for `button_mode`: a press
/// on a button whose option is not in force puts it in force. Returns
/// whether it did, so that the mark of the selected option can move.
pub fn select_setting(interaction: Interaction, button_mode: ScreenMode, setting: &mut ScreenMode)
    -> (changed: bool)
    ensures
        changed == (interaction == Interaction::Pressed && *old(setting) != button_mode),
        *final(setting) == (if changed {
            button_mode
        } else {
            *old(setting)
        }),
{
    let pressed = match interaction {
        Interaction::Pressed => true,
        _ => false,
    };
    if pressed && *setting != button_mode {
        *setting = button_mode;
        true
    } else {
        false
    }
}

/// Width of the view in world units.
pub const CAMERA_WIDTH: u32 = 1920;

/// Height of the view in world units.
pub const CAMERA_HEIGHT: u32 = 1080;

/// The resolution for which an image was drawn.
#[derive(Clone, Copy, Debug, PartialEq, Eq, Structural, Hash)]
pub enum ScaleByAssetResolution {
    Res1080p,
    Res720p,
    /// Width and height in pixels.
    Custom(u32, u32),
}

impl ScaleByAssetResolution {
    /// The factors, in thousandths, by which an image drawn for this
    /// resolution is stretched to fill the view: across, then along.
    pub open spec fn factors(self) -> (int, int) {
        match self {
            ScaleByAssetResolution::Res1080p => (1000, 1000),
            ScaleByAssetResolution::Res720p => (1500, 1500),
            ScaleByAssetResolution::Custom(width, height) => (
                CAMERA_WIDTH * 1000 / width as int,
                CAMERA_HEIGHT * 1000 / height as int,
            ),
        }
    }

    pub fn scale(&self) -> (factors: (u32, u32))
        requires
            *self matches ScaleByAssetResolution::Custom(width, height) ==> width > 0 && height
                > 0,
        ensures
            factors.0 == self.factors().0,
            factors.1 == self.factors().1,
    {
        match *self {
            ScaleByAssetResolution::Res1080p => (1000, 1000),
            ScaleByAssetResolution::Res720p => (1500, 1500),
            ScaleByAssetResolution::Custom(width, height) => (
                CAMERA_WIDTH * 1000 / width,
                CAMERA_HEIGHT * 1000 / height,
            ),
        }
    }
}

/// The size at which an image of `pixels` is drawn when it is stretched by
/// `factor` thousandths, in thousandths of a world unit; `None` where that
/// is more than the type holds.
pub fn scaled_image_dimension(pixels: u32, factor: u32) -> (size: Option<u32>)
    ensures
        size is Some <==> pixels * factor <= u32::MAX,
        size is Some ==> size->0 == pixels * factor,
{
    assert(0 <= pixels * factor <= 0xffff_ffff * 0xffff_ffff) by (nonlinear_arith)
        requires
            0 <= pixels <= 0xffff_ffff,
            0 <= factor <= 0xffff_ffff,
    ;
    let wide: u64 = (pixels as u64) * (factor as u64);
    if wide <= 0xffff_ffff {
        Some(wide as u32)
    } else {
        None
    }
}

} // verus!
