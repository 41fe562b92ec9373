//! The screens of the program and what their buttons and keys decide.

use vstd::prelude::*;

verus! {

/// The screen that is shown.
#[derive(Clone, Copy, Debug, PartialEq, Eq, Hash, Structural)]
pub enum GameState {
    Menu,
    Playing,
    Paused,
    Options,
}

impl Default for GameState {
    /// The program starts in the menu.
    fn default() -> (state: Self)
        ensures
            state == GameState::Menu,
    {
        GameState::Menu
    }
}

/// What the pointer does to a button.
#[derive(Clone, Copy, Debug, PartialEq, Eq, Structural)]
pub enum Interaction {
    Pressed,
    Hovered,
    Idle,
}

/// The buttons of the menu.
#[derive(Clone, Copy, Debug, PartialEq, Eq, Structural)]
pub enum MenuButton {
    Play,
    Options,
    Exit,
}

/// The buttons of the options screen.
#[derive(Clone, Copy, Debug, PartialEq, Eq, Structural)]
pub enum OptionsButton {
    Back,
}

/// The buttons of the pause screen.
#[derive(Clone, Copy, Debug, PartialEq, Eq, Structural)]
pub enum PauseButton {
    Resume,
    MainMenu,
}

/// What a button asks for.
#[derive(Clone, Copy, Debug, PartialEq, Eq, Structural)]
pub enum ModeChange {
    /// Nothing changes.
    Stay,
    /// Another screen is shown next.
    Enter(GameState),
    /// The program ends.
    Quit,
}

/// Decides what a menu button asks for: a pressed button starts the game,
/// opens the options or ends the program; a button that is not pressed asks
/// for nothing.
pub fn menu_button_system(interaction: Interaction, button: MenuButton) -> (change: ModeChange)
    ensures
        change == (if interaction == Interaction::Pressed {
            match button {
                MenuButton::Play => ModeChange::Enter(GameState::Playing),
                MenuButton::Options => ModeChange::Enter(GameState::Options),
                MenuButton::Exit => ModeChange::Quit,
            }
        } else {
            ModeChange::Stay
        }),
{
    match interaction {
        Interaction::Pressed => match button {
            MenuButton::Play => ModeChange::Enter(GameState::Playing),
            MenuButton::Options => ModeChange::Enter(GameState::Options),
            MenuButton::Exit => ModeChange::Quit,
        },
        _ => ModeChange::Stay,
    }
}

/// Decides what a button of the options screen asks for: pressed, it leads
/// back to the menu.
pub fn options_button_system(interaction: Interaction, button: OptionsButton) -> (change:
    ModeChange)
    ensures
        change == (if interaction == Interaction::Pressed {
            ModeChange::Enter(GameState::Menu)
        } else {
            ModeChange::Stay
        }),
{
    match interaction {
        Interaction::Pressed => match button {
            OptionsButton::Back => ModeChange::Enter(GameState::Menu),
        },
        _ => ModeChange::Stay,
    }
}

/// Decides what a button of the pause screen asks for: pressed, it resumes
/// the game or leads to the menu.
pub fn pause_button_system(interaction: Interaction, button: PauseButton) -> (change: ModeChange)
    ensures
        change == (if interaction == Interaction::Pressed {
            match button {
                PauseButton::Resume => ModeChange::Enter(GameState::Playing),
                PauseButton::MainMenu => ModeChange::Enter(GameState::Menu),
            }
        } else {
            ModeChange::Stay
        }),
{
    match interaction {
        Interaction::Pressed => match button {
            PauseButton::Resume => ModeChange::Enter(GameState::Playing),
            PauseButton::MainMenu => ModeChange::Enter(GameState::Menu),
        },
        _ => ModeChange::Stay,
    }
}

/// Decides what the escape key does: it pauses a running game and resumes a
/// paused one, and does nothing on the other screens.
pub fn handle_pause_input(escape_pressed: bool, current: GameState) -> (next: Option<GameState>)
    ensures
        next == (if !escape_pressed {
            None
        } else {
            match current {
                GameState::Playing => Some(GameState::Paused),
                GameState::Paused => Some(GameState::Playing),
                _ => None,
            }
        }),
{
    if escape_pressed {
        match current {
            GameState::Playing => Some(GameState::Paused),
            GameState::Paused => Some(GameState::Playing),
            _ => None,
        }
    } else {
        None
    }
}

/// Decides whether the session is torn down when the pause screen is left:
/// it is where the menu comes next.
pub fn cleanup_game_on_menu_return(pending: Option<GameState>) -> (tear_down: bool)
    ensures
        tear_down == (pending == Some(GameState::Menu)),
{
    match pending {
        Some(GameState::Menu) => true,
        _ => false,
    }
}

} // verus!
