//! The tray: what its menu shows of the history, what its commands mean, and
//! the pixels of its icon.

use vstd::prelude::*;
use vstd::string::StringExecFns;

use crate::entry::ClipboardEntry;

verus! {

/// What the tray menu shows: how many entries the history holds, whether
/// there is anything to clear, and whether launch at login is ticked.
#[derive(Clone, Copy, Debug, PartialEq, Eq, Structural)]
pub struct TrayMenu {
    pub history_count: usize,
    pub clear_enabled: bool,
    pub auto_launch_checked: bool,
}

/// What a menu item asks for.
#[derive(Clone, Copy, Debug, PartialEq, Eq, Structural)]
pub enum MenuCommand {
    ShowWindow,
    ToggleAutoLaunch,
    ClearHistory,
    Quit,
    /// The item carries no command.
    Nothing,
}

/// The command of the menu item with identifier `id`.
pub open spec fn command_of(id: Seq<char>) -> MenuCommand {
    if id == "show_window"@ {
        MenuCommand::ShowWindow
    } else if id == "auto_launch"@ {
        MenuCommand::ToggleAutoLaunch
    } else if id == "clear"@ {
        MenuCommand::ClearHistory
    } else if id == "quit"@ {
        MenuCommand::Quit
    } else {
        MenuCommand::Nothing
    }
}

/// The menu for a history and the state of launch at login.
pub fn create_tray_menu(history: &[ClipboardEntry], auto_launch_enabled: bool) -> (menu: TrayMenu)
    ensures
        menu.history_count == history@.len(),
        menu.clear_enabled == (history@.len() > 0),
        menu.auto_launch_checked == auto_launch_enabled,
{
    TrayMenu {
        history_count: history.len(),
        clear_enabled: history.len() > 0,
        auto_launch_checked: auto_launch_enabled,
    }
}

/// The command of the menu item with identifier `id`.
pub fn menu_command(id: &str) -> (command: MenuCommand)
    ensures
        command == command_of(id@),
{
    let id = String::from_str(id);
    if id == String::from_str("show_window") {
        MenuCommand::ShowWindow
    } else if id == String::from_str("auto_launch") {
        MenuCommand::ToggleAutoLaunch
    } else if id == String::from_str("clear") {
        MenuCommand::ClearHistory
    } else if id == String::from_str("quit") {
        MenuCommand::Quit
    } else {
        MenuCommand::Nothing
    }
}

/// What to do with the main window.
#[derive(Clone, Copy, Debug, PartialEq, Eq, Structural)]
pub enum WindowAction {
    /// Show the window and give it the focus.
    Show,
    /// Hide the window.
    Hide,
}

/// A click on the tray icon toggles the window. `visible` is what the window
/// said when asked whether it shows, `None` where asking failed: it then
/// counts as hidden.
pub fn tray_click(visible: Option<bool>) -> (action: WindowAction)
    ensures
        action == if visible == Some(true) {
            WindowAction::Hide
        } else {
            WindowAction::Show
        },
{
    match visible {
        Some(true) => WindowAction::Hide,
        _ => WindowAction::Show,
    }
}

/// Width and height of the tray icon, in pixels.
pub const ICON_SIZE: u32 = 22;

/// One pixel: red, green, blue, alpha.
#[derive(Clone, Copy, Debug, PartialEq, Eq, Structural)]
pub struct Rgba {
    pub red: u8,
    pub green: u8,
    pub blue: u8,
    pub alpha: u8,
}

/// The colour of the icon at column `x`, row `y`: a black clip on top of a
/// grey board that carries a white sheet; clear elsewhere.
pub open spec fn icon_pixel(x: int, y: int) -> Rgba {
    if 8 <= x <= 13 && y <= 4 {
        Rgba { red: 0, green: 0, blue: 0, alpha: 255 }
    } else if 6 <= x <= 15 && 5 <= y <= 17 {
        Rgba { red: 255, green: 255, blue: 255, alpha: 255 }
    } else if 4 <= x <= 17 && 3 <= y <= 19 {
        Rgba { red: 80, green: 80, blue: 80, alpha: 255 }
    } else {
        Rgba { red: 0, green: 0, blue: 0, alpha: 0 }
    }
}

/// The byte at place `at` of the icon's pixel buffer: rows from the top, four
/// bytes a pixel.
pub open spec fn icon_byte(at: int) -> u8 {
    let pixel = icon_pixel((at / 4) % (ICON_SIZE as int), (at / 4) / (ICON_SIZE as int));
    if at % 4 == 0 {
        pixel.red
    } else if at % 4 == 1 {
        pixel.green
    } else if at % 4 == 2 {
        pixel.blue
    } else {
        pixel.alpha
    }
}

/// The colour of the icon at column `x`, row `y`.
pub fn pixel_at(x: u32, y: u32) -> (pixel: Rgba)
    ensures
        pixel == icon_pixel(x as int, y as int),
{
    let in_clip = 8 <= x && x <= 13 && y <= 4;
    let in_board = 4 <= x && x <= 17 && 3 <= y && y <= 19;
    let in_paper = 6 <= x && x <= 15 && 5 <= y && y <= 17;
    if in_clip {
        Rgba { red: 0, green: 0, blue: 0, alpha: 255 }
    } else if in_paper {
        Rgba { red: 255, green: 255, blue: 255, alpha: 255 }
    } else if in_board {
        Rgba { red: 80, green: 80, blue: 80, alpha: 255 }
    } else {
        Rgba { red: 0, green: 0, blue: 0, alpha: 0 }
    }
}

/// The icon's pixel buffer: [`ICON_SIZE`] rows of [`ICON_SIZE`] pixels.
pub fn create_icon() -> (rgba: Vec<u8>)
    ensures
        rgba@.len() == ICON_SIZE * ICON_SIZE * 4,
        forall|at: int| 0 <= at < rgba@.len() ==> #[trigger] rgba@[at] == icon_byte(at),
{
    let mut rgba: Vec<u8> = Vec::new();
    let mut y: u32 = 0;
    while y < ICON_SIZE
        invariant
            y <= ICON_SIZE,
            rgba@.len() == y * ICON_SIZE * 4,
            forall|at: int| 0 <= at < rgba@.len() ==> #[trigger] rgba@[at] == icon_byte(at),
        decreases ICON_SIZE - y,
    {
        let mut x: u32 = 0;
        while x < ICON_SIZE
            invariant
                x <= ICON_SIZE,
                y < ICON_SIZE,
                rgba@.len() == (y * ICON_SIZE + x) * 4,
                forall|at: int| 0 <= at < rgba@.len() ==> #[trigger] rgba@[at] == icon_byte(at),
            decreases ICON_SIZE - x,
        {
            let pixel = pixel_at(x, y);
            let ghost start = rgba@.len() as int;
            assert(start / 4 == y * ICON_SIZE + x);
            assert((start / 4) % (ICON_SIZE as int) == x && (start / 4) / (ICON_SIZE as int) == y)
                by (nonlinear_arith)
                requires
                    start / 4 == y * ICON_SIZE + x,
                    0 <= x < ICON_SIZE,
                    ICON_SIZE == 22,
            ;
            rgba.push(pixel.red);
            rgba.push(pixel.green);
            rgba.push(pixel.blue);
            rgba.push(pixel.alpha);
            assert forall|at: int| 0 <= at < rgba@.len() implies #[trigger] rgba@[at] == icon_byte(
                at,
            ) by {
                if at >= start {
                    assert(at / 4 == start / 4);
                }
            }
            x += 1;
        }
        y += 1;
    }
    rgba
}

} // verus!
