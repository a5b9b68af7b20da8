//! Start-at-login: which mechanism serves the installation at hand, the
//! command it starts, and the desktop entry written for it.
use vstd::prelude::*;
use crate::i18n::strs;
use crate::text::{append_str, owned};

verus! {

/// How start-at-login is switched on or off.
#[derive(Clone, Copy, Debug, PartialEq, Eq, Structural)]
pub enum AutostartAction {
    /// Write the desktop entry under the snap's own autostart directory.
    EnableSnap,
    /// Remove the snap's desktop entry.
    DisableSnap,
    /// Ask the background portal (sandboxed installations).
    RequestPortal { enable: bool },
    /// Write the desktop entry under the user's autostart directory.
    EnableFile,
    /// Remove the desktop entry (and the one older versions wrote).
    DisableFile,
}

/// Snap packages manage their own autostart entry, other sandboxes go
/// through the portal, and plain installations write the entry themselves.
pub fn autostart_plan(is_snap: bool, is_sandboxed: bool, enable: bool) -> (a: AutostartAction)
    ensures
        a == if is_snap {
            if enable {
                AutostartAction::EnableSnap
            } else {
                AutostartAction::DisableSnap
            }
        } else if is_sandboxed {
            AutostartAction::RequestPortal { enable }
        } else if enable {
            AutostartAction::EnableFile
        } else {
            AutostartAction::DisableFile
        },
{
    if is_snap {
        if enable {
            AutostartAction::EnableSnap
        } else {
            AutostartAction::DisableSnap
        }
    } else if is_sandboxed {
        AutostartAction::RequestPortal { enable }
    } else if enable {
        AutostartAction::EnableFile
    } else {
        AutostartAction::DisableFile
    }
}

/// The command that starts the application at login: in background mode,
/// without opening the main window.
pub open spec fn background_command() -> Seq<Seq<char>> {
    seq!["khushu"@, "--background"@]
}

/// The command handed to the background portal.
pub fn autostart_command() -> (v: Vec<String>)
    ensures
        strs(v@) == background_command(),
{
    let v = vec![owned("khushu"), owned("--background")];
    assert(strs(v@) =~= background_command());
    v
}

/// The lines of the desktop entry before its `Exec` line.
pub open spec fn entry_head() -> Seq<char> {
    "[Desktop Entry]\nName=Khushu\nComment=An all-in-one Muslim app for Linux\n"@
}

/// The lines of the desktop entry after its `Exec` line.
pub open spec fn entry_tail() -> Seq<char> {
    "Icon=io.github.sniper1720.khushu\nTerminal=false\nType=Application\nCategories=Utility;\nKeywords=Prayer;Islam;Salah;\nStartupNotify=true\n"@
}

/// The `Exec` line of a desktop entry for a command of two words.
pub open spec fn exec_line(cmd: Seq<Seq<char>>) -> Seq<char> {
    "Exec="@ + cmd[0] + " "@ + cmd[1] + "\n"@
}

pub open spec fn desktop_entry_spec() -> Seq<char> {
    entry_head() + exec_line(background_command()) + entry_tail()
}

/// The desktop entry written to an autostart directory.
pub fn desktop_entry() -> (r: String)
    ensures
        r@ == desktop_entry_spec(),
{
    let mut r = owned("[Desktop Entry]\nName=Khushu\nComment=An all-in-one Muslim app for Linux\n");
    append_str(&mut r, "Exec=");
    append_str(&mut r, "khushu");
    append_str(&mut r, " ");
    append_str(&mut r, "--background");
    append_str(&mut r, "\n");
    append_str(
        &mut r,
        "Icon=io.github.sniper1720.khushu\nTerminal=false\nType=Application\nCategories=Utility;\nKeywords=Prayer;Islam;Salah;\nStartupNotify=true\n",
    );
    assert(r@ =~= desktop_entry_spec());
    r
}

// ------------------------------------------------------------ laws
/// Every start-at-login mechanism starts the same command, in background
/// mode: the desktop entry holds an `Exec` line that runs the command given
/// to the portal, whose last word asks for the background.
pub proof fn lemma_autostart_starts_in_background()
    ensures
        background_command().last() == "--background"@,
        exists|i: int|
            0 <= i && i + exec_line(background_command()).len() <= desktop_entry_spec().len()
                && #[trigger] desktop_entry_spec().subrange(
                i,
                i + exec_line(background_command()).len(),
            ) == exec_line(background_command()),
{
    let h = entry_head().len() as int;
    let e = exec_line(background_command());
    assert(desktop_entry_spec().subrange(h, h + e.len()) =~= e);
}

} // verus!
