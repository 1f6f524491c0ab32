//! Decisions the sidebar and the keyboard take: which message a click
//! sends, when a key saves or deletes, and how the two grid switches agree.
use vstd::prelude::*;

verus! {

/// What the application is asked to do.
#[derive(Debug, Clone, Copy, PartialEq, Eq, Structural)]
pub enum AppMessage {
    Exit,
    NewDocument,
    Open,
    Save,
    SaveAs,
    AddText,
    AddRectangle,
    AddBanner,
    AddVector,
}

/// The message of the "File" tab after a release: the last of the buttons
/// "New Document", "Open", "Save", "Save As", "Exit Application" that
/// reports a click.
pub fn file_page_message(new_doc: bool, open: bool, save: bool, save_as: bool, exit: bool) -> (m:
    Option<AppMessage>)
    ensures
        m == if exit {
            Some(AppMessage::Exit)
        } else if save_as {
            Some(AppMessage::SaveAs)
        } else if save {
            Some(AppMessage::Save)
        } else if open {
            Some(AppMessage::Open)
        } else if new_doc {
            Some(AppMessage::NewDocument)
        } else {
            None
        },
{
    let mut m = None;
    if new_doc {
        m = Some(AppMessage::NewDocument);
    }
    if open {
        m = Some(AppMessage::Open);
    }
    if save {
        m = Some(AppMessage::Save);
    }
    if save_as {
        m = Some(AppMessage::SaveAs);
    }
    if exit {
        m = Some(AppMessage::Exit);
    }
    m
}

/// The message of the "Canvas" tab after a release: the last of the
/// buttons "Text Box", "Rectangle", "Banner", "Line" that reports a click.
pub fn add_page_message(text: bool, rect: bool, banner: bool, line: bool) -> (m: Option<
    AppMessage,
>)
    ensures
        m == if line {
            Some(AppMessage::AddVector)
        } else if banner {
            Some(AppMessage::AddBanner)
        } else if rect {
            Some(AppMessage::AddRectangle)
        } else if text {
            Some(AppMessage::AddText)
        } else {
            None
        },
{
    let mut m = None;
    if text {
        m = Some(AppMessage::AddText);
    }
    if rect {
        m = Some(AppMessage::AddRectangle);
    }
    if banner {
        m = Some(AppMessage::AddBanner);
    }
    if line {
        m = Some(AppMessage::AddVector);
    }
    m
}

/// The control character that some keyboards deliver for Ctrl+S.
pub open spec fn ctrl_s_char() -> Seq<char> {
    seq!['\u{13}']
}

/// The default save chord.
pub open spec fn default_save_chord() -> Seq<char> {
    "ctrl+s"@
}

/// The key arrived as the raw Ctrl+S control character.
pub open spec fn is_ctrl_s(key_text: Option<&str>) -> bool {
    match key_text {
        Some(t) => t@ == ctrl_s_char(),
        None => false,
    }
}

fn str_equal(a: &str, b: &str) -> (r: bool)
    ensures
        r == (a@ == b@),
{
    String::from_str(a) == String::from_str(b)
}

/// Whether a key press asks to save: it matches the save shortcut, or the
/// shortcut is the default Ctrl+S and the key arrives, with Ctrl held, as
/// the raw control character.
pub fn save_requested(
    pressed: bool,
    matches_shortcut: bool,
    save_chord: &str,
    ctrl: bool,
    key_text: Option<&str>,
) -> (r: bool)
    ensures
        r == (pressed && (matches_shortcut || (save_chord@ == default_save_chord() && ctrl
            && is_ctrl_s(key_text)))),
{
    if !pressed {
        return false;
    }
    if matches_shortcut {
        return true;
    }
    let is_default = str_equal(save_chord, "ctrl+s");
    proof {
        reveal_strlit("ctrl+s");
    }
    if !is_default || !ctrl {
        return false;
    }
    match key_text {
        Some(t) => {
            let c = str_equal(t, "\u{13}");
            proof {
                reveal_strlit("\u{13}");
            }
            assert("\u{13}"@ =~= ctrl_s_char());
            c
        },
        None => false,
    }
}

/// Whether a key press deletes the selected element: a press of the
/// delete shortcut that nothing else took, outside word processor mode.
pub fn delete_requested(handled: bool, word_processor: bool, pressed: bool, matches_delete: bool) -> (r:
    bool)
    ensures
        r == (!handled && !word_processor && pressed && matches_delete),
{
    !handled && !word_processor && pressed && matches_delete
}

/// Whether the grid is on, after either of its switches (the grid toggle
/// and the snapping toggle) may have been flipped: a switch that differs
/// from the current state wins, the grid toggle first.
pub open spec fn grid_after_sync(enabled: bool, grid_toggle: bool, snap_toggle: bool) -> bool {
    if grid_toggle != enabled {
        grid_toggle
    } else if snap_toggle != enabled {
        snap_toggle
    } else {
        enabled
    }
}

/// The grid state after its switches were read; the caller then sets both
/// switches to it.
pub fn sync_grid_enabled(enabled: bool, grid_toggle: bool, snap_toggle: bool) -> (r: bool)
    ensures
        r == grid_after_sync(enabled, grid_toggle, snap_toggle),
{
    if grid_toggle != enabled {
        grid_toggle
    } else if snap_toggle != enabled {
        snap_toggle
    } else {
        enabled
    }
}

/// When both switches agree, the grid follows them; once both switches
/// are set to the result, syncing again changes nothing.
pub proof fn lemma_grid_switches_agree(enabled: bool, grid_toggle: bool, snap_toggle: bool)
    ensures
        grid_toggle == snap_toggle ==> grid_after_sync(enabled, grid_toggle, snap_toggle)
            == grid_toggle,
        ({
            let r = grid_after_sync(enabled, grid_toggle, snap_toggle);
            grid_after_sync(r, r, r) == r
        }),
{
}

} // verus!
