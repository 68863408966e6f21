//! The event router: one input key in, one state change and at most one
//! action out.
//!
//! The router is total: every key is handled in every mode, if only as a
//! no-op, and the mode after a key is exactly what `mode_after` says. It
//! performs no outward effect itself; opening a book and scanning a folder
//! come back to the caller as `AppAction` values.

use crate::state::AppAction;
use crate::state::TuiState;
use crate::state::UiMode;
use crate::state::ascend_step;
use crate::state::cursor_down;
use crate::state::cursor_up;
use crate::state::descend_step;
use crate::state::entries_ok;
use vstd::prelude::*;

verus! {

/// One discrete input event, already decoded from whatever input backend
/// the embedding program uses.
#[derive(PartialEq, Eq, Clone, Copy, Debug)]
pub enum Key {
    Up,
    Down,
    Left,
    Right,
    Enter,
    Esc,
    /// A printable character.
    Char(char),
    /// Any other key; always a no-op.
    Other,
}

/// The mode the router leaves the state in. Only three keys ever change
/// mode: the add-folder key leaves the catalogue view for the popup, and
/// confirm or cancel leave the popup for the catalogue view; every other
/// key keeps the mode it found.
pub open spec fn mode_after(mode: UiMode, key: Key) -> UiMode {
    match mode {
        UiMode::Normal => if key == Key::Char('a') {
            UiMode::AddingFolder
        } else {
            UiMode::Normal
        },
        UiMode::AddingFolder => if key == Key::Enter || key == Key::Esc {
            UiMode::Normal
        } else {
            UiMode::AddingFolder
        },
    }
}

/// The transition table of the catalogue view: quit on the quit key, move
/// the selection on up and down, ask to open the selected book on confirm,
/// open the add-folder popup (with a fresh listing) on its key, and ignore
/// everything else.
pub open spec fn normal_step(
    pre: TuiState,
    post: TuiState,
    key: Key,
    action: Option<AppAction>,
) -> bool {
    &&& post.books == pre.books
    &&& post.scan_paths == pre.scan_paths
    &&& post.should_quit == (pre.should_quit || key == Key::Char('q'))
    &&& post.mode == (if key == Key::Char('a') {
        UiMode::AddingFolder
    } else {
        pre.mode
    })
    &&& (key == Key::Char('q') ==> post.selected_index == pre.selected_index && post.browser
        == pre.browser)
    &&& (key == Key::Up ==> post.browser == pre.browser && cursor_up(
        pre.selected_index,
        post.selected_index,
    ))
    &&& (key == Key::Down ==> post.browser == pre.browser && cursor_down(
        pre.selected_index,
        post.selected_index,
        pre.books@.len() as int,
    ))
    &&& (key == Key::Char('a') ==> post.selected_index == pre.selected_index
        && post.browser.current_path == pre.browser.current_path && post.browser.selected_index
        == 0 && entries_ok(post.browser.entries@) && post.browser.wf())
    &&& (!(key == Key::Up || key == Key::Down || key == Key::Char('q') || key == Key::Char('a'))
        ==> post == pre)
    &&& action == (if key == Key::Enter && pre.selected_index < pre.books@.len() {
        Some(AppAction::OpenBook(pre.books@[pre.selected_index as int].path))
    } else {
        None
    })
}

/// The transition table of the add-folder popup: move the cursor on up and
/// down, descend or ascend on the navigation keys, confirm the current
/// directory (asking for a scan) on confirm, cancel on the cancel key, and
/// ignore everything else. The catalogue and its selection are never
/// touched from the popup.
pub open spec fn adding_folder_step(
    pre: TuiState,
    post: TuiState,
    key: Key,
    action: Option<AppAction>,
) -> bool {
    &&& post.books == pre.books
    &&& post.scan_paths == pre.scan_paths
    &&& post.should_quit == pre.should_quit
    &&& post.selected_index == pre.selected_index
    &&& post.mode == (if key == Key::Enter || key == Key::Esc {
        UiMode::Normal
    } else {
        pre.mode
    })
    &&& (key == Key::Up ==> post.browser.current_path == pre.browser.current_path
        && post.browser.entries == pre.browser.entries && cursor_up(
        pre.browser.selected_index,
        post.browser.selected_index,
    ))
    &&& (key == Key::Down ==> post.browser.current_path == pre.browser.current_path
        && post.browser.entries == pre.browser.entries && cursor_down(
        pre.browser.selected_index,
        post.browser.selected_index,
        pre.browser.entries@.len() as int,
    ))
    &&& (key == Key::Enter || key == Key::Esc ==> post.browser == pre.browser)
    &&& (key == Key::Right || key == Key::Char('l') ==> descend_step(pre.browser, post.browser))
    &&& (key == Key::Left || key == Key::Char('h') ==> ascend_step(pre.browser, post.browser))
    &&& (!(key == Key::Up || key == Key::Down || key == Key::Enter || key == Key::Esc || key
        == Key::Right || key == Key::Char('l') || key == Key::Left || key == Key::Char('h'))
        ==> post == pre)
    &&& action == (if key == Key::Enter {
        Some(AppAction::AddFolder(pre.browser.current_path))
    } else {
        None
    })
}

fn handle_normal_mode(key: Key, state: &mut TuiState) -> (action: Option<AppAction>)
    ensures
        normal_step(*old(state), *final(state), key, action),
        old(state).wf() ==> final(state).wf(),
{
    match key {
        Key::Char(c) => {
            if c == 'q' {
                state.should_quit = true;
                None
            } else if c == 'a' {
                state.mode = UiMode::AddingFolder;
                state.browser.load_entries();
                None
            } else {
                None
            }
        },
        Key::Up => {
            state.move_selection_up();
            None
        },
        Key::Down => {
            state.move_selection_down();
            None
        },
        Key::Enter => {
            match state.selected_book() {
                Some(book) => Some(AppAction::OpenBook(book.path.clone())),
                None => None,
            }
        },
        _ => None,
    }
}

fn handle_adding_folder_mode(key: Key, state: &mut TuiState) -> (action: Option<AppAction>)
    ensures
        adding_folder_step(*old(state), *final(state), key, action),
        old(state).wf() ==> final(state).wf(),
{
    match key {
        Key::Up => {
            state.browser.move_up();
            None
        },
        Key::Down => {
            state.browser.move_down();
            None
        },
        Key::Enter => {
            let path = state.browser.current_path.clone();
            state.mode = UiMode::Normal;
            Some(AppAction::AddFolder(path))
        },
        Key::Right => {
            state.browser.enter_selected();
            None
        },
        Key::Left => {
            state.browser.go_up();
            None
        },
        Key::Esc => {
            state.mode = UiMode::Normal;
            None
        },
        Key::Char(c) => {
            if c == 'l' {
                state.browser.enter_selected();
                None
            } else if c == 'h' {
                state.browser.go_up();
                None
            } else {
                None
            }
        },
        _ => None,
    }
}

/// Routes one input key by the current mode. Total over keys and modes:
/// the resulting mode is exactly `mode_after`, the state changes exactly
/// as the active mode's transition table says, and the returned action is
/// the one that table names, if any.
pub fn handle_key_event(key: Key, state: &mut TuiState) -> (action: Option<AppAction>)
    ensures
        final(state).mode == mode_after(old(state).mode, key),
        old(state).mode == UiMode::Normal ==> normal_step(*old(state), *final(state), key, action),
        old(state).mode == UiMode::AddingFolder ==> adding_folder_step(
            *old(state),
            *final(state),
            key,
            action,
        ),
        old(state).wf() ==> final(state).wf(),
{
    match state.mode {
        UiMode::Normal => handle_normal_mode(key, state),
        UiMode::AddingFolder => handle_adding_folder_mode(key, state),
    }
}

} // verus!
