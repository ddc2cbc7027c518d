//! The key dispatcher: maps one key event to a change of the session state,
//! or to a directory to open a session for.
use crate::state::App;
use crate::text::opt_string_view;
use vstd::prelude::*;

verus! {

/// A key, as the dispatcher distinguishes them.
#[derive(PartialEq, Eq, Structural, Debug, Clone, Copy)]
pub enum KeyCode {
    Up,
    Down,
    Enter,
    Backspace,
    Esc,
    Char(char),
    /// Any key the dispatcher ignores.
    Other,
}

/// A key with whether Ctrl was held.
#[derive(PartialEq, Eq, Structural, Debug, Clone, Copy)]
pub struct KeyEvent {
    pub code: KeyCode,
    pub ctrl: bool,
}

/// The query after `key` edits it: a character is appended, backspace
/// removes the last one (if any), other keys leave it.
pub open spec fn edited_query(query: Seq<char>, key: KeyCode) -> Seq<char> {
    match key {
        KeyCode::Char(c) => query.push(c),
        KeyCode::Backspace => if query.len() > 0 {
            query.drop_last()
        } else {
            query
        },
        _ => query,
    }
}

/// Up, or Ctrl+P.
pub open spec fn moves_up(key: KeyEvent) -> bool {
    key.code is Up || (key.ctrl && key.code == KeyCode::Char('p'))
}

/// Down, or Ctrl+N.
pub open spec fn moves_down(key: KeyEvent) -> bool {
    key.code is Down || (key.ctrl && key.code == KeyCode::Char('n'))
}

/// Esc, Ctrl+C or Ctrl+Z.
pub open spec fn quits(key: KeyEvent) -> bool {
    key.code is Esc || (key.ctrl && (key.code == KeyCode::Char('c') || key.code
        == KeyCode::Char('z')))
}

/// A printable character without Ctrl, or Backspace.
pub open spec fn edits(key: KeyEvent) -> bool {
    (key.code is Char && !key.ctrl) || key.code is Backspace
}

/// Handles one key event. Returns the directory to open a session for when
/// Enter confirms a selection; termination is then requested too.
pub fn handle_input(app: &mut App, key: KeyEvent) -> (launch: Option<String>)
    ensures
        moves_up(key) ==> *final(app) == old(app).with_cursor(old(app).prev_index())
            && launch is None,
        moves_down(key) ==> *final(app) == old(app).with_cursor(old(app).next_index())
            && launch is None,
        quits(key) ==> *final(app) == old(app).closing() && launch is None,
        key.code is Enter ==> match old(app).current_entry() {
            Some(dir) => *final(app) == old(app).closing() && opt_string_view(launch) == Some(dir),
            None => *final(app) == *old(app) && launch is None,
        },
        edits(key) ==> final(app).requeried(*old(app), edited_query(old(app).input@, key.code))
            && launch is None,
        !(moves_up(key) || moves_down(key) || quits(key) || key.code is Enter || edits(key))
            ==> *final(app) == *old(app) && launch is None,
        old(app).wf() ==> final(app).wf(),
{
    match key.code {
        KeyCode::Up => {
            app.select_prev_item();
            None
        },
        KeyCode::Down => {
            app.select_next_item();
            None
        },
        KeyCode::Enter => {
            let selected = app.current();
            if selected.is_some() {
                app.request_close();
            }
            selected
        },
        KeyCode::Esc => {
            app.request_close();
            None
        },
        KeyCode::Backspace => {
            app.add_input_char(KeyCode::Backspace);
            None
        },
        KeyCode::Char(c) => {
            if key.ctrl {
                if c == 'c' || c == 'z' {
                    app.request_close();
                } else if c == 'p' {
                    app.select_prev_item();
                } else if c == 'n' {
                    app.select_next_item();
                }
            } else {
                app.add_input_char(KeyCode::Char(c));
            }
            None
        },
        KeyCode::Other => None,
    }
}

} // verus!
