//! What each key does, in insert mode and in normal mode.

use crate::action::{ActionView, BufferAction, Command, RenderAction};
use crate::buffer::EditMode;
use crate::utils::{Movement, Selection};
use vstd::prelude::*;

verus! {

/// A key of the keyboard, as far as the editor tells keys apart.
#[derive(Clone, Copy, Debug, PartialEq, Eq, Structural)]
pub enum Key {
    Esc,
    Char(char),
    Tab,
    Enter,
    Up,
    Down,
    Left,
    Right,
    Home,
    End,
    PageUp,
    PageDown,
    Backspace,
    Delete,
    /// Any other key.
    Other,
}

/// The lines that `PageUp` and `PageDown` move by.
pub const PAGE: usize = 25;

/// `String::from` of a character: the string of that one character.
#[verifier::external_body]
fn string_of(c: char) -> (s: String)
    ensures
        s@ == seq![c],
{
    String::from(c)
}

/// What the keys that move the cursor do, in either mode.
pub open spec fn movement_of(key: Key) -> Option<Movement> {
    match key {
        Key::Up => Some(Movement::Up(1)),
        Key::Down => Some(Movement::Down(1)),
        Key::Left => Some(Movement::Left(1)),
        Key::Right => Some(Movement::Right(1)),
        Key::Home => Some(Movement::Home),
        Key::End => Some(Movement::End),
        Key::PageUp => Some(Movement::Up(PAGE)),
        Key::PageDown => Some(Movement::Down(PAGE)),
        _ => None,
    }
}

/// What a key does in insert mode: a key that moves the cursor moves it;
/// `Esc` leaves the mode; a character, `Tab` and `Enter` are inserted;
/// `Backspace` and `Delete` delete the character before and after the cursor.
/// Other keys do nothing.
pub open spec fn insert_binding(key: Key) -> Option<ActionView> {
    match key {
        Key::Esc => Some(ActionView::SetMode(EditMode::Normal)),
        Key::Char(c) => Some(ActionView::Insert(seq![c])),
        Key::Tab => Some(ActionView::Insert(seq!['\t'])),
        Key::Enter => Some(ActionView::Insert(seq!['\n'])),
        Key::Backspace => Some(ActionView::Delete(Selection::UpTo(Movement::Left(1)))),
        Key::Delete => Some(ActionView::Delete(Selection::UpTo(Movement::Right(1)))),
        _ => match movement_of(key) {
            Some(m) => Some(ActionView::Move(m)),
            None => None,
        },
    }
}

/// What a key does in normal mode: a key that moves the cursor moves it; `i`
/// enters insert mode; `d` deletes the cursor's line; `u` undoes and `U`
/// redoes; `Delete` deletes the character after the cursor. Other keys do
/// nothing.
pub open spec fn normal_binding(key: Key) -> Option<ActionView> {
    match key {
        Key::Char(c) => if c == 'i' {
            Some(ActionView::SetMode(EditMode::Insert))
        } else if c == 'd' {
            Some(ActionView::Delete(Selection::Lines(1)))
        } else if c == 'u' {
            Some(ActionView::Undo)
        } else if c == 'U' {
            Some(ActionView::Redo)
        } else {
            None
        },
        Key::Delete => Some(ActionView::Delete(Selection::UpTo(Movement::Right(1)))),
        _ => match movement_of(key) {
            Some(m) => Some(ActionView::Move(m)),
            None => None,
        },
    }
}

/// The action of a key that moves the cursor.
fn movement_key(key: Key) -> (m: Option<Movement>)
    ensures
        m == movement_of(key),
{
    match key {
        Key::Up => Some(Movement::Up(1)),
        Key::Down => Some(Movement::Down(1)),
        Key::Left => Some(Movement::Left(1)),
        Key::Right => Some(Movement::Right(1)),
        Key::Home => Some(Movement::Home),
        Key::End => Some(Movement::End),
        Key::PageUp => Some(Movement::Up(PAGE)),
        Key::PageDown => Some(Movement::Down(PAGE)),
        _ => None,
    }
}

pub struct InputHandler;

impl InputHandler {
    /// The command of a key in insert mode, if the key has one. After every
    /// command all is drawn again.
    pub fn parse_insert(key: Key) -> (command: Option<Command>)
        ensures
            match command {
                Some(c) => insert_binding(key) == Some(c.buffer_action@) && c.render_action
                    == RenderAction::DrawAll,
                None => insert_binding(key) is None,
            },
    {
        let action = match key {
            Key::Esc => BufferAction::SetMode(EditMode::Normal),
            Key::Char(c) => BufferAction::Insert(string_of(c)),
            Key::Tab => BufferAction::Insert(string_of('\t')),
            Key::Enter => BufferAction::Insert(string_of('\n')),
            Key::Backspace => BufferAction::Delete(Selection::UpTo(Movement::Left(1))),
            Key::Delete => BufferAction::Delete(Selection::UpTo(Movement::Right(1))),
            _ => match movement_key(key) {
                Some(m) => BufferAction::Move(m),
                None => {
                    return None;
                },
            },
        };
        Some(Command::new(action, RenderAction::DrawAll))
    }

    /// The command of a key in normal mode, if the key has one. After every
    /// command all is drawn again.
    pub fn parse_normal(key: Key) -> (command: Option<Command>)
        ensures
            match command {
                Some(c) => normal_binding(key) == Some(c.buffer_action@) && c.render_action
                    == RenderAction::DrawAll,
                None => normal_binding(key) is None,
            },
    {
        let action = match key {
            Key::Char('i') => BufferAction::SetMode(EditMode::Insert),
            Key::Char('d') => BufferAction::Delete(Selection::Lines(1)),
            Key::Char('u') => BufferAction::Undo,
            Key::Char('U') => BufferAction::Redo,
            Key::Char(_) => {
                return None;
            },
            Key::Delete => BufferAction::Delete(Selection::UpTo(Movement::Right(1))),
            _ => match movement_key(key) {
                Some(m) => BufferAction::Move(m),
                None => {
                    return None;
                },
            },
        };
        Some(Command::new(action, RenderAction::DrawAll))
    }
}

} // verus!
