//! A line of text typed in the editor: keys append characters or take the last
//! one back, and escape or enter end the typing.
use vstd::prelude::*;

verus! {

/// A key of the keyboard, as far as typing text goes: a digit or a letter by its
/// index (`0` to `9`, `0` for `a` to `25` for `z`), the punctuation keys that
/// type, and the keys that edit or end the text.
#[derive(Clone, Copy, Debug, PartialEq, Eq, Structural)]
pub enum Key {
    Digit(u8),
    Letter(u8),
    Minus,
    Equals,
    Apostrophe,
    Semicolon,
    Grave,
    Comma,
    Period,
    Space,
    Backspace,
    Delete,
    Escape,
    Enter,
    Other,
}

/// What a key does to the text.
#[derive(Clone, Copy, Debug, PartialEq, Eq, Structural)]
pub enum TextAction {
    Append(char),
    Pop,
}

pub open spec fn digit_char(d: int) -> char {
    seq!['0', '1', '2', '3', '4', '5', '6', '7', '8', '9'][d]
}

pub open spec fn lower_char(l: int) -> char {
    seq![
        'a', 'b', 'c', 'd', 'e', 'f', 'g', 'h', 'i', 'j', 'k', 'l', 'm',
        'n', 'o', 'p', 'q', 'r', 's', 't', 'u', 'v', 'w', 'x', 'y', 'z',
    ][l]
}

pub open spec fn upper_char(l: int) -> char {
    seq![
        'A', 'B', 'C', 'D', 'E', 'F', 'G', 'H', 'I', 'J', 'K', 'L', 'M',
        'N', 'O', 'P', 'Q', 'R', 'S', 'T', 'U', 'V', 'W', 'X', 'Y', 'Z',
    ][l]
}

/// What `key` does, with shift held or not: digits, letters (capital with shift)
/// and punctuation (its shifted sign with shift, where it has one) append their
/// character, backspace and delete take the last one back.
pub open spec fn spec_key_action(key: Key, shift: bool) -> Option<TextAction> {
    match key {
        Key::Digit(d) => if d < 10 { Some(TextAction::Append(digit_char(d as int))) } else { None },
        Key::Letter(l) => if l < 26 {
            Some(TextAction::Append(if shift { upper_char(l as int) } else { lower_char(l as int) }))
        } else {
            None
        },
        Key::Minus => Some(TextAction::Append(if shift { '_' } else { '-' })),
        Key::Equals => Some(TextAction::Append(if shift { '+' } else { '=' })),
        Key::Apostrophe => Some(TextAction::Append(if shift { '"' } else { '\'' })),
        Key::Semicolon => Some(TextAction::Append(if shift { ':' } else { ';' })),
        Key::Grave => Some(TextAction::Append(if shift { '~' } else { '`' })),
        Key::Comma => Some(TextAction::Append(',')),
        Key::Period => Some(TextAction::Append('.')),
        Key::Space => Some(TextAction::Append(' ')),
        Key::Backspace => Some(TextAction::Pop),
        Key::Delete => Some(TextAction::Pop),
        _ => None,
    }
}

pub fn key_to_text_action(key: Key, shift: bool) -> (a: Option<TextAction>)
    ensures
        a == spec_key_action(key, shift),
{
    match key {
        Key::Digit(d) => {
            let digits: Vec<char> = vec!['0', '1', '2', '3', '4', '5', '6', '7', '8', '9'];
            if d < 10 {
                assert(digits@ == seq!['0', '1', '2', '3', '4', '5', '6', '7', '8', '9']);
                Some(TextAction::Append(digits[d as usize]))
            } else {
                None
            }
        },
        Key::Letter(l) => {
            let lower: Vec<char> = vec![
                'a', 'b', 'c', 'd', 'e', 'f', 'g', 'h', 'i', 'j', 'k', 'l', 'm',
                'n', 'o', 'p', 'q', 'r', 's', 't', 'u', 'v', 'w', 'x', 'y', 'z',
            ];
            let upper: Vec<char> = vec![
                'A', 'B', 'C', 'D', 'E', 'F', 'G', 'H', 'I', 'J', 'K', 'L', 'M',
                'N', 'O', 'P', 'Q', 'R', 'S', 'T', 'U', 'V', 'W', 'X', 'Y', 'Z',
            ];
            if l < 26 {
                assert(lower@ == seq![
                    'a', 'b', 'c', 'd', 'e', 'f', 'g', 'h', 'i', 'j', 'k', 'l', 'm',
                    'n', 'o', 'p', 'q', 'r', 's', 't', 'u', 'v', 'w', 'x', 'y', 'z',
                ]);
                assert(upper@ == seq![
                    'A', 'B', 'C', 'D', 'E', 'F', 'G', 'H', 'I', 'J', 'K', 'L', 'M',
                    'N', 'O', 'P', 'Q', 'R', 'S', 'T', 'U', 'V', 'W', 'X', 'Y', 'Z',
                ]);
                Some(TextAction::Append(if shift { upper[l as usize] } else { lower[l as usize] }))
            } else {
                None
            }
        },
        Key::Minus => Some(TextAction::Append(if shift { '_' } else { '-' })),
        Key::Equals => Some(TextAction::Append(if shift { '+' } else { '=' })),
        Key::Apostrophe => Some(TextAction::Append(if shift { '"' } else { '\'' })),
        Key::Semicolon => Some(TextAction::Append(if shift { ':' } else { ';' })),
        Key::Grave => Some(TextAction::Append(if shift { '~' } else { '`' })),
        Key::Comma => Some(TextAction::Append(',')),
        Key::Period => Some(TextAction::Append('.')),
        Key::Space => Some(TextAction::Append(' ')),
        Key::Backspace => Some(TextAction::Pop),
        Key::Delete => Some(TextAction::Pop),
        _ => None,
    }
}

/// `String::push`: appends `c` to the end of the text.
#[verifier::external_body]
fn push_char(s: &mut String, c: char)
    ensures
        final(s)@ == old(s)@.push(c),
{
    s.push(c);
}

/// `String::pop`: removes the last character and returns it, or returns
/// nothing from an empty text.
#[verifier::external_body]
fn pop_char(s: &mut String) -> (r: Option<char>)
    ensures
        old(s)@.len() == 0 ==> r is None && final(s)@ == old(s)@,
        old(s)@.len() > 0 ==> r == Some(old(s)@.last()) && final(s)@ == old(s)@.drop_last(),
{
    s.pop()
}

/// A line of text being typed, and whether it has the focus.
#[derive(Debug)]
pub struct TextInput {
    pub text: String,
    pub is_focused: bool,
}

/// The text after `action`.
pub open spec fn performed(text: Seq<char>, action: TextAction) -> Seq<char> {
    match action {
        TextAction::Append(c) => text.push(c),
        TextAction::Pop => if text.len() == 0 { text } else { text.drop_last() },
    }
}

impl TextInput {
    pub fn new(text: String) -> (t: TextInput)
        ensures
            t.text == text,
            !t.is_focused,
    {
        TextInput { text, is_focused: false }
    }

    pub fn is_focused(&self) -> (b: bool)
        ensures
            b == self.is_focused,
    {
        self.is_focused
    }

    pub fn get_text(&self) -> (t: &String)
        ensures
            t == self.text,
    {
        &self.text
    }

    /// Appends a character or takes the last one back.
    pub fn perform(&mut self, action: TextAction)
        ensures
            final(self).text@ == performed(old(self).text@, action),
            final(self).is_focused == old(self).is_focused,
    {
        match action {
            TextAction::Append(c) => push_char(&mut self.text, c),
            TextAction::Pop => {
                pop_char(&mut self.text);
            },
        }
    }

    /// A key went down (with shift held or not): escape and enter end the typing,
    /// and the key's action, if any, edits the text.
    pub fn key_down(&mut self, key: Key, shift: bool)
        ensures
            final(self).is_focused == (old(self).is_focused && key != Key::Escape && key != Key::Enter),
            final(self).text@ == match spec_key_action(key, shift) {
                Some(a) => performed(old(self).text@, a),
                None => old(self).text@,
            },
    {
        if key == Key::Escape || key == Key::Enter {
            self.is_focused = false;
        }
        match key_to_text_action(key, shift) {
            Some(action) => self.perform(action),
            None => {},
        }
    }

    /// A click on the text gives it the focus.
    pub fn mouse_down(&mut self)
        ensures
            final(self).is_focused,
            final(self).text == old(self).text,
    {
        self.is_focused = true;
    }
}

} // verus!
