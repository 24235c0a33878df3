//! A single-line text input: a buffer, a cursor in it, and a prompt that is
//! shown in front.
use super::{Action, ActionView, Event, HandleAction, KeyCode};
use crate::text::push_char;
use vstd::prelude::*;

verus! {

/// The state of a [`TextInput`].
pub struct InputModel {
    pub prompt: Seq<char>,
    /// The text entered so far.
    pub value: Seq<char>,
    /// The cursor: the number of characters of `value` in front of it.
    pub cursor: nat,
}

impl InputModel {
    /// The invariant: the cursor is inside the text or right behind it.
    pub open spec fn wf(self) -> bool {
        self.cursor <= self.value.len()
    }

    /// An empty input.
    pub open spec fn empty(prompt: Seq<char>) -> InputModel {
        InputModel { prompt, value: Seq::empty(), cursor: 0 }
    }

    /// The input holding `value`, the cursor behind it.
    pub open spec fn with_value(self, value: Seq<char>) -> InputModel {
        InputModel { value, cursor: value.len(), ..self }
    }

    /// `c` entered at the cursor, the cursor moved behind it.
    pub open spec fn insert(self, c: char) -> InputModel {
        InputModel {
            value: self.value.insert(self.cursor as int, c),
            cursor: self.cursor + 1,
            ..self
        }
    }

    /// The character in front of the cursor taken out. Nothing changes with
    /// the cursor at the start.
    pub open spec fn delete_before(self) -> InputModel {
        if self.cursor == 0 {
            self
        } else {
            InputModel {
                value: self.value.remove(self.cursor - 1),
                cursor: (self.cursor - 1) as nat,
                ..self
            }
        }
    }

    /// The cursor moved by a key: one character left or right, to the start
    /// or to the end, never outside the text.
    pub open spec fn move_cursor(self, key: KeyCode) -> InputModel {
        match key {
            KeyCode::Left => InputModel {
                cursor: if self.cursor > 0 {
                    (self.cursor - 1) as nat
                } else {
                    0
                },
                ..self
            },
            KeyCode::Right => InputModel {
                cursor: if self.cursor < self.value.len() {
                    self.cursor + 1
                } else {
                    self.cursor
                },
                ..self
            },
            KeyCode::Home => InputModel { cursor: 0, ..self },
            KeyCode::End => InputModel { cursor: self.value.len(), ..self },
            _ => self,
        }
    }

    /// The input's reaction to one input event. An edit answers with the
    /// new text as a live result; `Enter` confirms with the text as the
    /// final result; `Esc` cancels; `Up` and `Down` are handed back to the
    /// owner.
    pub open spec fn handle(self, event: Event) -> (InputModel, ActionView) {
        match event {
            Event::Key(KeyCode::Char(c)) => (
                self.insert(c),
                ActionView::PartialReturn(self.insert(c).value),
            ),
            Event::Key(KeyCode::Backspace) => if self.cursor == 0 {
                (self, ActionView::Noop)
            } else {
                (self.delete_before(), ActionView::PartialReturn(self.delete_before().value))
            },
            Event::Key(KeyCode::Enter) => (self, ActionView::Return(self.value)),
            Event::Key(KeyCode::Esc) => (self, ActionView::Exit),
            Event::Key(KeyCode::Up) => (self, ActionView::ReturnWithKey(KeyCode::Up)),
            Event::Key(KeyCode::Down) => (self, ActionView::ReturnWithKey(KeyCode::Down)),
            Event::Key(key) => (self.move_cursor(key), ActionView::Noop),
            Event::Other => (self, ActionView::Noop),
        }
    }
}

/// Every event leaves the input in a state that satisfies the invariant.
pub proof fn lemma_input_handle_keeps_wf(m: InputModel, event: Event)
    requires
        m.wf(),
    ensures
        m.handle(event).0.wf(),
{
}

/// A single-line text input.
#[derive(Debug)]
pub struct TextInput {
    prompt: String,
    value: String,
    cursor: usize,
}

impl View for TextInput {
    type V = InputModel;

    closed spec fn view(&self) -> InputModel {
        InputModel { prompt: self.prompt@, value: self.value@, cursor: self.cursor as nat }
    }
}

impl TextInput {
    /// An empty input with the given prompt.
    pub fn new(prompt: String) -> (r: TextInput)
        ensures
            r@ == InputModel::empty(prompt@),
            r.wf(),
    {
        TextInput { prompt, value: String::new(), cursor: 0 }
    }

    /// The text entered so far.
    pub fn get_value(&self) -> (r: String)
        ensures
            r@ == self@.value,
    {
        self.value.clone()
    }

    /// Replaces the text and puts the cursor behind it.
    pub fn set_value(&mut self, value: String)
        ensures
            final(self)@ == old(self)@.with_value(value@),
            final(self).wf(),
    {
        self.cursor = value.as_str().unicode_len();
        self.value = value;
    }

    /// The prompt.
    pub fn get_prompt(&self) -> (r: &String)
        ensures
            r@ == self@.prompt,
    {
        &self.prompt
    }

    /// The offset of the cursor in the line that is shown, counted in
    /// characters from the start of the prompt. The largest `usize` stands
    /// for any offset beyond it.
    pub fn get_cursor_position(&self) -> (r: usize)
        ensures
            r == (if self@.prompt.len() + self@.cursor <= usize::MAX {
                self@.prompt.len() + self@.cursor
            } else {
                usize::MAX as nat
            }),
    {
        let lead = self.prompt.as_str().unicode_len();
        if self.cursor <= usize::MAX - lead {
            lead + self.cursor
        } else {
            usize::MAX
        }
    }

    fn insert_char(&mut self, c: char)
        requires
            old(self).wf(),
        ensures
            final(self).wf(),
            final(self)@ == old(self)@.insert(c),
    {
        let text = self.value.as_str();
        let len = text.unicode_len();
        let mut value = text.substring_char(0, self.cursor).to_owned();
        push_char(&mut value, c);
        value.append(text.substring_char(self.cursor, len));
        assert(value@ =~= old(self)@.value.insert(self.cursor as int, c));
        // The new text is one character longer and its length is a `usize`,
        // so the cursor has room to advance.
        let grown = value.as_str().unicode_len();
        assert(self.cursor < grown);
        self.value = value;
        self.cursor = self.cursor + 1;
    }

    fn delete_char(&mut self)
        requires
            old(self).wf(),
            old(self)@.cursor > 0,
        ensures
            final(self).wf(),
            final(self)@ == old(self)@.delete_before(),
    {
        let text = self.value.as_str();
        let len = text.unicode_len();
        let mut value = text.substring_char(0, self.cursor - 1).to_owned();
        value.append(text.substring_char(self.cursor, len));
        assert(value@ =~= old(self)@.value.remove(self.cursor - 1));
        self.value = value;
        self.cursor = self.cursor - 1;
    }
}

impl Default for TextInput {
    /// An empty input without a prompt.
    fn default() -> (r: TextInput)
        ensures
            r@ == InputModel::empty(Seq::empty()),
            r.wf(),
    {
        TextInput::new(String::new())
    }
}

impl HandleAction for TextInput {
    open spec fn wf(&self) -> bool {
        self@.wf()
    }

    fn handle_action(&mut self, action: Event) -> (r: Action)
        ensures
            (final(self)@, r@) == old(self)@.handle(action),
    {
        match action {
            Event::Key(key) => match key {
                KeyCode::Char(c) => {
                    self.insert_char(c);
                    Action::PartialReturn(self.value.clone())
                },
                KeyCode::Backspace => {
                    if self.cursor == 0 {
                        Action::Noop
                    } else {
                        self.delete_char();
                        Action::PartialReturn(self.value.clone())
                    }
                },
                KeyCode::Enter => Action::Return(self.value.clone()),
                KeyCode::Esc => Action::Exit,
                KeyCode::Up => Action::ReturnWithKey(KeyCode::Up),
                KeyCode::Down => Action::ReturnWithKey(KeyCode::Down),
                KeyCode::Left => {
                    if self.cursor > 0 {
                        self.cursor = self.cursor - 1;
                    }
                    Action::Noop
                },
                KeyCode::Right => {
                    if self.cursor < self.value.as_str().unicode_len() {
                        self.cursor = self.cursor + 1;
                    }
                    Action::Noop
                },
                KeyCode::Home => {
                    self.cursor = 0;
                    Action::Noop
                },
                KeyCode::End => {
                    self.cursor = self.value.as_str().unicode_len();
                    Action::Noop
                },
                KeyCode::Other => Action::Noop,
            },
            Event::Other => Action::Noop,
        }
    }
}

} // verus!
