//! The query edit buffer and its text cursor.

use vstd::prelude::*;
use crate::text::{chars_of, string_of};

verus! {

/// An edit buffer with a cursor counted in characters.
#[derive(Debug)]
pub struct InputBox {
    placeholder: String,
    text: Vec<char>,
    cursor_pos: usize,
}

impl InputBox {
    /// The buffer's characters.
    pub closed spec fn text_view(&self) -> Seq<char> {
        self.text@
    }

    /// The cursor: the number of characters before it.
    pub closed spec fn cursor(&self) -> nat {
        self.cursor_pos as nat
    }

    pub closed spec fn placeholder_view(&self) -> Seq<char> {
        self.placeholder@
    }

    /// The cursor stands within the text.
    pub open spec fn wf(&self) -> bool {
        self.cursor() <= self.text_view().len()
    }

    /// A buffer holding `starting_text`, cursor at the start; `placeholder`
    /// is shown while the buffer is empty.
    pub fn new(starting_text: &str, placeholder: &str) -> (b: Self)
        ensures
            b.wf(),
            b.text_view() == starting_text@,
            b.cursor() == 0,
            b.placeholder_view() == placeholder@,
    {
        Self { placeholder: string_of(&chars_of(placeholder)), text: chars_of(starting_text), cursor_pos: 0 }
    }

    /// Moves the cursor to `pos`, or to the end where `pos` lies past it.
    pub fn set_cursor_pos(&mut self, pos: usize)
        requires
            old(self).wf(),
        ensures
            final(self).wf(),
            final(self).text_view() == old(self).text_view(),
            final(self).placeholder_view() == old(self).placeholder_view(),
            final(self).cursor() == if pos <= old(self).text_view().len() {
                pos as nat
            } else {
                old(self).text_view().len()
            },
    {
        self.cursor_pos = if pos <= self.text.len() {
            pos
        } else {
            self.text.len()
        };
    }

    /// One character right, where there is one.
    pub fn advance_cursor(&mut self)
        requires
            old(self).wf(),
        ensures
            final(self).wf(),
            final(self).text_view() == old(self).text_view(),
            final(self).placeholder_view() == old(self).placeholder_view(),
            final(self).cursor() == if old(self).cursor() < old(self).text_view().len() {
                old(self).cursor() + 1
            } else {
                old(self).cursor()
            },
    {
        if self.cursor_pos < self.text.len() {
            self.set_cursor_pos(self.cursor_pos + 1);
        }
    }

    /// One character left, where there is one.
    pub fn reel_cursor(&mut self)
        requires
            old(self).wf(),
        ensures
            final(self).wf(),
            final(self).text_view() == old(self).text_view(),
            final(self).placeholder_view() == old(self).placeholder_view(),
            final(self).cursor() == if old(self).cursor() > 0 {
                old(self).cursor() - 1
            } else {
                0
            },
    {
        if self.cursor_pos > 0 {
            self.set_cursor_pos(self.cursor_pos - 1);
        }
    }

    /// To the start of the text.
    pub fn set_cursor_to_home(&mut self)
        requires
            old(self).wf(),
        ensures
            final(self).wf(),
            final(self).text_view() == old(self).text_view(),
            final(self).placeholder_view() == old(self).placeholder_view(),
            final(self).cursor() == 0,
    {
        self.set_cursor_pos(0);
    }

    /// To the end of the text.
    pub fn set_cursor_to_end(&mut self)
        requires
            old(self).wf(),
        ensures
            final(self).wf(),
            final(self).text_view() == old(self).text_view(),
            final(self).placeholder_view() == old(self).placeholder_view(),
            final(self).cursor() == old(self).text_view().len(),
    {
        let end = self.text.len();
        self.set_cursor_pos(end);
    }

    /// Replaces the text; the cursor stays where it was, or moves to the new
    /// end where that is nearer.
    pub fn set_text(&mut self, new_text: &str)
        requires
            old(self).wf(),
        ensures
            final(self).wf(),
            final(self).text_view() == new_text@,
            final(self).placeholder_view() == old(self).placeholder_view(),
            final(self).cursor() == if old(self).cursor() <= new_text@.len() {
                old(self).cursor()
            } else {
                new_text@.len()
            },
    {
        self.text = chars_of(new_text);
        if self.cursor_pos > self.text.len() {
            self.cursor_pos = self.text.len();
        }
    }

    /// Inserts `ch` at the cursor and moves the cursor past it; returns the
    /// new text.
    pub fn push_at_cursor(&mut self, ch: char) -> (r: String)
        requires
            old(self).wf(),
        ensures
            final(self).wf(),
            final(self).text_view() == old(self).text_view().insert(old(self).cursor() as int, ch),
            final(self).cursor() == old(self).cursor() + 1,
            final(self).placeholder_view() == old(self).placeholder_view(),
            r@ == final(self).text_view(),
    {
        self.text.insert(self.cursor_pos, ch);
        let n = self.text.len();
        assert(self.cursor_pos < n);
        self.cursor_pos = self.cursor_pos + 1;
        string_of(&self.text)
    }

    /// Deletes the character before the cursor and moves the cursor back;
    /// returns the new text, or nothing (and changes nothing) where the cursor
    /// is at the start.
    pub fn pop_at_cursor(&mut self) -> (r: Option<String>)
        requires
            old(self).wf(),
        ensures
            final(self).wf(),
            final(self).placeholder_view() == old(self).placeholder_view(),
            old(self).cursor() == 0 ==> r.is_none() && *final(self) == *old(self),
            old(self).cursor() > 0 ==> r.is_some() && final(self).text_view() == old(
                self,
            ).text_view().remove(old(self).cursor() - 1) && final(self).cursor() == old(self).cursor()
                - 1 && r->0@ == final(self).text_view(),
    {
        if self.text.len() == 0 || self.cursor_pos == 0 {
            return None;
        }
        self.text.remove(self.cursor_pos - 1);
        self.cursor_pos = self.cursor_pos - 1;
        Some(string_of(&self.text))
    }

    /// The text.
    pub fn text(&self) -> (r: String)
        ensures
            r@ == self.text_view(),
    {
        string_of(&self.text)
    }

    pub fn placeholder(&self) -> (r: &String)
        ensures
            r@ == self.placeholder_view(),
    {
        &self.placeholder
    }

    pub fn cursor_pos(&self) -> (r: usize)
        ensures
            r == self.cursor(),
    {
        self.cursor_pos
    }
}

} // verus!
