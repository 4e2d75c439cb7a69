//! The editing rules of the prompt that asks for the remaining percentage of premium
//! requests: what each key does to the typed text and to the error line.
use vstd::prelude::*;

verus! {

/// A key of the prompt, as far as the prompt tells keys apart.
#[derive(Debug, Clone, Copy, PartialEq, Eq)]
pub enum PromptKey {
    Enter,
    Char(char),
    Backspace,
    Esc,
    Other,
}

/// What the caller does after a key.
#[derive(Debug, Clone, Copy, PartialEq, Eq)]
pub enum PromptAction {
    /// Draw the prompt again and wait for the next key.
    Redraw,
    /// Read the typed text as a percentage: accept it, or `reject` it.
    Submit,
    /// Give up on the prompt.
    Cancel,
}

/// Why a submitted text was not accepted.
#[derive(Debug, Clone, Copy, PartialEq, Eq)]
pub enum Rejection {
    /// A number outside 0 to 100.
    OutOfRange,
    /// Not a number.
    NotANumber,
}

/// The prompt: the typed text and the error line, if one is shown.
#[derive(Debug, Clone, PartialEq, Eq)]
pub struct PromptState {
    pub input: String,
    pub error: Option<String>,
}

/// The prompt as text.
pub struct PromptView {
    pub input: Seq<char>,
    pub error: Option<Seq<char>>,
}

impl View for PromptState {
    type V = PromptView;

    open spec fn view(&self) -> PromptView {
        PromptView {
            input: self.input@,
            error: match self.error {
                Some(e) => Some(e@),
                None => None,
            },
        }
    }
}

/// The characters that the prompt takes into the typed text: ASCII digits and the point.
pub open spec fn is_accepted_char(c: char) -> bool {
    ('0' <= c && c <= '9') || c == '.'
}

/// The typed text holds only accepted characters.
pub open spec fn is_well_formed(v: PromptView) -> bool {
    forall|i: int| 0 <= i < v.input.len() ==> is_accepted_char(#[trigger] v.input[i])
}

/// The error line shown for a rejected text.
pub open spec fn rejection_message(why: Rejection) -> Seq<char> {
    match why {
        Rejection::OutOfRange => "Please enter a value between 0 and 100"@,
        Rejection::NotANumber => "Please enter a number (e.g. 23.4)"@,
    }
}

/// What a key does to the prompt, and what the caller does next. A key that is released
/// rather than pressed does nothing.
pub open spec fn step(v: PromptView, key: PromptKey, pressed: bool) -> (PromptView, PromptAction) {
    if !pressed {
        (v, PromptAction::Redraw)
    } else {
        match key {
            PromptKey::Enter => (v, PromptAction::Submit),
            PromptKey::Esc => (v, PromptAction::Cancel),
            PromptKey::Char(c) => if is_accepted_char(c) {
                (PromptView { input: v.input.push(c), error: None }, PromptAction::Redraw)
            } else {
                (v, PromptAction::Redraw)
            },
            PromptKey::Backspace => (
                PromptView {
                    input: if v.input.len() == 0 { v.input } else { v.input.drop_last() },
                    error: None,
                },
                PromptAction::Redraw,
            ),
            PromptKey::Other => (v, PromptAction::Redraw),
        }
    }
}

/// `String::push` of std: appends the character.
#[verifier::external_body]
fn push_char(s: &mut String, c: char)
    ensures
        final(s)@ == old(s)@.push(c),
{
    s.push(c)
}

/// `String::pop` of std: removes and returns the last character, if there is one.
#[verifier::external_body]
fn pop_char(s: &mut String) -> (res: Option<char>)
    ensures
        old(s)@.len() == 0 ==> res is None && final(s)@ == old(s)@,
        old(s)@.len() > 0 ==> res == Some(old(s)@.last()) && final(s)@ == old(s)@.drop_last(),
{
    s.pop()
}

impl PromptState {
    /// An empty prompt without error line.
    pub fn new() -> (res: PromptState)
        ensures
            res@.input == Seq::<char>::empty(),
            res@.error is None,
            is_well_formed(res@),
    {
        PromptState { input: String::new(), error: None }
    }

    /// Applies a key to the prompt, and tells the caller what to do next.
    pub fn handle_key(&mut self, key: PromptKey, pressed: bool) -> (res: PromptAction)
        ensures
            (final(self)@, res) == step(old(self)@, key, pressed),
            is_well_formed(old(self)@) ==> is_well_formed(final(self)@),
            pressed && key is Char && (('0' <= key->0 && key->0 <= '9') || key->0 == '.') ==> final(self)@.input == old(self)@.input.push(key->0) && final(self)@.error is None && res == PromptAction::Redraw,
            pressed && key is Char && !(('0' <= key->0 && key->0 <= '9') || key->0 == '.') ==> final(self)@ == old(self)@ && res == PromptAction::Redraw,
            res == PromptAction::Cancel <==> pressed && key is Esc,
            res == PromptAction::Submit <==> pressed && key is Enter,
    {
        if !pressed {
            return PromptAction::Redraw;
        }
        match key {
            PromptKey::Enter => PromptAction::Submit,
            PromptKey::Esc => PromptAction::Cancel,
            PromptKey::Char(c) => {
                if ('0' <= c && c <= '9') || c == '.' {
                    push_char(&mut self.input, c);
                    self.error = None;
                }
                PromptAction::Redraw
            },
            PromptKey::Backspace => {
                pop_char(&mut self.input);
                self.error = None;
                PromptAction::Redraw
            },
            PromptKey::Other => PromptAction::Redraw,
        }
    }

    /// Shows why the submitted text was not accepted; the text stays as typed.
    pub fn reject(&mut self, why: Rejection)
        ensures
            final(self)@.input == old(self)@.input,
            final(self)@.error == Some(rejection_message(why)),
    {
        let message = match why {
            Rejection::OutOfRange => "Please enter a value between 0 and 100".to_owned(),
            Rejection::NotANumber => "Please enter a number (e.g. 23.4)".to_owned(),
        };
        self.error = Some(message);
    }
}

// ───────────────────────── laws of the prompt ─────────────────────────

/// Every key keeps the typed text made of digits and points only.
pub proof fn lemma_step_keeps_well_formed(v: PromptView, key: PromptKey, pressed: bool)
    requires
        is_well_formed(v),
    ensures
        is_well_formed(step(v, key, pressed).0),
{
    let w = step(v, key, pressed).0;
    assert forall|i: int| 0 <= i < w.input.len() implies is_accepted_char(#[trigger] w.input[i]) by {
        if pressed {
            match key {
                PromptKey::Char(c) => {
                    if is_accepted_char(c) && i < v.input.len() {
                        assert(w.input[i] == v.input[i]);
                    }
                },
                PromptKey::Backspace => {
                    if v.input.len() > 0 {
                        assert(w.input[i] == v.input[i]);
                    }
                },
                _ => {},
            }
        }
    }
}

/// Backspace right after typing an accepted character gives back the text as it was,
/// without error line.
pub proof fn lemma_backspace_undoes_typing(v: PromptView, c: char)
    requires
        is_accepted_char(c),
    ensures
        step(step(v, PromptKey::Char(c), true).0, PromptKey::Backspace, true).0.input == v.input,
        step(step(v, PromptKey::Char(c), true).0, PromptKey::Backspace, true).0.error is None,
{
    assert(v.input.push(c).drop_last() =~= v.input);
}

/// Editing the text (an accepted character, or backspace) clears the error line.
pub proof fn lemma_edit_clears_error(v: PromptView, key: PromptKey)
    requires
        key is Backspace || (key matches PromptKey::Char(c) && is_accepted_char(c)),
    ensures
        step(v, key, true).0.error is None,
        step(v, key, true).1 == PromptAction::Redraw,
{
}

/// Enter submits, Esc cancels, and neither changes the prompt; a released key changes nothing.
pub proof fn lemma_enter_esc_and_release_keep_prompt(v: PromptView, key: PromptKey)
    ensures
        step(v, key, false) == (v, PromptAction::Redraw),
        key is Enter ==> step(v, key, true) == (v, PromptAction::Submit),
        key is Esc ==> step(v, key, true) == (v, PromptAction::Cancel),
{
}

/// Every ASCII digit and the point are typed: each is appended to the text and clears the
/// error line.
pub proof fn lemma_digits_and_point_are_typed(v: PromptView, c: char)
    requires
        ('0' <= c && c <= '9') || c == '.',
    ensures
        step(v, PromptKey::Char(c), true) == (PromptView { input: v.input.push(c), error: None }, PromptAction::Redraw),
{
}

/// Any other character is ignored: the prompt stays as it was and is drawn again.
pub proof fn lemma_other_chars_are_ignored(v: PromptView, c: char)
    requires
        !(('0' <= c && c <= '9') || c == '.'),
    ensures
        step(v, PromptKey::Char(c), true) == (v, PromptAction::Redraw),
{
}

/// Only a pressed Esc cancels the prompt, and only a pressed Enter submits it.
pub proof fn lemma_only_esc_cancels(v: PromptView, key: PromptKey, pressed: bool)
    ensures
        step(v, key, pressed).1 == PromptAction::Cancel <==> pressed && key is Esc,
        step(v, key, pressed).1 == PromptAction::Submit <==> pressed && key is Enter,
{
}

} // verus!
