//! The text field in which the player enters a name.

use vstd::prelude::*;
use crate::text::string_of;

verus! {

/// The most characters a name can have.
pub const MAX_CHAR_COUNT: usize = 16;

/// A key, as far as the text field tells keys apart.
#[derive(Clone, Copy, Debug, PartialEq, Eq, Structural)]
pub enum TypedKey {
    /// Backspace.
    Back,
    Return,
    /// A letter key, counted from 0 for A to 25 for Z.
    Letter(u8),
    Space,
    Minus,
    Other,
}

/// A key that went down or up.
#[derive(Clone, Copy, Debug, PartialEq, Eq, Structural)]
pub struct KeyPress {
    pub key: TypedKey,
    pub pressed: bool,
}

/// The name that the player has submitted.
pub struct SubmittedTextInput(pub String);

/// The state of the text field.
#[derive(Debug)]
pub struct TypingState {
    buf: Vec<char>,
    just_typed_char: bool,
}

/// The mathematical value of a [`TypingState`].
pub struct TypingView {
    pub buf: Seq<char>,
    pub just_typed_char: bool,
}

/// The small letter of the key `i`, or the capital with `shift`; none
/// for a key beyond Z.
pub open spec fn letter(i: u8, shift: bool) -> Option<char> {
    if i >= 26 {
        None
    } else if shift {
        Some(seq![
            'A', 'B', 'C', 'D', 'E', 'F', 'G', 'H', 'I', 'J', 'K', 'L', 'M', 'N', 'O', 'P', 'Q',
            'R', 'S', 'T', 'U', 'V', 'W', 'X', 'Y', 'Z',
        ][i as int])
    } else {
        Some(seq![
            'a', 'b', 'c', 'd', 'e', 'f', 'g', 'h', 'i', 'j', 'k', 'l', 'm', 'n', 'o', 'p', 'q',
            'r', 's', 't', 'u', 'v', 'w', 'x', 'y', 'z',
        ][i as int])
    }
}

/// Whether `c` is blank space.
pub open spec fn is_space(c: char) -> bool {
    c == ' ' || c == '\t' || c == '\n' || c == '\r'
}

/// `text` without the blank space at its end.
pub open spec fn trim_end(text: Seq<char>) -> Seq<char>
    decreases text.len(),
{
    if text.len() > 0 && is_space(text.last()) {
        trim_end(text.drop_last())
    } else {
        text
    }
}

/// `text` up to and with its last space; nothing where it has none.
pub open spec fn through_last_space(text: Seq<char>) -> Seq<char>
    decreases text.len(),
{
    if text.len() == 0 {
        text
    } else if text.last() == ' ' {
        text
    } else {
        through_last_space(text.drop_last())
    }
}

/// `text` without its last word: the blank space at the end goes, and
/// then what follows the last space.
pub open spec fn without_last_word(text: Seq<char>) -> Seq<char> {
    through_last_space(trim_end(text))
}

/// The character that a key types: a letter, an underscore for the
/// space bar, a hyphen for minus. The letter W types nothing while
/// control is held.
pub open spec fn typed(key: TypedKey, control: bool, shift: bool) -> Option<char> {
    match key {
        TypedKey::Letter(i) => if i == 22 && control {
            None
        } else {
            letter(i, shift)
        },
        TypedKey::Space => Some('_'),
        TypedKey::Minus => Some('-'),
        _ => None,
    }
}

impl TypingView {
    /// The buffer after what a key erases: backspace takes the last
    /// character, or the last word while control is held, and so does
    /// control with W where the buffer is not full.
    pub open spec fn erased(self, key: TypedKey, control: bool) -> Seq<char> {
        let backed = if key == TypedKey::Back {
            if control {
                without_last_word(self.buf)
            } else if self.buf.len() > 0 {
                self.buf.drop_last()
            } else {
                self.buf
            }
        } else {
            self.buf
        };
        if key == TypedKey::Letter(22) && control && backed.len() < MAX_CHAR_COUNT {
            without_last_word(backed)
        } else {
            backed
        }
    }

    /// Whether the key submits the name.
    pub open spec fn submits(press: KeyPress, field_present: bool) -> bool {
        field_present && press.pressed && press.key == TypedKey::Return
    }

    /// The text field after one key.
    pub open spec fn pressed(self, press: KeyPress, control: bool, shift: bool, field_present: bool)
        -> TypingView {
        if !field_present || !press.pressed || press.key == TypedKey::Return {
            self
        } else {
            let buf = self.erased(press.key, control);
            if buf.len() >= MAX_CHAR_COUNT {
                TypingView { buf, ..self }
            } else {
                match typed(press.key, control, shift) {
                    Some(c) => TypingView { buf: buf.push(c), just_typed_char: true },
                    None => TypingView { buf, just_typed_char: false },
                }
            }
        }
    }

    /// The text field after the keys, in order.
    pub open spec fn run(self, keys: Seq<KeyPress>, control: bool, shift: bool, field_present: bool)
        -> TypingView
        decreases keys.len(),
    {
        if keys.len() == 0 {
            self
        } else {
            self.run(keys.drop_last(), control, shift, field_present).pressed(
                keys.last(),
                control,
                shift,
                field_present,
            )
        }
    }

    /// The names that the keys submit, in order.
    pub open spec fn submissions(
        self,
        keys: Seq<KeyPress>,
        control: bool,
        shift: bool,
        field_present: bool,
    ) -> Seq<Seq<char>>
        decreases keys.len(),
    {
        if keys.len() == 0 {
            Seq::empty()
        } else {
            let before = self.submissions(keys.drop_last(), control, shift, field_present);
            if Self::submits(keys.last(), field_present) {
                before.push(self.run(keys.drop_last(), control, shift, field_present).buf)
            } else {
                before
            }
        }
    }
}

impl View for TypingState {
    type V = TypingView;

    closed spec fn view(&self) -> TypingView {
        TypingView { buf: self.buf@, just_typed_char: self.just_typed_char }
    }
}

/// The character of the letter key `i`.
pub fn letter_char(i: u8, shift: bool) -> (c: Option<char>)
    ensures
        c == letter(i, shift),
{
    if i >= 26 {
        return None;
    }
    let small: [char; 26] = [
        'a', 'b', 'c', 'd', 'e', 'f', 'g', 'h', 'i', 'j', 'k', 'l', 'm', 'n', 'o', 'p', 'q', 'r',
        's', 't', 'u', 'v', 'w', 'x', 'y', 'z',
    ];
    let capital: [char; 26] = [
        'A', 'B', 'C', 'D', 'E', 'F', 'G', 'H', 'I', 'J', 'K', 'L', 'M', 'N', 'O', 'P', 'Q', 'R',
        'S', 'T', 'U', 'V', 'W', 'X', 'Y', 'Z',
    ];
    if shift {
        Some(capital[i as usize])
    } else {
        Some(small[i as usize])
    }
}

/// Takes the last word off `text`.
pub fn trim_last_word(text: &mut Vec<char>)
    ensures
        final(text)@ == without_last_word(old(text)@),
{
    while text.len() > 0 && (text[text.len() - 1] == ' ' || text[text.len() - 1] == '\t'
        || text[text.len() - 1] == '\n' || text[text.len() - 1] == '\r')
        invariant
            trim_end(text@) == trim_end(old(text)@),
        decreases text.len(),
    {
        text.pop();
    }
    while text.len() > 0 && text[text.len() - 1] != ' '
        invariant
            through_last_space(text@) == without_last_word(old(text)@),
        decreases text.len(),
    {
        text.pop();
    }
}

impl TypingState {
    /// An empty text field.
    pub fn new() -> (t: TypingState)
        ensures
            t@ == (TypingView { buf: Seq::empty(), just_typed_char: false }),
    {
        TypingState { buf: Vec::new(), just_typed_char: false }
    }

    /// Empties the buffer.
    pub fn clear_buffer_text(&mut self)
        ensures
            final(self)@ == (TypingView { buf: Seq::empty(), ..old(self)@ }),
    {
        self.buf.clear();
    }

    /// What has been typed.
    pub fn text(&self) -> (s: String)
        ensures
            s@ == self@.buf,
    {
        let s = string_of(&self.buf, 0, self.buf.len());
        proof {
            assert(self.buf@.subrange(0, self.buf@.len() as int) =~= self.buf@);
        }
        s
    }

    /// How many characters have been typed.
    pub fn len(&self) -> (n: usize)
        ensures
            n == self@.buf.len(),
    {
        self.buf.len()
    }

    /// Whether the last key typed a character.
    pub fn just_typed_char(&self) -> (b: bool)
        ensures
            b == self@.just_typed_char,
    {
        self.just_typed_char
    }

    /// Takes one key. Keys that go up, and all keys while there is no
    /// text field, are passed over. Return submits what has been typed.
    /// Backspace erases, and then any key that types a character adds
    /// it, unless the buffer holds [`MAX_CHAR_COUNT`] characters.
    pub fn push_char(&mut self, press: KeyPress, control: bool, shift: bool, field_present: bool)
        -> (submitted: Option<SubmittedTextInput>)
        ensures
            final(self)@ == old(self)@.pressed(press, control, shift, field_present),
            match submitted {
                Some(name) => TypingView::submits(press, field_present) && name.0@ == old(
                    self,
                )@.buf,
                None => !TypingView::submits(press, field_present),
            },
    {
        if !field_present || !press.pressed {
            return None;
        }
        match press.key {
            TypedKey::Back => {
                if !control {
                    self.buf.pop();
                } else {
                    trim_last_word(&mut self.buf);
                }
            },
            TypedKey::Return => {
                return Some(SubmittedTextInput(self.text()));
            },
            _ => {},
        }
        if self.buf.len() >= MAX_CHAR_COUNT {
            return None;
        }
        proof {
            lemma_without_last_word_shorter(self.buf@);
        }
        let typed = match press.key {
            TypedKey::Letter(i) => {
                if i == 22 && control {
                    trim_last_word(&mut self.buf);
                    None
                } else {
                    letter_char(i, shift)
                }
            },
            TypedKey::Space => Some('_'),
            TypedKey::Minus => Some('-'),
            _ => None,
        };
        match typed {
            Some(c) => {
                self.buf.push(c);
                self.just_typed_char = true;
            },
            None => {
                self.just_typed_char = false;
            },
        }
        None
    }

    /// Takes the keys of one tick, in order, and returns the names they
    /// submit.
    pub fn push_chars(
        &mut self,
        keys: &Vec<KeyPress>,
        control: bool,
        shift: bool,
        field_present: bool,
    ) -> (submitted: Vec<SubmittedTextInput>)
        ensures
            final(self)@ == old(self)@.run(keys@, control, shift, field_present),
            submitted@.len() == old(self)@.submissions(
                keys@,
                control,
                shift,
                field_present,
            ).len(),
            forall|k: int|
                0 <= k < submitted@.len() ==> (#[trigger] submitted@[k]).0@ == old(
                    self,
                )@.submissions(keys@, control, shift, field_present)[k],
    {
        let ghost start = self@;
        let mut submitted: Vec<SubmittedTextInput> = Vec::new();
        let mut i: usize = 0;
        while i < keys.len()
            invariant
                i <= keys.len(),
                self@ == start.run(keys@.take(i as int), control, shift, field_present),
                submitted@.len() == start.submissions(
                    keys@.take(i as int),
                    control,
                    shift,
                    field_present,
                ).len(),
                forall|k: int|
                    0 <= k < submitted@.len() ==> (#[trigger] submitted@[k]).0@
                        == start.submissions(keys@.take(i as int), control, shift, field_present)[k],
            decreases keys.len() - i,
        {
            proof {
                assert(keys@.take(i + 1).drop_last() =~= keys@.take(i as int));
                assert(keys@.take(i + 1).last() == keys@[i as int]);
            }
            if let Some(name) = self.push_char(keys[i], control, shift, field_present) {
                submitted.push(name);
            }
            i = i + 1;
        }
        proof {
            assert(keys@.take(keys.len() as int) =~= keys@);
        }
        submitted
    }
}

impl Default for TypingState {
    fn default() -> (t: TypingState)
        ensures
            t@ == (TypingView { buf: Seq::empty(), just_typed_char: false }),
    {
        TypingState::new()
    }
}

/// No key makes the name longer than [`MAX_CHAR_COUNT`] characters.
pub proof fn lemma_name_stays_short(
    t: TypingView,
    press: KeyPress,
    control: bool,
    shift: bool,
    field_present: bool,
)
    requires
        t.buf.len() <= MAX_CHAR_COUNT,
    ensures
        t.pressed(press, control, shift, field_present).buf.len() <= MAX_CHAR_COUNT,
{
    lemma_without_last_word_shorter(t.buf);
    if t.buf.len() > 0 {
        lemma_without_last_word_shorter(t.buf.drop_last());
    }
    lemma_without_last_word_shorter(without_last_word(t.buf));
}

/// Taking off the last word never makes a text longer.
pub proof fn lemma_without_last_word_shorter(text: Seq<char>)
    ensures
        without_last_word(text).len() <= text.len(),
{
    lemma_trim_end_shorter(text);
    lemma_through_last_space_shorter(trim_end(text));
}

proof fn lemma_trim_end_shorter(text: Seq<char>)
    ensures
        trim_end(text).len() <= text.len(),
    decreases text.len(),
{
    if text.len() > 0 && is_space(text.last()) {
        lemma_trim_end_shorter(text.drop_last());
    }
}

proof fn lemma_through_last_space_shorter(text: Seq<char>)
    ensures
        through_last_space(text).len() <= text.len(),
    decreases text.len(),
{
    if text.len() > 0 && text.last() != ' ' {
        lemma_through_last_space_shorter(text.drop_last());
    }
}

} // verus!
