//! The state of the calculator that the demonstration program shows: the
//! text of its display, and how each key changes it.
use vstd::prelude::*;

verus! {

/// What the calculator's keys deliver.
pub enum UserMessage {
    Clear,
    Precent,
    Seven,
    Eight,
    Nine,
    Four,
    Five,
    Six,
    One,
    Two,
    Three,
    Divide,
    Multiply,
    Minus,
    Plus,
    Equals,
    Zero,
    Dot,
    ChangeLayout,
    ChangeText(String),
    AddK,
}

/// The calculator's state: a number (unused by the keys), the text of the
/// display, and which layout is shown.
pub struct Application {
    pub data: i32,
    pub label: String,
    pub change: bool,
}

/// The character a key appends to the display without asking for the
/// window to be cleared, if it is such a key.
pub open spec fn typed_char(message: UserMessage) -> Option<char> {
    match message {
        UserMessage::Precent => Some('%'),
        UserMessage::Seven => Some('7'),
        UserMessage::Eight => Some('8'),
        UserMessage::Nine => Some('9'),
        UserMessage::Four => Some('4'),
        UserMessage::Five => Some('5'),
        UserMessage::Six => Some('6'),
        UserMessage::One => Some('1'),
        UserMessage::Two => Some('2'),
        UserMessage::Three => Some('3'),
        UserMessage::Divide => Some('/'),
        UserMessage::Multiply => Some('*'),
        UserMessage::Minus => Some('-'),
        UserMessage::Plus => Some('+'),
        UserMessage::Equals => Some('='),
        UserMessage::Zero => Some('0'),
        UserMessage::Dot => Some('.'),
        _ => None,
    }
}

/// The display after `message`, when it showed `label` before.
pub open spec fn label_after(label: Seq<char>, message: UserMessage) -> Seq<char> {
    match typed_char(message) {
        Some(c) => label.push(c),
        None => match message {
            UserMessage::Clear => Seq::<char>::empty(),
            UserMessage::ChangeText(new_text) => new_text@,
            UserMessage::AddK => label.push('K'),
            _ => label,
        },
    }
}

/// Appends `c` to `s` by calling std's `String::push`; the contract
/// trusts it to append exactly that one character.
#[verifier::external_body]
fn push_char(s: &mut String, c: char)
    ensures
        final(s)@ == old(s)@.push(c),
{
    s.push(c);
}

/// Empties `s` by calling std's `String::clear`; the contract trusts it to
/// leave no character behind.
#[verifier::external_body]
fn clear_string(s: &mut String)
    ensures
        final(s)@ == Seq::<char>::empty(),
{
    s.clear();
}

impl Default for Application {
    /// The starting state: number 10, an empty display, the first layout.
    fn default() -> (app: Self)
        ensures
            app.data == 10,
            app.label@ == Seq::<char>::empty(),
            !app.change,
    {
        Self { data: 10, label: String::new(), change: false }
    }
}

impl Application {
    /// Applies a key: digits, operators and the dot append their character
    /// to the display; `Clear` empties it; `ChangeText` replaces it;
    /// `AddK` appends `K`; `ChangeLayout` switches the layout.  Returns
    /// whether the window must be cleared: true for all but the keys that
    /// append their own character.
    pub fn update(&mut self, message: &UserMessage) -> (clear: bool)
        ensures
            final(self).data == old(self).data,
            final(self).label@ == label_after(old(self).label@, *message),
            final(self).change == (if *message is ChangeLayout {
                !old(self).change
            } else {
                old(self).change
            }),
            clear == (typed_char(*message) is None),
    {
        match message {
            UserMessage::Clear => {
                clear_string(&mut self.label);
                return true;
            },
            UserMessage::Precent => push_char(&mut self.label, '%'),
            UserMessage::Seven => push_char(&mut self.label, '7'),
            UserMessage::Eight => push_char(&mut self.label, '8'),
            UserMessage::Nine => push_char(&mut self.label, '9'),
            UserMessage::Four => push_char(&mut self.label, '4'),
            UserMessage::Five => push_char(&mut self.label, '5'),
            UserMessage::Six => push_char(&mut self.label, '6'),
            UserMessage::One => push_char(&mut self.label, '1'),
            UserMessage::Two => push_char(&mut self.label, '2'),
            UserMessage::Three => push_char(&mut self.label, '3'),
            UserMessage::Divide => push_char(&mut self.label, '/'),
            UserMessage::Multiply => push_char(&mut self.label, '*'),
            UserMessage::Minus => push_char(&mut self.label, '-'),
            UserMessage::Plus => push_char(&mut self.label, '+'),
            UserMessage::Equals => push_char(&mut self.label, '='),
            UserMessage::Zero => push_char(&mut self.label, '0'),
            UserMessage::Dot => push_char(&mut self.label, '.'),
            UserMessage::ChangeLayout => {
                self.change = !self.change;
                return true;
            },
            UserMessage::ChangeText(new_text) => {
                self.label = new_text.clone();
                return true;
            },
            UserMessage::AddK => {
                push_char(&mut self.label, 'K');
                return true;
            },
        }
        return false;
    }
}

} // verus!
