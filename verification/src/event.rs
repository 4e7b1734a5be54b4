//! Turning the fields of a structured event into a log message.
//!
//! A field named `message` supplies the message text; every other field is
//! appended as `name=value`, separated by single spaces. The final message
//! is the message text and the other fields, separated by a space when both
//! are present.

use vstd::prelude::*;

use crate::text::{push_char, str_equal};

verus! {

/// `name=value`, preceded by a space unless it is the first field.
pub open spec fn field_text(fields: Seq<char>, name: Seq<char>, value: Seq<char>) -> Seq<char> {
    let pre = if fields.len() == 0 {
        Seq::<char>::empty()
    } else {
        seq![' ']
    };
    fields + pre + name + seq!['='] + value
}

/// The message made of the message text and the other fields.
pub open spec fn event_message(message: Seq<char>, fields: Seq<char>) -> Seq<char> {
    if fields.len() == 0 {
        message
    } else if message.len() == 0 {
        fields
    } else {
        message + seq![' '] + fields
    }
}

/// Collects the fields of an event.
pub struct FieldVisitor {
    message: String,
    fields: String,
}

impl View for FieldVisitor {
    type V = (Seq<char>, Seq<char>);

    /// The message text and the other fields collected so far.
    closed spec fn view(&self) -> (Seq<char>, Seq<char>) {
        (self.message@, self.fields@)
    }
}

impl FieldVisitor {
    /// A visitor that has seen no field.
    pub fn new() -> (v: Self)
        ensures
            v@ == (Seq::<char>::empty(), Seq::<char>::empty()),
    {
        Self { message: String::new(), fields: String::new() }
    }

    /// Records the field `name` whose value renders as `value`.
    pub fn record_field(&mut self, name: &str, value: &str)
        ensures
            name@ == seq!['m', 'e', 's', 's', 'a', 'g', 'e'] ==> final(self)@ == (old(self)@.0 + value@, old(self)@.1),
            name@ != seq!['m', 'e', 's', 's', 'a', 'g', 'e'] ==> final(self)@ == (old(self)@.0, field_text(old(self)@.1, name@, value@)),
    {
        proof {
            reveal_strlit("message");
            assert("message"@ =~= seq!['m', 'e', 's', 's', 'a', 'g', 'e']);
        }
        if str_equal(name, "message") {
            self.message.append(value);
        } else {
            let ghost before = self.fields@;
            let first = self.fields.unicode_len() == 0;
            if !first {
                push_char(&mut self.fields, ' ');
            }
            self.fields.append(name);
            push_char(&mut self.fields, '=');
            self.fields.append(value);
            assert(self.fields@ =~= field_text(before, name@, value@));
        }
    }

    /// The message of the event.
    pub fn finish(self) -> (s: String)
        ensures
            s@ == event_message(self@.0, self@.1),
    {
        let FieldVisitor { message, fields } = self;
        if fields.unicode_len() == 0 {
            message
        } else if message.unicode_len() == 0 {
            fields
        } else {
            let mut s = message;
            push_char(&mut s, ' ');
            s.append(fields.as_str());
            s
        }
    }
}

} // verus!
