//! Why bytes could not be read as a message: a description of the cause and
//! the (message, field) names of the fields it arose in, innermost first, as
//! `prost::DecodeError` holds them, and the text that `prost` displays for
//! such an error.

use vstd::prelude::*;

verus! {

/// The text `prost` puts before the description of every decoding error.
pub open spec fn error_prefix() -> Seq<char> {
    "failed to decode Protobuf message: "@
}

/// The text `prost` displays for a decoding error with the given
/// description and no field names.
pub open spec fn error_display(description: Seq<char>) -> Seq<char> {
    error_prefix() + description
}

/// The displayed text of an error with no field names starts with the
/// prefix, and the description follows it.
pub broadcast proof fn lemma_error_display(d: Seq<char>)
    ensures
        (#[trigger] error_display(d)).len() == 35 + d.len(),
        error_display(d).take(35) == error_prefix(),
        error_display(d).skip(35) == d,
{
    reveal_strlit("failed to decode Protobuf message: ");
    assert(error_display(d).take(35) =~= error_prefix());
    assert(error_display(d).skip(35) =~= d);
}

/// The decimal digits of `n`.
pub open spec fn decimal(n: nat) -> Seq<char>
    decreases n,
{
    if n < 10 {
        seq![digit(n)]
    } else {
        decimal(n / 10).push(digit(n % 10))
    }
}

pub open spec fn digit(d: nat) -> char {
    (48 + d) as char
}

/// The one-character text of the digit `d`.
fn digit_text(d: u64) -> (t: &'static str)
    requires
        d < 10,
    ensures
        t@ == seq![digit(d as nat)],
{
    proof {
        reveal_strlit("0");
        reveal_strlit("1");
        reveal_strlit("2");
        reveal_strlit("3");
        reveal_strlit("4");
        reveal_strlit("5");
        reveal_strlit("6");
        reveal_strlit("7");
        reveal_strlit("8");
        reveal_strlit("9");
    }
    if d == 0 {
        "0"
    } else if d == 1 {
        "1"
    } else if d == 2 {
        "2"
    } else if d == 3 {
        "3"
    } else if d == 4 {
        "4"
    } else if d == 5 {
        "5"
    } else if d == 6 {
        "6"
    } else if d == 7 {
        "7"
    } else if d == 8 {
        "8"
    } else {
        "9"
    }
}

/// The decimal digits of `n`, as `u64`'s `Display` writes them.
pub fn decimal_text(n: u64) -> (text: String)
    ensures
        text@ == decimal(n as nat),
    decreases n,
{
    if n < 10 {
        String::from_str(digit_text(n))
    } else {
        let mut text = decimal_text(n / 10);
        text.append(digit_text(n % 10));
        assert(text@ =~= decimal(n as nat));
        text
    }
}

/// A decoding error as plain values.
#[derive(Clone, Debug, PartialEq, Eq)]
pub struct DecodeFailure {
    pub description: String,
    /// (message, field) pairs, innermost first.
    pub stack: Vec<(String, String)>,
}

#[verifier::ext_equal]
pub struct DecodeFailureView {
    pub description: Seq<char>,
    pub stack: Seq<(Seq<char>, Seq<char>)>,
}

impl View for DecodeFailure {
    type V = DecodeFailureView;

    open spec fn view(&self) -> DecodeFailureView {
        DecodeFailureView {
            description: self.description@,
            stack: self.stack@.map_values(|e: (String, String)| (e.0@, e.1@)),
        }
    }
}

/// An error with the given description that arose in no field.
pub open spec fn failure(description: Seq<char>) -> DecodeFailureView {
    DecodeFailureView { description, stack: seq![] }
}

/// `f`, recorded as having arisen in `field` of `message`.
pub open spec fn within(f: DecodeFailureView, message: Seq<char>, field: Seq<char>) -> DecodeFailureView {
    DecodeFailureView { stack: f.stack.push((message, field)), ..f }
}

/// The field names of a stack, each as `message.field: `.
pub open spec fn stack_text(stack: Seq<(Seq<char>, Seq<char>)>) -> Seq<char>
    decreases stack.len(),
{
    if stack.len() == 0 {
        seq![]
    } else {
        stack_text(stack.drop_last()) + stack.last().0 + "."@ + stack.last().1 + ": "@
    }
}

/// The text that `prost` displays for an error (`DecodeError`'s `Display`).
pub open spec fn failure_text(f: DecodeFailureView) -> Seq<char> {
    error_prefix() + stack_text(f.stack) + f.description
}

impl DecodeFailure {
    /// An error with the given description that arose in no field.
    pub fn new(description: &str) -> (f: DecodeFailure)
        ensures
            f@ == failure(description@),
    {
        let f = DecodeFailure { description: String::from_str(description), stack: Vec::new() };
        assert(f@.stack =~= Seq::<(Seq<char>, Seq<char>)>::empty());
        f
    }

    /// The error whose displayed text, with no field names, is `text`.
    pub(crate) fn from_text(text: String) -> (f: DecodeFailure)
        requires
            text@.len() >= 35,
            text@.take(35) == error_prefix(),
        ensures
            f@ == failure(text@.skip(35)),
    {
        let len = text.as_str().unicode_len();
        let rest = text.as_str().substring_char(35, len);
        assert(rest@ =~= text@.skip(35));
        DecodeFailure::new(rest)
    }

    /// Records that the error arose in `field` of `message`.
    pub fn within(self, message: &str, field: &str) -> (f: DecodeFailure)
        ensures
            f@ == within(self@, message@, field@),
    {
        let mut f = self;
        f.stack.push((String::from_str(message), String::from_str(field)));
        assert(f@.stack =~= self@.stack.push((message@, field@)));
        f
    }

    /// The text `prost` displays for this error.
    pub fn text(&self) -> (text: String)
        ensures
            text@ == failure_text(self@),
    {
        let mut out = String::from_str("failed to decode Protobuf message: ");
        let n = self.stack.len();
        let mut i: usize = 0;
        while i < n
            invariant
                n == self.stack@.len(),
                i <= n,
                out@ == error_prefix() + stack_text(self@.stack.take(i as int)),
            decreases n - i,
        {
            let entry = &self.stack[i];
            out.append(entry.0.as_str());
            out.append(".");
            out.append(entry.1.as_str());
            out.append(": ");
            proof {
                let st = self@.stack.take(i + 1);
                assert(st.drop_last() =~= self@.stack.take(i as int));
                assert(st.last() == (entry.0@, entry.1@));
            }
            assert(out@ =~= error_prefix() + stack_text(self@.stack.take(i + 1)));
            i = i + 1;
        }
        assert(self@.stack.take(n as int) =~= self@.stack);
        out.append(self.description.as_str());
        out
    }
}

/// The error that a reader of a field gave, as `text`, recorded as having
/// arisen in `field` of `message`.
pub(crate) fn in_field(text: String, message: &str, field: &str) -> (f: DecodeFailure)
    requires
        text@.len() >= 35,
        text@.take(35) == error_prefix(),
    ensures
        f@ == within(failure(text@.skip(35)), message@, field@),
{
    DecodeFailure::from_text(text).within(message, field)
}

} // verus!
