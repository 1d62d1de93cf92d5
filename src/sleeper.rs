use crate::text::{parse_u64, parsed_u64, push_str, text_of};
use vstd::prelude::*;

verus! {

/// The poll interval: how long a waiter pauses between two checks.
#[derive(Clone, Copy, Debug, PartialEq, Eq)]
pub struct Sleeper {
    millis: u64,
}

/// The poll frequency used when none is given, in milliseconds.
pub open spec fn default_poll_text() -> Seq<char> {
    "1000"@
}

/// The text that is read as the poll frequency: the given one, else the default.
pub open spec fn poll_text(value: Option<&str>) -> Seq<char> {
    match value {
        Some(v) => v@,
        None => default_poll_text(),
    }
}

pub open spec fn poll_frequency_message(text: Seq<char>) -> Seq<char> {
    "Poll frequency ["@ + text + "] is not a valid integer."@
}

/// The default poll frequency reads as one thousand milliseconds.
pub proof fn lemma_default_poll_frequency()
    ensures
        parsed_u64(default_poll_text()) == Some(1000u64),
{
    reveal_strlit("1000");
    let s = default_poll_text();
    assert(s.len() == 4);
    assert(s[0] == '1' && s[1] == '0' && s[2] == '0' && s[3] == '0');
    assert(crate::text::all_digits(s));
    assert(crate::text::digits_value(s.subrange(0, 0)) == 0);
    assert(s.subrange(0, 1).drop_last() =~= s.subrange(0, 0));
    assert(s.subrange(0, 2).drop_last() =~= s.subrange(0, 1));
    assert(s.subrange(0, 3).drop_last() =~= s.subrange(0, 2));
    assert(s.subrange(0, 4).drop_last() =~= s.subrange(0, 3));
    assert(s.subrange(0, 4) =~= s);
    assert(crate::text::digits_value(s.subrange(0, 1)) == 1);
    assert(crate::text::digits_value(s.subrange(0, 2)) == 10);
    assert(crate::text::digits_value(s.subrange(0, 3)) == 100);
    assert(crate::text::digits_value(s) == 1000);
}

impl Sleeper {
    /// The interval in milliseconds.
    pub closed spec fn spec_millis(self) -> u64 {
        self.millis
    }

    pub fn new(ms: u64) -> (r: Sleeper)
        ensures
            r.spec_millis() == ms,
    {
        Sleeper { millis: ms }
    }

    /// The interval in milliseconds.
    pub fn millis(&self) -> (r: u64)
        ensures
            r == self.spec_millis(),
    {
        self.millis
    }

    /// Builds the interval from the text given for it, or from the default
    /// when none was given.
    pub fn from(value: Option<&str>) -> (r: Result<Sleeper, SleeperParseError>)
        ensures
            match parsed_u64(poll_text(value)) {
                Some(ms) => r is Ok && r->Ok_0.spec_millis() == ms,
                None => r is Err && r->Err_0.spec_text() == poll_text(value),
            },
            value is None ==> r is Ok && r->Ok_0.spec_millis() == 1000,
    {
        proof {
            lemma_default_poll_frequency();
        }
        let text: &str = match value {
            Some(v) => v,
            None => Sleeper::default_poll_frequency(),
        };
        match parse_u64(text) {
            Some(ms) => Ok(Sleeper::new(ms)),
            None => Err(SleeperParseError(text.to_owned())),
        }
    }

    /// The text of the default poll frequency, in milliseconds.
    pub fn default_poll_frequency() -> (r: &'static str)
        ensures
            r@ == default_poll_text(),
    {
        "1000"
    }
}

/// The poll frequency given could not be read as a number of milliseconds.
#[derive(Clone, Debug)]
pub struct SleeperParseError(String);

impl SleeperParseError {
    /// The text that was given as the poll frequency.
    pub closed spec fn spec_text(self) -> Seq<char> {
        self.0@
    }

    /// The text that was given as the poll frequency.
    pub fn text(&self) -> (r: &str)
        ensures
            r@ == self.spec_text(),
    {
        self.0.as_str()
    }

    /// What the error says to the operator.
    pub fn message(&self) -> (r: String)
        ensures
            r@ == poll_frequency_message(self.spec_text()),
    {
        let mut out: Vec<char> = Vec::new();
        push_str(&mut out, "Poll frequency [");
        push_str(&mut out, self.0.as_str());
        push_str(&mut out, "] is not a valid integer.");
        text_of(&out)
    }
}

} // verus!
