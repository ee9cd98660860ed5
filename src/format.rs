//! The body format of the HTTP replies, chosen on the command line.

use vstd::prelude::*;
use vstd::string::StringSliceAdditionalSpecFns;

verus! {

broadcast use vstd::string::is_ascii_spec_bytes;

/// What `str::to_lowercase` makes of a string.
pub uninterp spec fn lower_of(s: Seq<char>) -> Seq<char>;

/// Relies on `str::to_lowercase`: the lowercase mapping of the characters,
/// which depends on the characters alone.
#[verifier::external_body]
fn lowercase(s: &str) -> (r: String)
    ensures
        r@ == lower_of(s@),
{
    s.to_lowercase()
}

/// Body format of the replies.
#[derive(Debug, Clone, Copy, PartialEq, Eq, Structural)]
pub enum OutputFormat {
    Json,
    Text,
}

/// A format name that is neither `json` nor `text`.
#[derive(Debug, Clone, Copy, PartialEq, Eq, Structural)]
pub enum FormatError {
    Unknown,
}

pub open spec fn json_name() -> Seq<char> {
    seq!['j', 's', 'o', 'n']
}

pub open spec fn text_name() -> Seq<char> {
    seq!['t', 'e', 'x', 't']
}

/// The format that an already lowercased name selects.
pub open spec fn format_named(t: Seq<char>) -> Result<OutputFormat, FormatError> {
    if t == json_name() {
        Ok(OutputFormat::Json)
    } else if t == text_name() {
        Ok(OutputFormat::Text)
    } else {
        Err(FormatError::Unknown)
    }
}

/// Does `t` spell the four ASCII letters `w`?
fn spells(t: &str, w0: u8, w1: u8, w2: u8, w3: u8) -> (r: bool)
    requires
        w0 < 128 && w1 < 128 && w2 < 128 && w3 < 128,
    ensures
        r == (t@ == seq![w0 as char, w1 as char, w2 as char, w3 as char]),
{
    let ghost w = seq![w0 as char, w1 as char, w2 as char, w3 as char];
    if !t.is_ascii() {
        proof {
            if t@ == w {
                assert(vstd::utf8::is_ascii_chars(t@));
            }
        }
        return false;
    }
    let b = t.as_bytes();
    if b.len() != 4 {
        return false;
    }
    let r = b[0] == w0 && b[1] == w1 && b[2] == w2 && b[3] == w3;
    proof {
        if r {
            assert(t@ =~= w);
        } else if t@ == w {
            assert(false);
        }
    }
    r
}

/// The format selected by a name that is already lowercased.
pub fn format_from_lowered(t: &str) -> (r: Result<OutputFormat, FormatError>)
    ensures
        r == format_named(t@),
{
    if spells(t, 106, 115, 111, 110) {
        Ok(OutputFormat::Json)
    } else if spells(t, 116, 101, 120, 116) {
        Ok(OutputFormat::Text)
    } else {
        Err(FormatError::Unknown)
    }
}

impl OutputFormat {
    /// The format named by `s`, in any letter case: `json` or `text`.
    pub fn from_str(s: &str) -> (r: Result<OutputFormat, FormatError>)
        ensures
            r == format_named(lower_of(s@)),
    {
        let t = lowercase(s);
        format_from_lowered(t.as_str())
    }

    /// The content type of a reply body in this format.
    pub fn content_type(&self) -> (r: &'static str)
        ensures
            *self == OutputFormat::Json ==> r@ == seq![
                'a', 'p', 'p', 'l', 'i', 'c', 'a', 't', 'i', 'o', 'n', '/', 'j', 's', 'o', 'n'
            ],
            *self == OutputFormat::Text ==> r@ == seq!['t', 'e', 'x', 't', '/', 'p', 'l', 'a', 'i', 'n'],
    {
        match self {
            OutputFormat::Json => {
                proof {
                    reveal_strlit("application/json");
                }
                "application/json"
            },
            OutputFormat::Text => {
                proof {
                    reveal_strlit("text/plain");
                }
                "text/plain"
            },
        }
    }
}

} // verus!
