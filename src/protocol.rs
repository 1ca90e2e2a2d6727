//! The verdict client's wire format: the request body that frames a
//! (document, rule) pair, and what a decoded response means.
use vstd::prelude::*;
use vstd::string::*;

verus! {

#[verifier::external_type_specification]
#[verifier::external_body]
pub struct ExJsonError(serde_json::Error);

/// The lower-case hexadecimal digit for `n` in `0..16`.
pub open spec fn hex_digit(n: int) -> char {
    seq!['0', '1', '2', '3', '4', '5', '6', '7', '8', '9', 'a', 'b', 'c', 'd', 'e', 'f'][n]
}

/// How one character stands inside a JSON string literal: `"` and `\` behind
/// a backslash, the short escapes `\b \t \n \f \r`, the other control
/// characters as `\u00XX`, and every other character as itself.
pub open spec fn json_escape(c: char) -> Seq<char> {
    if c == '"' {
        seq!['\\', '"']
    } else if c == '\\' {
        seq!['\\', '\\']
    } else if c == '\u{8}' {
        seq!['\\', 'b']
    } else if c == '\t' {
        seq!['\\', 't']
    } else if c == '\n' {
        seq!['\\', 'n']
    } else if c == '\u{c}' {
        seq!['\\', 'f']
    } else if c == '\r' {
        seq!['\\', 'r']
    } else if (c as u32) < 0x20 {
        seq!['\\', 'u', '0', '0', hex_digit((c as u32) as int / 16), hex_digit((c as u32) as int % 16)]
    } else {
        seq![c]
    }
}

/// The characters of `s`, each as it stands inside a JSON string literal.
pub open spec fn json_escaped(s: Seq<char>) -> Seq<char>
    decreases s.len(),
{
    if s.len() == 0 {
        Seq::empty()
    } else {
        json_escaped(s.drop_last()) + json_escape(s.last())
    }
}

/// The JSON string literal for the text `s`, quotes included.
pub open spec fn json_string(s: Seq<char>) -> Seq<char> {
    seq!['"'] + json_escaped(s) + seq!['"']
}

/// Relies on serde_json::to_string on a `str`: it writes into a `Vec`, which
/// cannot fail, the string literal for `s` with serde_json's escape table.
#[verifier::external_body]
fn quote_json(s: &str) -> (r: Result<String, serde_json::Error>)
    ensures
        r is Ok,
        r matches Ok(q) ==> q@ == json_string(s@),
{
    serde_json::to_string(s)
}

/// The verdict of the rule-checking service on one (document, rule) pair.
pub struct Verdict {
    pub pass: bool,
    pub message: String,
}

/// Why a run stopped other than on a failing verdict.
pub enum CheckError {
    /// A document or a rule could not be read.
    FileRead { path: String },
    /// The directory tree could not be walked.
    Walk { detail: String },
    /// The rule directory could not be enumerated.
    RuleStore { path: String },
    /// A request could not be framed.
    Encode,
    /// The request could not be sent, or the connection failed.
    Transport { detail: String },
    /// The response body is not the expected JSON; it is kept as received.
    Protocol { raw: String },
}

impl CheckError {
    /// The one-line diagnostic for this error.
    pub fn describe(&self) -> (r: String)
        ensures
            self matches CheckError::FileRead { path } ==> r@ == "Failed to read file: "@ + path@,
            self matches CheckError::Walk { detail } ==> r@ == "Failed to walk directory: "@
                + detail@,
            self matches CheckError::RuleStore { path } ==> r@ == "Failed to list rules in: "@
                + path@,
            self is Encode ==> r@ == "Failed to encode request"@,
            self matches CheckError::Transport { detail } ==> r@ == "Request failed: "@ + detail@,
            self matches CheckError::Protocol { raw } ==> r@ == "Failed to parse response: "@
                + raw@,
    {
        match self {
            CheckError::FileRead { path } => String::from_str("Failed to read file: ").concat(
                path.as_str(),
            ),
            CheckError::Walk { detail } => String::from_str("Failed to walk directory: ").concat(
                detail.as_str(),
            ),
            CheckError::RuleStore { path } => String::from_str("Failed to list rules in: ").concat(
                path.as_str(),
            ),
            CheckError::Encode => String::from_str("Failed to encode request"),
            CheckError::Transport { detail } => String::from_str("Request failed: ").concat(
                detail.as_str(),
            ),
            CheckError::Protocol { raw } => String::from_str("Failed to parse response: ").concat(
                raw.as_str(),
            ),
        }
    }
}

/// The request body for a pair: `{"document":<doc>,"rule":<rule>}`, each
/// value a JSON string literal.
pub open spec fn request_body_spec(document: Seq<char>, rule: Seq<char>) -> Seq<char> {
    "{\"document\":"@ + json_string(document) + ",\"rule\":"@ + json_string(rule) + "}"@
}

/// Frames a (document, rule) pair as the JSON body of a check request.
pub fn request_body(document: &str, rule: &str) -> (r: Result<String, CheckError>)
    ensures
        r is Ok,
        r matches Ok(b) ==> b@ == request_body_spec(document@, rule@),
{
    let d = match quote_json(document) {
        Ok(q) => q,
        Err(_) => return Err(CheckError::Encode),
    };
    let q = match quote_json(rule) {
        Ok(q) => q,
        Err(_) => return Err(CheckError::Encode),
    };
    let mut body = String::from_str("{\"document\":");
    body.append(d.as_str());
    body.append(",\"rule\":");
    body.append(q.as_str());
    body.append("}");
    Ok(body)
}

/// What the response body `raw` means, given what decoding it as
/// `{"pass": <bool>, "message": <string>}` gave (`None` where it did not
/// decode): a verdict, or a protocol error that holds the raw body.
pub fn verdict_from_response(raw: String, decoded: Option<(bool, String)>) -> (r: Result<
    Verdict,
    CheckError,
>)
    ensures
        decoded matches Some((p, m)) ==> (r matches Ok(v) && v.pass == p && v.message@ == m@),
        decoded is None ==> (r matches Err(CheckError::Protocol { raw: x }) && x@ == raw@),
{
    match decoded {
        Some((pass, message)) => Ok(Verdict { pass, message }),
        None => Err(CheckError::Protocol { raw }),
    }
}

} // verus!
