//! Shard identifiers and the outcomes of fetching one shard.

use vstd::prelude::*;
use vstd::std_specs::convert::FromSpecImpl;

verus! {

/// Largest shard identifier: five hexadecimal digits.
pub const MAX_COUNT: u32 = 0xFFFFF;

/// Whether `id` names a shard.
pub open spec fn is_shard_id(id: u32) -> bool {
    id <= MAX_COUNT
}

/// The ASCII code of the upper-case hexadecimal digit that stands for `v`.
pub open spec fn upper_hex_digit(v: int) -> u8 {
    if v < 10 {
        (0x30 + v) as u8
    } else {
        (0x41 + v - 10) as u8
    }
}

/// The canonical text of a shard identifier: five upper-case hexadecimal
/// digits, the most significant first, as ASCII codes.
pub open spec fn shard_hex(id: u32) -> Seq<u8> {
    seq![
        upper_hex_digit((id as int / 0x10000) % 16),
        upper_hex_digit((id as int / 0x1000) % 16),
        upper_hex_digit((id as int / 0x100) % 16),
        upper_hex_digit((id as int / 0x10) % 16),
        upper_hex_digit(id as int % 16),
    ]
}

/// A text of ASCII codes as characters.
pub open spec fn ascii_text(codes: Seq<u8>) -> Seq<char> {
    Seq::new(codes.len(), |i: int| codes[i] as char)
}

/// The eight upper-case hexadecimal digits of a number, the most significant
/// first, as ASCII codes.
pub open spec fn hex_digits(n: u32) -> Seq<u8> {
    seq![
        upper_hex_digit((n as int / 0x10000000) % 16),
        upper_hex_digit((n as int / 0x1000000) % 16),
        upper_hex_digit((n as int / 0x100000) % 16),
        upper_hex_digit((n as int / 0x10000) % 16),
        upper_hex_digit((n as int / 0x1000) % 16),
        upper_hex_digit((n as int / 0x100) % 16),
        upper_hex_digit((n as int / 0x10) % 16),
        upper_hex_digit(n as int % 16),
    ]
}

/// A number in upper-case hexadecimal digits, with zeros in front up to a
/// width of five and without them beyond it.
pub open spec fn padded_hex(n: u32) -> Seq<u8> {
    if n >= 0x10000000 {
        hex_digits(n)
    } else if n >= 0x1000000 {
        hex_digits(n).skip(1)
    } else if n >= 0x100000 {
        hex_digits(n).skip(2)
    } else {
        hex_digits(n).skip(3)
    }
}

/// The text of a shard identifier is the number in five digits.
pub proof fn lemma_padded_hex_of_shard(id: u32)
    requires
        is_shard_id(id),
    ensures
        padded_hex(id) == shard_hex(id),
{
    assert(padded_hex(id) =~= shard_hex(id));
}

/// The text of one hexadecimal digit.
fn hex_digit_text(v: u32) -> (text: &'static str)
    requires
        v < 16,
    ensures
        text@ == seq![upper_hex_digit(v as int) as char],
{
    proof {
        reveal_strlit("0");
        reveal_strlit("1");
        reveal_strlit("2");
        reveal_strlit("3");
        reveal_strlit("4");
        reveal_strlit("5");
        reveal_strlit("6");
        reveal_strlit("7");
        reveal_strlit("8");
        reveal_strlit("9");
        reveal_strlit("A");
        reveal_strlit("B");
        reveal_strlit("C");
        reveal_strlit("D");
        reveal_strlit("E");
        reveal_strlit("F");
    }
    let text = match v {
        0 => "0",
        1 => "1",
        2 => "2",
        3 => "3",
        4 => "4",
        5 => "5",
        6 => "6",
        7 => "7",
        8 => "8",
        9 => "9",
        10 => "A",
        11 => "B",
        12 => "C",
        13 => "D",
        14 => "E",
        _ => "F",
    };
    assert(text@ =~= seq![upper_hex_digit(v as int) as char]);
    text
}

/// The text by which the remote knows the shard `id`: its number in
/// upper-case hexadecimal digits, with zeros in front up to a width of five.
pub fn shard_prefix(id: u32) -> (text: String)
    ensures
        text@ == ascii_text(padded_hex(id)),
        is_shard_id(id) ==> text@ == ascii_text(shard_hex(id)),
{
    let mut text = String::new();
    if id >= 0x10000000 {
        text.append(hex_digit_text((id / 0x10000000) % 16));
    }
    if id >= 0x1000000 {
        text.append(hex_digit_text((id / 0x1000000) % 16));
    }
    if id >= 0x100000 {
        text.append(hex_digit_text((id / 0x100000) % 16));
    }
    text.append(hex_digit_text((id / 0x10000) % 16));
    text.append(hex_digit_text((id / 0x1000) % 16));
    text.append(hex_digit_text((id / 0x100) % 16));
    text.append(hex_digit_text((id / 0x10) % 16));
    text.append(hex_digit_text(id % 16));
    proof {
        assert(text@ =~= ascii_text(padded_hex(id)));
        if is_shard_id(id) {
            lemma_padded_hex_of_shard(id);
        }
    }
    text
}

/// A fetch that did not yield a body: the HTTP status that the remote
/// answered with, or nothing where no answer came.
#[derive(Clone, Copy, Debug, PartialEq, Eq, Structural)]
pub struct DownloadError {
    pub status_code: Option<u16>,
}

/// Why a shard yielded no body.
#[derive(Clone, Copy, Debug, PartialEq, Eq, Structural)]
pub enum DownloadStatus {
    /// The state store holds a record that is young enough.
    Skipped(),
    /// The remote answered that its copy has not changed.
    NotOutdated(),
    /// A queue of the pipeline was closed under the scheduler.
    InternalError(),
    /// The fetch failed for good.
    HTTPError(DownloadError),
}

/// The status that the remote answers with where its copy has not changed.
pub const NOT_MODIFIED: u16 = 304;

/// A number in decimal digits.
pub open spec fn decimal_text(n: nat) -> Seq<char>
    decreases n,
{
    if n < 10 {
        seq![upper_hex_digit(n as int) as char]
    } else {
        decimal_text(n / 10).push(upper_hex_digit((n % 10) as int) as char)
    }
}

/// A status code in decimal digits.
pub fn status_text(code: u16) -> (text: String)
    ensures
        text@ == decimal_text(code as nat),
{
    let n: u32 = code as u32;
    let mut text = String::new();
    if n >= 10000 {
        text.append(hex_digit_text((n / 10000) % 10));
    }
    if n >= 1000 {
        text.append(hex_digit_text((n / 1000) % 10));
    }
    if n >= 100 {
        text.append(hex_digit_text((n / 100) % 10));
    }
    if n >= 10 {
        text.append(hex_digit_text((n / 10) % 10));
    }
    text.append(hex_digit_text(n % 10));
    proof {
        reveal_with_fuel(decimal_text, 6);
        assert(text@ =~= decimal_text(code as nat));
    }
    text
}

/// `reqwest::Error`, the error of a request that failed. It is carried
/// through; only `error_status` looks into it.
#[verifier::external_type_specification]
#[verifier::external_body]
pub struct ExReqwestError(reqwest::Error);

/// `reqwest::header::ToStrError`, the error of a header value that is no
/// text. It is carried through and never looked into.
#[verifier::external_type_specification]
#[verifier::external_body]
pub struct ExToStrError(reqwest::header::ToStrError);

/// `reqwest::Error::status`, as a number (`StatusCode::as_u16`): the status of
/// the response that the error was made from, if it was made from one. The
/// contract claims nothing of the result: what an error holds cannot be said
/// from outside.
#[verifier::external_body]
fn error_status(error: &reqwest::Error) -> Option<u16> {
    match error.status() {
        Some(code) => Some(code.as_u16()),
        None => None,
    }
}

impl DownloadError {
    /// The error for a response with the status `status_code`, or for no
    /// response.
    pub fn from_status(status_code: Option<u16>) -> (error: DownloadError)
        ensures
            error.status_code == status_code,
    {
        DownloadError { status_code }
    }

    /// Whether the remote answered that its copy has not changed.
    pub open spec fn not_modified(self) -> bool {
        self.status_code == Some(NOT_MODIFIED)
    }

    /// Whether the remote answered that its copy has not changed.
    pub fn is_not_modified(&self) -> (r: bool)
        ensures
            r == self.not_modified(),
    {
        match self.status_code {
            Some(code) => code == NOT_MODIFIED,
            None => false,
        }
    }

    /// What the error says.
    pub open spec fn message_text(self) -> Seq<char> {
        "Failed to download hash list. HTTP status: "@ + match self.status_code {
            Some(code) => decimal_text(code as nat),
            None => "connection error"@,
        }
    }

    /// What the error says: the status of the response, or that there was
    /// none.
    pub fn message(&self) -> (text: String)
        ensures
            text@ == self.message_text(),
    {
        let mut text = String::from_str("Failed to download hash list. HTTP status: ");
        match self.status_code {
            Some(code) => {
                let digits = status_text(code);
                text.append(digits.as_str());
            },
            None => {
                text.append("connection error");
            },
        }
        text
    }
}

impl From<reqwest::Error> for DownloadError {
    /// The error for a failed request: with the status of the response where
    /// the request failed on one.
    fn from(value: reqwest::Error) -> (error: DownloadError) {
        DownloadError::from_status(error_status(&value))
    }
}

impl FromSpecImpl<reqwest::Error> for DownloadError {
    /// Nothing is promised of this conversion: the status that the error
    /// holds is not known before it is asked for.
    open spec fn obeys_from_spec() -> bool {
        false
    }

    /// Of no account, as nothing is promised.
    open spec fn from_spec(value: reqwest::Error) -> DownloadError {
        DownloadError { status_code: None }
    }
}

impl From<reqwest::header::ToStrError> for DownloadError {
    /// The error for a header that is no text: as if no answer had come.
    fn from(value: reqwest::header::ToStrError) -> (error: DownloadError) {
        DownloadError { status_code: None }
    }
}

impl FromSpecImpl<reqwest::header::ToStrError> for DownloadError {
    /// The conversion is as `from_spec` says.
    open spec fn obeys_from_spec() -> bool {
        true
    }

    /// The error without a status.
    open spec fn from_spec(value: reqwest::header::ToStrError) -> DownloadError {
        DownloadError { status_code: None }
    }
}

} // verus!
