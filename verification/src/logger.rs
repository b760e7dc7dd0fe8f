//! The format of the state files: each record is one line of JSON, and the
//! last line of a file is the state it holds.

use crate::text::{lines, spec_lines, strings_view};
use vstd::prelude::*;
use vstd::string::StringExecFns;

verus! {

/// The error type of `serde_json`.
#[verifier::external_type_specification]
#[verifier::external_body]
pub struct ExJsonError(serde_json::Error);

/// Why a state could not be read or written.
#[derive(Clone, Copy, Debug, PartialEq, Eq, Structural)]
pub enum StoreError {
    /// The file is there but holds no line.
    NoRecord,
    /// The last line is no JSON list of strings.
    Corrupt,
    /// The state has no JSON form.
    Encoding,
    /// Reading or writing the file failed.
    Io,
}

/// The size above which a state file is emptied before the next record is
/// added to it.
pub const MAX_STATE_FILE_LEN: u64 = 65536;

/// The list of strings that `serde_json::from_str` reads from `text`;
/// nothing where it reports an error.
pub uninterp spec fn json_string_list(text: Seq<char>) -> Option<Seq<Seq<char>>>;

/// The bytes that `serde_json::to_vec` writes for the list of strings
/// `list`; nothing where it reports an error.
pub uninterp spec fn json_bytes(list: Seq<Seq<char>>) -> Option<Seq<u8>>;

/// `serde_json::from_str` at the type of a list of strings: the list that
/// `text` holds as JSON, or the error that the parser reports.
#[verifier::external_body]
fn json_decode(text: &str) -> (res: Result<Vec<String>, serde_json::Error>)
    ensures
        match res {
            Ok(list) => json_string_list(text@) == Some(strings_view(list@)),
            Err(_) => json_string_list(text@) is None,
        },
{
    serde_json::from_str::<Vec<String>>(text)
}

/// `serde_json::to_vec` on a list of strings: its JSON text as bytes, or
/// the error that the serializer reports.
#[verifier::external_body]
fn json_encode(list: &Vec<String>) -> (res: Result<Vec<u8>, serde_json::Error>)
    ensures
        match res {
            Ok(bytes) => json_bytes(strings_view(list@)) == Some(bytes@),
            Err(_) => json_bytes(strings_view(list@)) is None,
        },
{
    serde_json::to_vec(list)
}

/// The last line of `content`; nothing where it has no line.
pub open spec fn spec_last_line(content: Seq<char>) -> Option<Seq<char>> {
    let lines = spec_lines(content);
    if lines.len() == 0 {
        None
    } else {
        Some(lines.last())
    }
}

/// The state that a file with `content` holds: the list of strings on its
/// last line.
pub open spec fn spec_read_record(content: Seq<char>) -> Result<Seq<Seq<char>>, StoreError> {
    match spec_last_line(content) {
        None => Err(StoreError::NoRecord),
        Some(line) => match json_string_list(line) {
            Some(list) => Ok(list),
            None => Err(StoreError::Corrupt),
        },
    }
}

/// The record that holds `list`: its JSON text and a line feed.
pub open spec fn spec_write_record(list: Seq<Seq<char>>) -> Result<Seq<u8>, StoreError> {
    match json_bytes(list) {
        Some(bytes) => Ok(bytes.push(10u8)),
        None => Err(StoreError::Encoding),
    }
}

/// What an attempt to read a state file comes to. `present` says whether
/// the file is there, and `content` is what was read of it. A file that is
/// not there is no failure: there is then no state yet. A file that is
/// there and cannot be read is one.
pub fn stored(present: bool, content: Option<String>) -> (res: Result<Option<String>, StoreError>)
    ensures
        res == (if !present {
            Ok::<Option<String>, StoreError>(None)
        } else if content is Some {
            Ok::<Option<String>, StoreError>(content)
        } else {
            Err::<Option<String>, StoreError>(StoreError::Io)
        }),
{
    if !present {
        Ok(None)
    } else {
        match content {
            Some(content) => Ok(Some(content)),
            None => Err(StoreError::Io),
        }
    }
}

/// The last line of `content`.
pub fn last_line(content: &str) -> (res: Option<String>)
    ensures
        match res {
            Some(line) => spec_last_line(content@) == Some(line@),
            None => spec_last_line(content@) is None,
        },
{
    let mut all = lines(content);
    all.pop()
}

/// Reads the state that a file with `content` holds.
pub fn read_record(content: &str) -> (res: Result<Vec<String>, StoreError>)
    ensures
        match res {
            Ok(list) => spec_read_record(content@) == Ok::<Seq<Seq<char>>, StoreError>(
                strings_view(list@),
            ),
            Err(e) => spec_read_record(content@) == Err::<Seq<Seq<char>>, StoreError>(e),
        },
{
    match last_line(content) {
        None => Err(StoreError::NoRecord),
        Some(line) => match json_decode(line.as_str()) {
            Ok(list) => Ok(list),
            Err(_) => Err(StoreError::Corrupt),
        },
    }
}

/// The record to write for the state `list`.
pub fn write_record(list: &Vec<String>) -> (res: Result<Vec<u8>, StoreError>)
    ensures
        match res {
            Ok(bytes) => spec_write_record(strings_view(list@)) == Ok::<Seq<u8>, StoreError>(
                bytes@,
            ),
            Err(e) => spec_write_record(strings_view(list@)) == Err::<Seq<u8>, StoreError>(e),
        },
{
    match json_encode(list) {
        Ok(bytes) => {
            let mut bytes = bytes;
            bytes.push(10u8);
            Ok(bytes)
        },
        Err(_) => Err(StoreError::Encoding),
    }
}

/// Whether a state file of `len` bytes is emptied before the next record is
/// added to it.
pub fn needs_truncation(len: u64) -> (res: bool)
    ensures
        res == (len > MAX_STATE_FILE_LEN),
{
    len > MAX_STATE_FILE_LEN
}

/// The argument that tells the status view the new value of the variable
/// `name`: the name, an equals sign, and the value as JSON.
pub fn update_argument(name: &str, json: &str) -> (res: String)
    ensures
        res@ == name@ + seq!['='] + json@,
{
    let mut res = name.to_owned();
    proof {
        reveal_strlit("=");
        assert("="@ =~= seq!['=']);
    }
    res.append("=");
    res.append(json);
    res
}

} // verus!
