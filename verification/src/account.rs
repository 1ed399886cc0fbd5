//! Reading the answer of the remote account endpoint.
//!
//! The endpoint answers with a JSON object: a number under `code`, an optional
//! text under `message`, and under `data` an object with the texts `email` and
//! `token`. An answer is usable where the code is 200 and both texts are there.

use crate::json::{json_model, member, text_of, unsigned_of, Json};
use vstd::prelude::*;

verus! {

/// The account that a usable answer names.
#[derive(Debug, Clone, PartialEq, Eq)]
pub struct Credentials {
    pub email: String,
    pub token: String,
}

/// Why an answer names no account.
#[derive(Debug, Clone, PartialEq, Eq)]
pub enum AccountError {
    /// There is no `code`, or it is not a non-negative integer.
    MissingCode,
    /// The code is not 200; the text is the answer's `message`, or a stock
    /// phrase where it has none.
    Rejected(String),
    /// The code is 200 and there is no `data`.
    MissingData,
    /// There is `data`, and it lacks the text `email` or the text `token`.
    Incomplete,
}

/// What an answer says, as mathematics.
pub ghost enum AccountReading {
    Usable { email: Seq<char>, token: Seq<char> },
    MissingCode,
    Rejected(Seq<char>),
    MissingData,
    Incomplete,
}

/// The text under `key`, where `value` is an object that holds a string there.
pub open spec fn text_member(value: Json, key: Seq<char>) -> Option<Seq<char>> {
    match value.member(key) {
        Some(m) => m.text(),
        None => None,
    }
}

/// The phrase that stands in for a rejection without a message.
pub open spec fn unknown_error() -> Seq<char> {
    "未知错误"@
}

/// The reading of an answer.
pub open spec fn account_reading(answer: Json) -> AccountReading {
    match answer.member("code"@) {
        None => AccountReading::MissingCode,
        Some(code) => match code.unsigned() {
            None => AccountReading::MissingCode,
            Some(c) => if c != 200 {
                AccountReading::Rejected(
                    match text_member(answer, "message"@) {
                        Some(m) => m,
                        None => unknown_error(),
                    },
                )
            } else {
                match answer.member("data"@) {
                    None => AccountReading::MissingData,
                    Some(data) => match (text_member(data, "email"@), text_member(data, "token"@)) {
                        (Some(email), Some(token)) => AccountReading::Usable { email, token },
                        _ => AccountReading::Incomplete,
                    },
                }
            },
        },
    }
}

/// The reading that a result of `read_account` stands for.
pub open spec fn reading_of(r: Result<Credentials, AccountError>) -> AccountReading {
    match r {
        Ok(c) => AccountReading::Usable { email: c.email@, token: c.token@ },
        Err(AccountError::MissingCode) => AccountReading::MissingCode,
        Err(AccountError::Rejected(m)) => AccountReading::Rejected(m@),
        Err(AccountError::MissingData) => AccountReading::MissingData,
        Err(AccountError::Incomplete) => AccountReading::Incomplete,
    }
}

/// The text under `key` of an object, if it holds a string there.
fn read_text(value: &serde_json::Value, key: &str) -> (r: Option<String>)
    ensures
        match r {
            Some(s) => text_member(json_model(*value), key@) == Some(s@),
            None => text_member(json_model(*value), key@) is None,
        },
{
    match member(value, key) {
        Some(m) => text_of(m),
        None => None,
    }
}

/// Reads the account out of the endpoint's answer, or says what it lacks.
pub fn read_account(answer: &serde_json::Value) -> (r: Result<Credentials, AccountError>)
    ensures
        reading_of(r) == account_reading(json_model(*answer)),
{
    let code = match member(answer, "code") {
        Some(c) => unsigned_of(c),
        None => None,
    };
    match code {
        None => Err(AccountError::MissingCode),
        Some(c) => {
            if c != 200 {
                let message = match read_text(answer, "message") {
                    Some(m) => m,
                    None => "未知错误".to_owned(),
                };
                Err(AccountError::Rejected(message))
            } else {
                match member(answer, "data") {
                    None => Err(AccountError::MissingData),
                    Some(data) => {
                        let email = read_text(data, "email");
                        let token = read_text(data, "token");
                        match (email, token) {
                            (Some(email), Some(token)) => Ok(Credentials { email, token }),
                            _ => Err(AccountError::Incomplete),
                        }
                    },
                }
            }
        },
    }
}

} // verus!
