use cursor_helper::account::{read_account, AccountError, Credentials};

fn json(text: &str) -> serde_json::Value {
    serde_json::from_str(text).unwrap()
}

#[test]
fn usable_answer_gives_the_account() {
    let answer = json(r#"{"code":200,"data":{"email":"a@b.com","token":"T"}}"#);
    assert_eq!(
        read_account(&answer),
        Ok(Credentials { email: String::from("a@b.com"), token: String::from("T") })
    );
}

#[test]
fn answer_without_code_is_refused() {
    assert_eq!(read_account(&json(r#"{"data":{"email":"a","token":"t"}}"#)), Err(AccountError::MissingCode));
    assert_eq!(read_account(&json("[1,2]")), Err(AccountError::MissingCode));
    assert_eq!(read_account(&json("null")), Err(AccountError::MissingCode));
}

#[test]
fn code_that_is_no_unsigned_integer_counts_as_missing() {
    assert_eq!(read_account(&json(r#"{"code":"200"}"#)), Err(AccountError::MissingCode));
    assert_eq!(read_account(&json(r#"{"code":-1}"#)), Err(AccountError::MissingCode));
    assert_eq!(read_account(&json(r#"{"code":200.5}"#)), Err(AccountError::MissingCode));
}

#[test]
fn other_code_is_a_rejection_with_the_message() {
    assert_eq!(
        read_account(&json(r#"{"code":500,"message":"no accounts left"}"#)),
        Err(AccountError::Rejected(String::from("no accounts left")))
    );
}

#[test]
fn rejection_without_message_uses_the_stock_phrase() {
    assert_eq!(read_account(&json(r#"{"code":404}"#)), Err(AccountError::Rejected(String::from("未知错误"))));
    assert_eq!(
        read_account(&json(r#"{"code":404,"message":17}"#)),
        Err(AccountError::Rejected(String::from("未知错误")))
    );
}

#[test]
fn rejection_wins_over_present_data() {
    assert_eq!(
        read_account(&json(r#"{"code":0,"message":"m","data":{"email":"a","token":"t"}}"#)),
        Err(AccountError::Rejected(String::from("m")))
    );
}

#[test]
fn answer_without_data_is_refused() {
    assert_eq!(read_account(&json(r#"{"code":200}"#)), Err(AccountError::MissingData));
}

#[test]
fn data_without_both_texts_is_incomplete() {
    assert_eq!(read_account(&json(r#"{"code":200,"data":{"email":"a"}}"#)), Err(AccountError::Incomplete));
    assert_eq!(read_account(&json(r#"{"code":200,"data":{"token":"t"}}"#)), Err(AccountError::Incomplete));
    assert_eq!(read_account(&json(r#"{"code":200,"data":{"email":1,"token":"t"}}"#)), Err(AccountError::Incomplete));
    assert_eq!(read_account(&json(r#"{"code":200,"data":null}"#)), Err(AccountError::Incomplete));
    assert_eq!(read_account(&json(r#"{"code":200,"data":"x"}"#)), Err(AccountError::Incomplete));
}
