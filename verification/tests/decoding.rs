use simple_wallet::error::Rejection;
use simple_wallet::error::WalletError;
use simple_wallet::number::format_amount;
use simple_wallet::number::parse_amount;
use simple_wallet::payload::parse_action;
use simple_wallet::payload::Action;
use simple_wallet::payload::SwPayload;
use simple_wallet::text::decode_text;
use simple_wallet::text::find_comma;
use simple_wallet::text::same_bytes;

fn decoded(text: &str) -> SwPayload {
    match SwPayload::new(text.as_bytes()) {
        Ok(Some(payload)) => payload,
        other => panic!("{:?} did not decode: {:?}", text, other),
    }
}

fn rejected(bytes: &[u8]) -> Rejection {
    match SwPayload::new(bytes) {
        Err(WalletError::InvalidTransaction(rejection)) => rejection,
        other => panic!("{:?} was not rejected: {:?}", bytes, other),
    }
}

#[test]
fn decodes_a_deposit() {
    let payload = decoded("deposit,50");
    assert_eq!(payload.get_action(), Action::Deposit);
    assert_eq!(payload.get_value(), 50);
    assert_eq!(payload.get_beneficiary(), &None);
}

#[test]
fn decodes_a_withdrawal() {
    let payload = decoded("withdraw,10");
    assert_eq!(payload.get_action(), Action::Withdraw);
    assert_eq!(payload.get_value(), 10);
    assert_eq!(payload.get_beneficiary(), &None);
}

#[test]
fn decodes_a_transfer() {
    let payload = decoded("transfer,5,bob");
    assert_eq!(payload.get_action(), Action::Transfer);
    assert_eq!(payload.get_value(), 5);
    assert_eq!(payload.get_beneficiary(), &Some(String::from("bob")));
}

#[test]
fn decodes_a_balance_query() {
    let payload = decoded("balance,0");
    assert_eq!(payload.get_action(), Action::Balance);
    assert_eq!(payload.get_value(), 0);
    assert_eq!(payload.get_beneficiary(), &None);
}

#[test]
fn a_transfer_without_beneficiary_still_decodes() {
    let payload = decoded("transfer,5");
    assert_eq!(payload.get_action(), Action::Transfer);
    assert_eq!(payload.get_beneficiary(), &None);
}

#[test]
fn a_beneficiary_is_accepted_with_any_action() {
    let payload = decoded("deposit,7,carol");
    assert_eq!(payload.get_action(), Action::Deposit);
    assert_eq!(payload.get_value(), 7);
    assert_eq!(payload.get_beneficiary(), &Some(String::from("carol")));
}

#[test]
fn a_beneficiary_may_hold_any_text() {
    let payload = decoded("transfer,1,zo\u{eb} \u{1f980}");
    assert_eq!(payload.get_beneficiary(), &Some(String::from("zo\u{eb} \u{1f980}")));
}

#[test]
fn a_keyword_alone_has_too_few_fields() {
    assert_eq!(rejected(b"balance"), Rejection::TooFewFields);
}

#[test]
fn an_empty_payload_has_too_few_fields() {
    assert_eq!(rejected(b""), Rejection::TooFewFields);
}

#[test]
fn four_fields_are_too_many() {
    assert_eq!(rejected(b"deposit,10,x,y"), Rejection::TooManyFields);
    assert_eq!(rejected(b",,,"), Rejection::TooManyFields);
    assert_eq!(rejected(b"deposit,10,x,y,z"), Rejection::TooManyFields);
}

#[test]
fn an_unknown_action_is_invalid() {
    assert_eq!(rejected(b"bogus,10"), Rejection::InvalidAction);
    assert_eq!(rejected(b"Deposit,10"), Rejection::InvalidAction);
    assert_eq!(rejected(b"deposit ,10"), Rejection::InvalidAction);
    assert_eq!(rejected(b"deposi,10"), Rejection::InvalidAction);
}

#[test]
fn an_empty_action_is_required() {
    assert_eq!(rejected(b",10"), Rejection::ActionRequired);
    assert_eq!(rejected(b",abc,"), Rejection::ActionRequired);
}

#[test]
fn an_amount_must_be_a_number() {
    assert_eq!(rejected(b"deposit,abc"), Rejection::InvalidValue);
    assert_eq!(rejected(b"deposit,"), Rejection::InvalidValue);
    assert_eq!(rejected(b"deposit,-1"), Rejection::InvalidValue);
    assert_eq!(rejected(b"deposit, 5"), Rejection::InvalidValue);
    assert_eq!(rejected(b"deposit,5 "), Rejection::InvalidValue);
    assert_eq!(rejected(b"deposit,1.5"), Rejection::InvalidValue);
    assert_eq!(rejected(b"deposit,+"), Rejection::InvalidValue);
    assert_eq!(rejected(b"deposit,4294967296"), Rejection::InvalidValue);
}

#[test]
fn the_largest_amount_decodes() {
    assert_eq!(decoded("deposit,4294967295").get_value(), 4294967295);
    assert_eq!(decoded("deposit,0004294967295").get_value(), 4294967295);
    assert_eq!(decoded("deposit,+12").get_value(), 12);
}

#[test]
fn an_empty_beneficiary_is_refused() {
    assert_eq!(rejected(b"transfer,5,"), Rejection::EmptyBeneficiary);
    assert_eq!(rejected(b"deposit,5,"), Rejection::EmptyBeneficiary);
}

#[test]
fn bytes_that_are_no_text_are_refused() {
    assert_eq!(rejected(&[0xff, 0x2c, 0x31]), Rejection::InvalidSerialization);
    assert_eq!(rejected(b"transfer,5,\xc3"), Rejection::InvalidSerialization);
    assert_eq!(rejected(b"deposit\x80"), Rejection::InvalidSerialization);
}

#[test]
fn checks_are_made_in_order() {
    assert_eq!(rejected(b"bogus,abc,"), Rejection::InvalidAction);
    assert_eq!(rejected(b"deposit,abc,"), Rejection::InvalidValue);
    assert_eq!(rejected(b"bogus,1,2,3"), Rejection::TooManyFields);
    assert_eq!(rejected(b"\xff,1,2,3"), Rejection::InvalidSerialization);
}

#[test]
fn keywords_name_actions() {
    assert_eq!(parse_action(b"deposit"), Some(Action::Deposit));
    assert_eq!(parse_action(b"withdraw"), Some(Action::Withdraw));
    assert_eq!(parse_action(b"balance"), Some(Action::Balance));
    assert_eq!(parse_action(b"transfer"), Some(Action::Transfer));
    assert_eq!(parse_action(b""), None);
    assert_eq!(parse_action(b"transfers"), None);
}

#[test]
fn actions_have_labels() {
    assert_eq!(Action::Deposit.label(), "Action::Deposit");
    assert_eq!(Action::Withdraw.label(), "Action::Withdraw");
    assert_eq!(Action::Balance.label(), "Action::Balance");
    assert_eq!(Action::Transfer.label(), "Action::Transfer");
}

#[test]
fn amounts_are_read_from_decimal_text() {
    assert_eq!(parse_amount(b"0"), Some(0));
    assert_eq!(parse_amount(b"50"), Some(50));
    assert_eq!(parse_amount(b"+50"), Some(50));
    assert_eq!(parse_amount(b"007"), Some(7));
    assert_eq!(parse_amount(b"4294967295"), Some(u32::MAX));
    assert_eq!(parse_amount(b"4294967296"), None);
    assert_eq!(parse_amount(b"99999999999999999999999999"), None);
    assert_eq!(parse_amount(b""), None);
    assert_eq!(parse_amount(b"+"), None);
    assert_eq!(parse_amount(b"++1"), None);
    assert_eq!(parse_amount(b"-0"), None);
    assert_eq!(parse_amount(b"12a"), None);
    assert_eq!(parse_amount(b"1 2"), None);
}

#[test]
fn amounts_are_written_as_decimal_text() {
    assert_eq!(format_amount(0), b"0".to_vec());
    assert_eq!(format_amount(7), b"7".to_vec());
    assert_eq!(format_amount(70), b"70".to_vec());
    assert_eq!(format_amount(1234567890), b"1234567890".to_vec());
    assert_eq!(format_amount(u32::MAX), b"4294967295".to_vec());
}

#[test]
fn amounts_written_are_read_back() {
    for value in [0u32, 1, 9, 10, 99, 100, 65535, 65536, 4294967294, 4294967295] {
        assert_eq!(parse_amount(&format_amount(value)), Some(value));
        assert_eq!(format_amount(value), value.to_string().into_bytes());
    }
}

#[test]
fn commas_are_found_in_order() {
    let line = b"ab,c,,d";
    assert_eq!(find_comma(line, 0), 2);
    assert_eq!(find_comma(line, 2), 2);
    assert_eq!(find_comma(line, 3), 4);
    assert_eq!(find_comma(line, 5), 5);
    assert_eq!(find_comma(line, 6), 7);
    assert_eq!(find_comma(line, 7), 7);
    assert_eq!(find_comma(b"", 0), 0);
}

#[test]
fn byte_strings_are_compared() {
    assert!(same_bytes(b"", b""));
    assert!(same_bytes(b"abc", b"abc"));
    assert!(!same_bytes(b"abc", b"abd"));
    assert!(!same_bytes(b"abc", b"ab"));
    assert!(!same_bytes(b"", b"a"));
}

#[test]
fn text_is_decoded_from_its_bytes() {
    assert_eq!(decode_text(b"bob"), Some(String::from("bob")));
    assert_eq!(decode_text(b""), Some(String::new()));
    assert_eq!(decode_text("zo\u{eb}".as_bytes()), Some(String::from("zo\u{eb}")));
    assert_eq!(decode_text(&[0x62, 0xff]), None);
    assert_eq!(decode_text(&[0xed, 0xa0, 0x80]), None);
    assert_eq!(decode_text(&[0xc0, 0x80]), None);
}
