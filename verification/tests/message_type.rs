use slurpslurp::message_type::MessageType;

#[test]
fn known_codes_round_trip() {
    assert_eq!(MessageType::Default.code(), 0);
    assert_eq!(MessageType::Reply.code(), 19);
    assert_eq!(MessageType::ThreadCreated.code(), 18);
    assert_eq!(MessageType::PollResult.code(), 46);
    assert_eq!(MessageType::from_code(19), MessageType::Reply);
    assert_eq!(MessageType::from_code(46), MessageType::PollResult);
}

#[test]
fn unknown_codes_pass_through() {
    assert_eq!(MessageType::from_code(13), MessageType::Unknown(13));
    assert_eq!(MessageType::from_code(200), MessageType::Unknown(200));
    assert_eq!(MessageType::Unknown(200).code(), 200);
}
