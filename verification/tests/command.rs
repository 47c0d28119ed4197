use heapswap::command::{parse_input_line, InputLineError, KadCommand};

#[test]
fn get_and_providers() {
    match parse_input_line("GET alpha") {
        Ok(KadCommand::Get { key }) => assert_eq!(key, b"alpha".to_vec()),
        other => panic!("unexpected {:?}", other),
    }
    match parse_input_line("GET_PROVIDERS beta") {
        Ok(KadCommand::GetProviders { key }) => assert_eq!(key, b"beta".to_vec()),
        other => panic!("unexpected {:?}", other),
    }
    match parse_input_line("PUT_PROVIDER gamma") {
        Ok(KadCommand::PutProvider { key }) => assert_eq!(key, b"gamma".to_vec()),
        other => panic!("unexpected {:?}", other),
    }
}

#[test]
fn put_takes_key_and_value() {
    match parse_input_line("PUT k v") {
        Ok(KadCommand::Put { key, value }) => {
            assert_eq!(key, b"k".to_vec());
            assert_eq!(value, b"v".to_vec());
        },
        other => panic!("unexpected {:?}", other),
    }
    // Only the third field is the value.
    match parse_input_line("PUT k v extra") {
        Ok(KadCommand::Put { key, value }) => {
            assert_eq!(key, b"k".to_vec());
            assert_eq!(value, b"v".to_vec());
        },
        other => panic!("unexpected {:?}", other),
    }
}

#[test]
fn missing_fields() {
    assert!(matches!(parse_input_line("GET"), Err(InputLineError::ExpectedKey)));
    assert!(matches!(parse_input_line("PUT"), Err(InputLineError::ExpectedKey)));
    assert!(matches!(parse_input_line("PUT key"), Err(InputLineError::ExpectedValue)));
    // A trailing space gives an empty key.
    match parse_input_line("GET ") {
        Ok(KadCommand::Get { key }) => assert!(key.is_empty()),
        other => panic!("unexpected {:?}", other),
    }
}

#[test]
fn unknown_commands() {
    assert!(matches!(parse_input_line(""), Err(InputLineError::UnknownCommand)));
    assert!(matches!(parse_input_line("get x"), Err(InputLineError::UnknownCommand)));
    assert!(matches!(parse_input_line("GETX x"), Err(InputLineError::UnknownCommand)));
    assert!(matches!(parse_input_line(" GET x"), Err(InputLineError::UnknownCommand)));
}
