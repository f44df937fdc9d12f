use line_server::digits::{parse_u16, u64_to_string, ParseError};
use line_server::protocol::{dispatch, process_line, Action};
use line_server::store::LineStore;

fn sample_store() -> LineStore {
    LineStore::new(vec![
        "the".to_string(),
        "quick brown".to_string(),
        "fox".to_string(),
        "jumps".to_string(),
    ])
}

fn respond(text: &str) -> Action {
    Action::Respond(text.to_string())
}

#[test]
fn get_zero_returns_first_line() {
    let store = sample_store();
    assert_eq!(dispatch("GET 0", &store), respond("Ok\r\nthe\r\n"));
}

#[test]
fn get_one_returns_second_line() {
    let store = sample_store();
    assert_eq!(dispatch("GET 1", &store), respond("Ok\r\nquick brown\r\n"));
}

#[test]
fn get_out_of_range_reports_total() {
    let store = sample_store();
    assert_eq!(
        dispatch("GET 999", &store),
        respond("Err - failed to retrieve line 999. There are only 4 lines available.\r\n")
    );
}

#[test]
fn get_bad_token_reports_invalid_digit() {
    let store = sample_store();
    assert_eq!(
        dispatch("GET ABC", &store),
        respond("Err - invalid digit found in string. Is ABC an unsigned integer under 65536?\r\n")
    );
}

#[test]
fn unknown_command_lists_valid_commands() {
    let store = sample_store();
    assert_eq!(
        dispatch("FOO", &store),
        respond(
            "Err - FOO is an invalid command. `GET nnnn | QUIT | SHUTDOWN` are valid commands.\r\n"
        )
    );
}

#[test]
fn empty_command_is_invalid() {
    let store = sample_store();
    assert_eq!(
        dispatch("", &store),
        respond(
            "Err -  is an invalid command. `GET nnnn | QUIT | SHUTDOWN` are valid commands.\r\n"
        )
    );
}

#[test]
fn quit_and_shutdown_need_the_exact_keyword() {
    let store = sample_store();
    assert_eq!(dispatch("QUIT", &store), Action::Quit);
    assert_eq!(dispatch("QUIT NOW", &store), Action::Quit);
    assert_eq!(dispatch("SHUTDOWN", &store), Action::Shutdown);
    assert_eq!(dispatch("SHUTDOWN NOW", &store), Action::Shutdown);
    assert_eq!(
        dispatch("QUITTING", &store),
        respond(
            "Err - QUITTING is an invalid command. `GET nnnn | QUIT | SHUTDOWN` are valid commands.\r\n"
        )
    );
    assert_eq!(
        dispatch("SHUTDOWNNOW", &store),
        respond(
            "Err - SHUTDOWNNOW is an invalid command. `GET nnnn | QUIT | SHUTDOWN` are valid commands.\r\n"
        )
    );
}

#[test]
fn get_without_argument_reports_empty() {
    let store = sample_store();
    assert_eq!(
        dispatch("GET", &store),
        respond(
            "Err - cannot parse integer from empty string. Is  an unsigned integer under 65536?\r\n"
        )
    );
}

#[test]
fn get_with_empty_argument_reports_empty() {
    let store = sample_store();
    assert_eq!(
        dispatch("GET ", &store),
        respond(
            "Err - cannot parse integer from empty string. Is  an unsigned integer under 65536?\r\n"
        )
    );
}

#[test]
fn get_with_oversized_argument_reports_overflow() {
    let store = sample_store();
    assert_eq!(
        dispatch("GET 65536", &store),
        respond(
            "Err - number too large to fit in target type. Is 65536 an unsigned integer under 65536?\r\n"
        )
    );
}

#[test]
fn get_takes_the_second_token_only() {
    let store = sample_store();
    assert_eq!(dispatch("GET 1 2", &store), respond("Ok\r\nquick brown\r\n"));
}

#[test]
fn get_like_word_is_invalid() {
    let store = sample_store();
    assert_eq!(
        dispatch("GETFOO", &store),
        respond(
            "Err - GETFOO is an invalid command. `GET nnnn | QUIT | SHUTDOWN` are valid commands.\r\n"
        )
    );
    assert_eq!(
        dispatch("GETFOO 2", &store),
        respond(
            "Err - GETFOO 2 is an invalid command. `GET nnnn | QUIT | SHUTDOWN` are valid commands.\r\n"
        )
    );
}

#[test]
fn process_line_normalizes_case_and_terminator() {
    let store = sample_store();
    assert_eq!(
        dispatch("get 0", &store),
        respond(
            "Err - get 0 is an invalid command. `GET nnnn | QUIT | SHUTDOWN` are valid commands.\r\n"
        )
    );
    assert_eq!(process_line("get 0\n", &store), respond("Ok\r\nthe\r\n"));
    assert_eq!(
        process_line("get abc\n", &store),
        respond("Err - invalid digit found in string. Is ABC an unsigned integer under 65536?\r\n")
    );
    assert_eq!(process_line("shutdown\n", &store), Action::Shutdown);
    assert_eq!(process_line("quit\n", &store), Action::Quit);
}

#[test]
fn line_without_terminator_is_emptied_by_normalization() {
    let store = sample_store();
    assert_eq!(
        process_line("QUIT", &store),
        respond(
            "Err -  is an invalid command. `GET nnnn | QUIT | SHUTDOWN` are valid commands.\r\n"
        )
    );
}

#[test]
fn round_trip_serves_every_line_in_order() {
    let lines = vec![
        "alpha".to_string(),
        "beta".to_string(),
        "gamma".to_string(),
        "delta".to_string(),
        "epsilon".to_string(),
    ];
    let store = LineStore::new(lines.clone());
    for (i, line) in lines.iter().enumerate() {
        let cmd = format!("GET {}", i);
        assert_eq!(dispatch(&cmd, &store), respond(&format!("Ok\r\n{}\r\n", line)));
    }
    assert_eq!(
        dispatch("GET 5", &store),
        respond("Err - failed to retrieve line 5. There are only 5 lines available.\r\n")
    );
}

#[test]
fn repeated_gets_are_stable() {
    let store = sample_store();
    for _ in 0..200 {
        assert_eq!(dispatch("GET 2", &store), respond("Ok\r\nfox\r\n"));
        assert_eq!(dispatch("QUIT", &store), Action::Quit);
        assert_eq!(dispatch("GET 3", &store), respond("Ok\r\njumps\r\n"));
    }
}

#[test]
fn parse_u16_accepts_plain_and_signed_digits() {
    assert_eq!(parse_u16("0"), Ok(0));
    assert_eq!(parse_u16("007"), Ok(7));
    assert_eq!(parse_u16("+17"), Ok(17));
    assert_eq!(parse_u16("65535"), Ok(65535));
}

#[test]
fn parse_u16_rejects_bad_input() {
    assert_eq!(parse_u16(""), Err(ParseError::Empty));
    assert_eq!(parse_u16("+"), Err(ParseError::InvalidDigit));
    assert_eq!(parse_u16("-1"), Err(ParseError::InvalidDigit));
    assert_eq!(parse_u16("12a"), Err(ParseError::InvalidDigit));
    assert_eq!(parse_u16("65536"), Err(ParseError::Overflow));
    assert_eq!(parse_u16("999999"), Err(ParseError::Overflow));
}

#[test]
fn u64_to_string_prints_decimal() {
    assert_eq!(u64_to_string(0), "0");
    assert_eq!(u64_to_string(7), "7");
    assert_eq!(u64_to_string(10497), "10497");
    assert_eq!(u64_to_string(65535), "65535");
    assert_eq!(u64_to_string(18446744073709551615), "18446744073709551615");
}

#[test]
fn store_get_and_len_follow_the_lines() {
    let store = sample_store();
    assert_eq!(store.len(), 4);
    assert_eq!(store.get(0), Some(&"the".to_string()));
    assert_eq!(store.get(3), Some(&"jumps".to_string()));
    assert_eq!(store.get(4), None);
    assert_eq!(store.get(65535), None);
}
