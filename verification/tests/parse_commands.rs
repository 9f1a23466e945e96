use day_trader::commands::{
    CommandParseFailure, LoadTestAdd, LoadTestCommand, LoadTestDumpLogFileName,
    LoadTestDumpLogUserIdFileName, ParseLoadTestCommandError,
};
use day_trader::money::{parse_cents, parse_u64, u64_to_string};

#[test]
fn test_parse_add_line_success() {
    let command = LoadTestCommand::try_from_line("[1] ADD,oY01WVirLr,63511.53");
    assert_eq!(
        command,
        Ok(LoadTestCommand::Add(LoadTestAdd {
            user_id: "oY01WVirLr".to_string(),
            amount: 6351153,
            request_num: 1,
        }))
    )
}

#[test]
fn test_parse_add_line_failure_1() {
    let command = LoadTestCommand::try_from_line("ADD,oY01WVirLr,63511.53");
    assert_eq!(
        command,
        Err(ParseLoadTestCommandError::MissingSpace {
            value: "ADD,oY01WVirLr,63511.53".to_string()
        })
    )
}

#[test]
fn test_parse_add_line_failure_2() {
    let command = LoadTestCommand::try_from_line("[1] WEEWOO,oY01WVirLr,63511.53");
    assert_eq!(
        command,
        Err(ParseLoadTestCommandError::UnknownCommand {
            value: "[1] WEEWOO,oY01WVirLr,63511.53".to_string(),
            command: "WEEWOO".to_string(),
        })
    )
}

#[test]
fn test_parse_add_line_failure_3() {
    let command = LoadTestCommand::try_from_line("[1] ADD");
    assert_eq!(
        command,
        Err(ParseLoadTestCommandError::CommandParseFailure {
            command: "ADD".to_string(),
            value: "[1] ADD".to_string(),
            reason: CommandParseFailure::MissingArgs {
                position: 0,
                missing_arg_name: "user_id",
            },
        })
    )
}

#[test]
fn test_parse_add_line_failure_4() {
    let command = LoadTestCommand::try_from_line("[1] ADD,oY01WVirLr,a");
    assert_eq!(
        command,
        Err(ParseLoadTestCommandError::CommandParseFailure {
            command: "ADD".to_string(),
            value: "[1] ADD,oY01WVirLr,a".to_string(),
            reason: CommandParseFailure::FloatParseError {
                arg_name: "amount",
                value: "a".to_string(),
            },
        })
    )
}

#[test]
fn parse_dump_log_file() {
    assert_eq!(
        Ok(LoadTestCommand::DumpLogFileName(LoadTestDumpLogFileName {
            file_name: "abc.xml".to_string(),
            request_num: 1,
        })),
        LoadTestCommand::try_from_line("[1] DUMPLOG,abc.xml")
    );
}

#[test]
fn parse_dump_log_user_file() {
    assert_eq!(
        Ok(LoadTestCommand::DumpLogUser(LoadTestDumpLogUserIdFileName {
            user_id: "hello".to_string(),
            file_name: "abc.xml".to_string(),
            request_num: 1,
        })),
        LoadTestCommand::try_from_line("[1] DUMPLOG,hello,abc.xml")
    );
}

#[test]
fn parse_buy_line() {
    let command = LoadTestCommand::try_from_line("[7] BUY,marcus,AAPL,200");
    match command {
        Ok(LoadTestCommand::Buy(c)) => {
            assert_eq!(c.user_id, "marcus");
            assert_eq!(c.stock_symbol, "AAPL");
            assert_eq!(c.amount, 20000);
            assert_eq!(c.request_num, 7);
        }
        other => panic!("expected a buy command, got {other:?}"),
    }
}

#[test]
fn parse_too_many_arguments() {
    let command = LoadTestCommand::try_from_line("[1] COMMIT_BUY,marcus,extra");
    assert_eq!(
        command,
        Err(ParseLoadTestCommandError::CommandParseFailure {
            command: "COMMIT_BUY".to_string(),
            value: "[1] COMMIT_BUY,marcus,extra".to_string(),
            reason: CommandParseFailure::TooManyArguments {
                expected_count: 1,
                unexpected_arg: "extra".to_string(),
            },
        })
    )
}

#[test]
fn parse_bad_request_number() {
    let command = LoadTestCommand::try_from_line("[x] ADD,marcus,1");
    assert_eq!(
        command,
        Err(ParseLoadTestCommandError::InvalidRequestNum {
            value: "[x]".to_string()
        })
    )
}

#[test]
fn command_user_is_the_first_field() {
    let command = LoadTestCommand::try_from_line("[1] QUOTE,daws,TSLA").unwrap();
    assert_eq!(command.user(), Some("daws".to_string()));
    let dump = LoadTestCommand::try_from_line("[1] DUMPLOG,out.xml").unwrap();
    assert_eq!(dump.user(), None);
}

#[test]
fn money_grammar_examples() {
    assert_eq!(parse_cents("63511.53"), Some(6351153));
    assert_eq!(parse_cents("100"), Some(10000));
    assert_eq!(parse_cents("0.5"), Some(50));
    assert_eq!(parse_cents("0.05"), Some(5));
    assert_eq!(parse_cents(""), None);
    assert_eq!(parse_cents("1.234"), None);
    assert_eq!(parse_cents(".5"), None);
    assert_eq!(parse_cents("1."), None);
    assert_eq!(parse_cents("a"), None);
    assert_eq!(parse_u64("1699999999999"), Some(1699999999999));
    assert_eq!(parse_u64("12x"), None);
}

#[test]
fn money_print_parse_round_trip() {
    assert_eq!(u64_to_string(123), "123".to_string());
    assert_eq!(u64_to_string(0), "0".to_string());
    assert_eq!(parse_cents(&u64_to_string(123)), Some(12300));
}
