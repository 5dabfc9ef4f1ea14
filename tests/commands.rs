use mokuba::command::{Command, Save};
use mokuba::executable::Execute as RunCommand;
use mokuba::mstd::cmd::{Argument, Execute, Input, Parse, HELP};
use mokuba::mstd::cmds::{validate, Generate, Help};
use mokuba::mstd::error::ErrorCode;
use mokuba::mstd::{deserialize, matcher};

fn input(arg: &str, params: &[(&str, &str)]) -> Input {
    Input::new(
        arg.to_string(),
        params
            .iter()
            .map(|(k, v)| (k.to_string(), v.to_string()))
            .collect(),
    )
}

#[test]
fn test_prepare_input_is_ok() {
    let input = "generate --password --url www.google.com --username test";
    let command = deserialize(input);

    assert!(command.is_ok());
    assert_eq!(command.as_ref().unwrap().arg, "generate");
    assert_eq!(
        command.as_ref().unwrap().get("--password").unwrap(),
        ""
    );
    assert_eq!(
        command.as_ref().unwrap().get("--url").unwrap(),
        "www.google.com"
    );
    assert_eq!(command.unwrap().get("--username").unwrap(), "test");
}

#[test]
fn test_prepare_input_is_err_when_input_is_empty() {
    let input = "";
    let command = deserialize(input);

    assert!(command.is_err());
}

#[test]
fn test_matcher_is_ok() {
    let input = input("generate", &[("--password", ""), ("--username", "test")]);
    let command = matcher(&input);
    println!("{:?}", command);

    assert!(command.is_ok());
    assert_eq!(command.unwrap().len(), 16);
}

#[test]
fn test_matcher_is_err_when_input_is_empty() {
    let input = input("", &[("--password", ""), ("--username", "test")]);
    let command = matcher(&input);
    println!("{:?}", command);

    assert!(command.is_err());
}

#[test]
fn deserialize_keeps_the_last_value_of_a_flag() {
    let parsed = deserialize("  cmd stray -a 1 2 -b -a 3\t").unwrap();
    assert_eq!(parsed.arg, "cmd");
    assert_eq!(parsed.get("-a").unwrap(), "3");
    assert_eq!(parsed.get("-b").unwrap(), "");
    assert_eq!(parsed.get("stray"), None);
    assert_eq!(parsed.params.len(), 2);
    assert_eq!(deserialize(" \n ").unwrap_err(), "No command was provided");
}

#[test]
fn matcher_generates_the_length_asked_for() {
    let out = matcher(&input("generate", &[("-p", "24"), ("-u", "me")])).unwrap();
    assert_eq!(out.chars().count(), 24);
    assert!(out.chars().all(|c| ('0'..'z').contains(&c)));
    let zero = matcher(&input("generate", &[("--password", "0"), ("--username", "me")]));
    assert_eq!(zero.unwrap_err(), "Length must be greater than 0");
}

#[test]
fn matcher_reports_unknown_commands_and_flags() {
    assert_eq!(matcher(&input("dance", &[])).unwrap_err(), "Command dance not found");
    assert_eq!(
        matcher(&input("generate", &[("--color", "red")])).unwrap_err(),
        "Invalid flag provided: --color"
    );
    let no_user = matcher(&input("generate", &[("-p", "8")]));
    assert!(no_user.is_err());
}

#[test]
fn validate_names_the_problem() {
    let e = validate(&Generate, &input("", &[])).unwrap_err();
    assert_eq!(e.code, ErrorCode::UnableToParseInputToT);
    assert_eq!(e.cause, "No argument provided");
    let e = validate(&Generate, &input("help", &[])).unwrap_err();
    assert_eq!(e.cause, "Invalid argument: help");
    let e = validate(&Generate, &input("generate", &[("-p", "1"), ("-x", "")])).unwrap_err();
    assert_eq!(e.cause, "Invalid flag provided: -x");
    assert!(validate(&Generate, &input("generate", &[("-u", "a"), ("--password", "3")])).is_ok());
    assert!(validate(&Help, &input("help", &[("-anything", "")])).is_ok());
}

#[test]
fn generate_parses_its_flags() {
    let p = Generate.parse(&input("generate", &[("-p", "12"), ("--username", "bob")])).unwrap();
    assert_eq!(p.length, 12);
    assert_eq!(p.username, Some("bob".to_string()));
    let p = Generate.parse(&input("generate", &[("-p", "x"), ("-u", "bob")])).unwrap();
    assert_eq!(p.length, 16);
    assert_eq!(p.username, None);
    assert!(Generate.parse(&input("generate", &[("-p", "5")])).is_err());
}

#[test]
fn commands_describe_themselves() {
    assert_eq!(Generate.short(), 'g');
    assert_eq!(Generate.argument(), "generate");
    assert!(Generate::is_valid_flag("--username"));
    assert!(!Generate::is_valid_flag("--url"));
    assert!(Generate.description().starts_with("g generate: Generate a password"));
    assert!(Generate.description().ends_with("Usage: generate --password Optional<{} --username <<{}>>>"));
    assert_eq!(Help.short(), 'h');
    assert_eq!(Help.argument(), "help");
    assert_eq!(Help.description(), "Show this help message");
    assert!(Help.parse(&input("anything", &[])).is_ok());
    assert_eq!(Help.execute(None).unwrap(), HELP);
    assert_eq!(Generate.execute(None).unwrap().len(), 16);
}

#[test]
fn command_line_flags_parse() {
    assert_eq!(Command::parse("-h"), Ok(Command::Help));
    assert_eq!(Command::parse(" -v "), Ok(Command::Version));
    assert_eq!(Command::parse("-p 16"), Ok(Command::Password(16)));
    assert!(matches!(Command::parse("-p x"), Ok(Command::Unknown(_, None))));
    assert_eq!(
        Command::parse("-s ann pw example.org"),
        Ok(Command::Save(Save::new(
            "ann".to_string(),
            "pw".to_string(),
            "example.org".to_string()
        )))
    );
    assert!(matches!(Command::parse("-s"), Ok(Command::Unknown(_, Some(l))) if l == "-s"));
    assert!(matches!(Command::parse("-s ann"), Ok(Command::Unknown(_, None))));
    assert_eq!(
        Command::parse("hello there"),
        Ok(Command::Unknown("hello there".to_string(), Some("there".to_string())))
    );
    assert_eq!(
        Command::parse(""),
        Ok(Command::Unknown("".to_string(), None))
    );
}

#[test]
fn commands_run() {
    assert_eq!(Command::Help.execute().unwrap(), HELP);
    assert_eq!(Command::Version.execute().unwrap(), "mokuba version: 0.1.0\n");
    let out = Command::Password(5).execute().unwrap();
    assert!(out.starts_with("Password generated with length 5: '"));
    assert!(out.ends_with("'\n"));
    assert_eq!(out.len(), "Password generated with length 5: ''\n".len() + 5);
    assert_eq!(Command::Password(0).execute().unwrap_err(), "Length must be greater than 0");
    assert_eq!(
        Command::Save(Save::new("u".to_string(), "p".to_string(), "w".to_string()))
            .execute()
            .unwrap(),
        "User: u, password: p, url: w\n saved successfully\n"
    );
    assert_eq!(
        Command::Unknown("what".to_string(), Some("now".to_string())).execute().unwrap_err(),
        "Unknown command: what now"
    );
    assert_eq!(
        Command::Unknown("what".to_string(), None).execute().unwrap_err(),
        "Unknown command: what "
    );
}
