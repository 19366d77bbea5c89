use clia::error::ClError;
use clia::option_args::{ClOption, ClOptionInfo};
use clia::option_parser::{get_data_after_flag, get_list_after_flag, parse_for_options};

fn tokens(items: &[&str]) -> Vec<String> {
    items.iter().map(|item| item.to_string()).collect()
}

fn declared(short_flag: &str, long_flag: &str) -> ClOptionInfo {
    ClOptionInfo::new(short_flag, long_flag, "described").unwrap()
}

fn declarations() -> Vec<ClOption> {
    vec![
        ClOption::new_flag(&declared("-r", "--recursive")),
        ClOption::new_flag_list(&declared("-f", "--filter"), "EXTENSIONS"),
        ClOption::new_flag_data(&declared("-F", "--format"), "FORMAT"),
        ClOption::new_flag(&declared("-h", "--help")),
    ]
}

#[test]
fn list_is_split_at_commas() {
    let args = tokens(&["--f", "a,b,c", "x"]);
    assert_eq!(get_list_after_flag(&args, "--f"), Ok(tokens(&["a", "b", "c"])));
}

#[test]
fn list_is_split_at_blanks() {
    let args = tokens(&["--f", "a b c", "x"]);
    assert_eq!(get_list_after_flag(&args, "--f"), Ok(tokens(&["a", "b", "c"])));
}

#[test]
fn list_with_blanks_and_commas_is_split_at_blanks_only() {
    let args = tokens(&["--f", "a,b c", "x"]);
    assert_eq!(get_list_after_flag(&args, "--f"), Ok(tokens(&["a,b", "c"])));
}

#[test]
fn empty_items_are_left_out() {
    assert_eq!(
        get_list_after_flag(&tokens(&["--f", ",a,,b,"]), "--f"),
        Ok(tokens(&["a", "b"]))
    );
    assert_eq!(
        get_list_after_flag(&tokens(&["--f", "  a  b "]), "--f"),
        Ok(tokens(&["a", "b"]))
    );
    assert_eq!(get_list_after_flag(&tokens(&["--f", ",,"]), "--f"), Ok(Vec::new()));
    assert_eq!(get_list_after_flag(&tokens(&["--f", " "]), "--f"), Ok(Vec::new()));
    assert_eq!(get_list_after_flag(&tokens(&["--f", ""]), "--f"), Ok(Vec::new()));
}

#[test]
fn list_of_one_item() {
    assert_eq!(
        get_list_after_flag(&tokens(&["--f", "single"]), "--f"),
        Ok(tokens(&["single"]))
    );
}

#[test]
fn list_items_may_hold_any_letters() {
    assert_eq!(
        get_list_after_flag(&tokens(&["--f", "größe,日本語,x-y"]), "--f"),
        Ok(tokens(&["größe", "日本語", "x-y"]))
    );
}

#[test]
fn flag_at_end_has_no_arguments() {
    let args = tokens(&["x", "--f"]);
    let expected =
        ClError::NoArgumentsAfterFlag { flag: "--f".to_string(), args: args.clone() };
    assert_eq!(get_list_after_flag(&args, "--f"), Err(expected));
    let expected =
        ClError::NoArgumentsAfterFlag { flag: "--f".to_string(), args: args.clone() };
    assert_eq!(get_data_after_flag(&args, "--f"), Err(expected));
}

#[test]
fn payload_that_looks_like_a_flag_is_no_payload() {
    let args = tokens(&["--f", "--g"]);
    let expected = ClError::NoPayloadAfterFlag { flag: "--f".to_string(), args: args.clone() };
    assert_eq!(get_list_after_flag(&args, "--f"), Err(expected));
    let expected = ClError::NoPayloadAfterFlag { flag: "--f".to_string(), args: args.clone() };
    assert_eq!(get_data_after_flag(&args, "--f"), Err(expected));
}

#[test]
fn flag_that_is_absent_is_not_found() {
    let args = tokens(&["x", "y"]);
    let expected = ClError::FlagNotFound { flag: "--f".to_string(), args: args.clone() };
    assert_eq!(get_list_after_flag(&args, "--f"), Err(expected));
    let expected = ClError::FlagNotFound { flag: "--f".to_string(), args: Vec::new() };
    assert_eq!(get_data_after_flag(&[], "--f"), Err(expected));
}

#[test]
fn list_errors_read_as_sentences() {
    let flag = "--your-flag";
    let missing_flag = tokens(&["--not-your-flag", "your,list", "NotYourList"]);
    let missing_list = tokens(&["--your-flag", "--not-your-flag", "NotYourList"]);
    let flag_at_end = tokens(&["NotYourList", "your,list", "--your-flag"]);
    assert_eq!(
        get_list_after_flag(&missing_flag, flag).unwrap_err().message(),
        "Could not find flag(--your-flag) in args([\"--not-your-flag\", \"your,list\", \"NotYourList\"])"
    );
    assert_eq!(
        get_list_after_flag(&missing_list, flag).unwrap_err().message(),
        "No list found after flag(--your-flag) in args([\"--your-flag\", \"--not-your-flag\", \"NotYourList\"])"
    );
    assert_eq!(
        get_list_after_flag(&flag_at_end, flag).unwrap_err().message(),
        "No arguments after flag(--your-flag) in args([\"NotYourList\", \"your,list\", \"--your-flag\"])"
    );
}

#[test]
fn list_follows_the_flag_whatever_it_is() {
    let flag = "--your-flag";
    let comma_separated = tokens(&["--your-flag", "your,list", "NotYourList"]);
    let space_separated = tokens(&["--your-flag", "your list", "NotYourList"]);
    let wrong_list = tokens(&["--your-flag", "NotYourList", "your,list"]);
    assert_eq!(get_list_after_flag(&comma_separated, flag), Ok(tokens(&["your", "list"])));
    assert_eq!(get_list_after_flag(&space_separated, flag), Ok(tokens(&["your", "list"])));
    assert_eq!(get_list_after_flag(&wrong_list, flag), Ok(tokens(&["NotYourList"])));
}

#[test]
fn data_errors_read_as_sentences() {
    let flag = "--your-flag";
    let missing_flag = tokens(&["--not-your-flag", "your-data", "Not,Your,Data"]);
    let missing_data = tokens(&["--your-flag", "--not-your-flag", "Not,Your,Data"]);
    let flag_at_end = tokens(&["Not,Your,Data", "your-data", "--your-flag"]);
    assert_eq!(
        get_data_after_flag(&missing_flag, flag).unwrap_err().message(),
        "Could not find flag(--your-flag) in args([\"--not-your-flag\", \"your-data\", \"Not,Your,Data\"])"
    );
    assert_eq!(
        get_data_after_flag(&missing_data, flag).unwrap_err().message(),
        "No list found after flag(--your-flag) in args([\"--your-flag\", \"--not-your-flag\", \"Not,Your,Data\"])"
    );
    assert_eq!(
        get_data_after_flag(&flag_at_end, flag).unwrap_err().message(),
        "No arguments after flag(--your-flag) in args([\"Not,Your,Data\", \"your-data\", \"--your-flag\"])"
    );
}

#[test]
fn data_is_the_next_token_as_it_stands() {
    let flag = "--your-flag";
    let args = tokens(&["--your-flag", "your-data", "--not-your-flag"]);
    let wrong_data = tokens(&["--your-flag", "Not,Your,Data", "your-data"]);
    assert_eq!(get_data_after_flag(&args, flag), Ok("your-data".to_string()));
    assert_eq!(get_data_after_flag(&wrong_data, flag), Ok("Not,Your,Data".to_string()));
    assert_eq!(
        get_data_after_flag(&tokens(&["--your-flag", "a b,c"]), flag),
        Ok("a b,c".to_string())
    );
    assert_eq!(get_data_after_flag(&tokens(&["--your-flag", ""]), flag), Ok(String::new()));
}

#[test]
fn payload_follows_the_first_occurrence() {
    let args = tokens(&["--f", "first", "--f", "second"]);
    assert_eq!(get_data_after_flag(&args, "--f"), Ok("first".to_string()));
    let args = tokens(&["--f", "--f", "second"]);
    assert!(matches!(
        get_data_after_flag(&args, "--f"),
        Err(ClError::NoPayloadAfterFlag { .. })
    ));
}

#[test]
fn token_list_in_a_message_is_escaped() {
    let args = tokens(&["say \"hi\"", "--f"]);
    assert_eq!(
        get_data_after_flag(&args, "--f").unwrap_err().message(),
        "No arguments after flag(--f) in args([\"say \\\"hi\\\"\", \"--f\"])"
    );
}

#[test]
fn message_can_take_another_listing() {
    let error = ClError::FlagNotFound { flag: "--f".to_string(), args: tokens(&["x"]) };
    assert_eq!(
        error.message_with_listing("one token"),
        "Could not find flag(--f) in args(one token)"
    );
    assert_eq!(error.message(), "Could not find flag(--f) in args([\"x\"])");
    assert_eq!(
        ClError::TooFewArguments.message_with_listing("one token"),
        ClError::TooFewArguments.message()
    );
}

#[test]
fn unrecognized_flag_is_rejected() {
    let args = tokens(&["prog", "--bogus"]);
    let found = parse_for_options(&args, &declarations());
    assert_eq!(found, Err(ClError::UnrecognizedFlag { flag: "--bogus".to_string() }));
    assert_eq!(
        found.unwrap_err().message(),
        "User Error: One or more invalid flags given."
    );
}

#[test]
fn first_unrecognized_flag_is_reported() {
    let args = tokens(&["prog", "-r", "--bogus", "-x"]);
    assert_eq!(
        parse_for_options(&args, &declarations()),
        Err(ClError::UnrecognizedFlag { flag: "--bogus".to_string() })
    );
}

#[test]
fn unrecognized_flag_comes_before_a_missing_payload() {
    let args = tokens(&["prog", "-f", "--bogus"]);
    assert_eq!(
        parse_for_options(&args, &declarations()),
        Err(ClError::UnrecognizedFlag { flag: "--bogus".to_string() })
    );
}

#[test]
fn any_token_with_a_hyphen_in_front_is_a_flag() {
    assert_eq!(
        parse_for_options(&tokens(&["prog", "-5"]), &declarations()),
        Err(ClError::UnrecognizedFlag { flag: "-5".to_string() })
    );
    assert_eq!(
        parse_for_options(&tokens(&["prog", "-"]), &declarations()),
        Err(ClError::UnrecognizedFlag { flag: "-".to_string() })
    );
    assert_eq!(
        parse_for_options(&tokens(&["prog", "-rf"]), &declarations()),
        Err(ClError::UnrecognizedFlag { flag: "-rf".to_string() })
    );
}

#[test]
fn program_name_is_never_a_flag() {
    assert_eq!(parse_for_options(&tokens(&["-prog"]), &declarations()), Ok(declarations()));
    assert_eq!(parse_for_options(&tokens(&["--bogus"]), &declarations()), Ok(declarations()));
    assert_eq!(
        parse_for_options(&tokens(&["-bash", "-r"]), &declarations()).unwrap()[0].get_present(),
        true
    );
}

#[test]
fn lone_undeclared_flag_in_the_name_slot_is_accepted() {
    let options =
        vec![ClOption::new_flag(&ClOptionInfo::new("-r", "--recursive", "d").unwrap())];
    let found = parse_for_options(&tokens(&["--bogus"]), &options).unwrap();
    assert_eq!(found.len(), 1);
    assert_eq!(found[0].get_present(), false);
}

#[test]
fn declared_flag_in_the_name_slot_is_not_given() {
    let found = parse_for_options(&tokens(&["-r"]), &declarations()).unwrap();
    assert_eq!(found[0].get_present(), false);
    let found = parse_for_options(&tokens(&["--help", "x"]), &declarations()).unwrap();
    assert_eq!(found[3].get_present(), false);
}

#[test]
fn value_flag_in_the_name_slot_is_not_given() {
    let options = vec![ClOption::new_flag_data(&declared("-f", "--file"), "FILE")];
    let found = parse_for_options(&tokens(&["-f", "x"]), &options).unwrap();
    assert_eq!(found[0].get_present(), false);
    assert_eq!(found[0].get_data(), Some(&String::new()));
    // without a payload behind it, the name slot still fails nothing
    assert_eq!(parse_for_options(&tokens(&["-f"]), &options), Ok(options.clone()));
}

#[test]
fn undeclared_flag_behind_the_name_is_rejected_whatever_the_name() {
    assert_eq!(
        parse_for_options(&tokens(&["-r", "--bogus"]), &declarations()),
        Err(ClError::UnrecognizedFlag { flag: "--bogus".to_string() })
    );
}

#[test]
fn payload_is_looked_for_from_the_first_token_on() {
    // the flag is given behind the name; its first occurrence is the name itself
    let options = vec![ClOption::new_flag_data(&declared("-f", "--file"), "FILE")];
    let found = parse_for_options(&tokens(&["-f", "first", "-f", "second"]), &options).unwrap();
    assert_eq!(found[0].get_present(), true);
    assert_eq!(found[0].get_data(), Some(&"first".to_string()));
}

#[test]
fn nothing_declared_and_nothing_given() {
    assert_eq!(parse_for_options(&tokens(&["prog", "x"]), &[]), Ok(Vec::new()));
    assert_eq!(parse_for_options(&[], &[]), Ok(Vec::new()));
}

#[test]
fn no_flag_given_leaves_every_option_absent() {
    let found = parse_for_options(&tokens(&["prog", "path", "query"]), &declarations());
    assert_eq!(found, Ok(declarations()));
    assert_eq!(parse_for_options(&[], &declarations()), Ok(declarations()));
}

#[test]
fn flags_are_found_by_either_name() {
    let found = parse_for_options(&tokens(&["prog", "-r", "--help"]), &declarations()).unwrap();
    assert_eq!(found.len(), 4);
    assert_eq!(found[0].get_present(), true);
    assert_eq!(found[1].get_present(), false);
    assert_eq!(found[2].get_present(), false);
    assert_eq!(found[3].get_present(), true);
    assert_eq!(found[0], ClOption::Flag { present: true, info: declared("-r", "--recursive") });
}

#[test]
fn list_and_value_are_taken_from_behind_their_flags() {
    let args = tokens(&["prog", "--filter", "rs,toml", "-F", "NUMERIC", "path"]);
    let found = parse_for_options(&args, &declarations()).unwrap();
    assert_eq!(
        found,
        vec![
            ClOption::Flag { present: false, info: declared("-r", "--recursive") },
            ClOption::FlagList {
                present: true,
                list_name: "EXTENSIONS".to_string(),
                list: tokens(&["rs", "toml"]),
                info: declared("-f", "--filter"),
            },
            ClOption::FlagData {
                present: true,
                data_name: "FORMAT".to_string(),
                data: "NUMERIC".to_string(),
                info: declared("-F", "--format"),
            },
            ClOption::Flag { present: false, info: declared("-h", "--help") },
        ]
    );
    assert_eq!(found[1].get_list(), Some(&tokens(&["rs", "toml"])));
    assert_eq!(found[2].get_data(), Some(&"NUMERIC".to_string()));
}

#[test]
fn short_flag_wins_over_long_flag() {
    let args = tokens(&["prog", "--filter", "long,list", "-f", "short,list", "--format", "LONG", "-F", "SHORT"]);
    let found = parse_for_options(&args, &declarations()).unwrap();
    assert_eq!(found[1].get_list(), Some(&tokens(&["short", "list"])));
    assert_eq!(found[2].get_data(), Some(&"SHORT".to_string()));
}

#[test]
fn flag_without_payload_fails_the_scan() {
    let args = tokens(&["prog", "-r", "-f"]);
    assert_eq!(
        parse_for_options(&args, &declarations()),
        Err(ClError::NoArgumentsAfterFlag { flag: "-f".to_string(), args: args.clone() })
    );
    let args = tokens(&["prog", "--format", "-r"]);
    assert_eq!(
        parse_for_options(&args, &declarations()),
        Err(ClError::NoPayloadAfterFlag { flag: "--format".to_string(), args: args.clone() })
    );
}

#[test]
fn first_declaration_that_fails_gives_the_error() {
    // both the list and the value lack a payload; the list is declared first
    let args = tokens(&["prog", "-F", "-f"]);
    assert_eq!(
        parse_for_options(&args, &declarations()),
        Err(ClError::NoArgumentsAfterFlag { flag: "-f".to_string(), args: args.clone() })
    );
}

#[test]
fn payload_of_an_absent_option_is_kept() {
    let template = vec![
        ClOption::FlagList {
            present: true,
            list_name: "EXTENSIONS".to_string(),
            list: tokens(&["kept"]),
            info: declared("-f", "--filter"),
        },
        ClOption::FlagData {
            present: true,
            data_name: "FORMAT".to_string(),
            data: "kept".to_string(),
            info: declared("-F", "--format"),
        },
        ClOption::Flag { present: true, info: declared("-r", "--recursive") },
    ];
    let found = parse_for_options(&tokens(&["prog"]), &template).unwrap();
    assert_eq!(found[0].get_present(), false);
    assert_eq!(found[0].get_list(), Some(&tokens(&["kept"])));
    assert_eq!(found[1].get_present(), false);
    assert_eq!(found[1].get_data(), Some(&"kept".to_string()));
    assert_eq!(found[2].get_present(), false);
}

#[test]
fn option_with_one_flag_only() {
    let options = vec![
        ClOption::new_flag(&declared("", "--verbose")),
        ClOption::new_flag_data(&declared("-o", ""), "FILE"),
    ];
    let found = parse_for_options(&tokens(&["prog", "", "-o", "out.txt"]), &options).unwrap();
    assert_eq!(found[0].get_present(), false);
    assert_eq!(found[1].get_data(), Some(&"out.txt".to_string()));
    let found = parse_for_options(&tokens(&["prog", "--verbose"]), &options).unwrap();
    assert_eq!(found[0].get_present(), true);
    assert_eq!(found[1].get_present(), false);
}

#[test]
fn scanning_twice_gives_equal_results() {
    let args = tokens(&["prog", "-r", "-f", "a b", "--format", "BULLET"]);
    let options = declarations();
    assert_eq!(parse_for_options(&args, &options), parse_for_options(&args, &options));
    let args = tokens(&["prog", "-f"]);
    assert_eq!(parse_for_options(&args, &options), parse_for_options(&args, &options));
}

#[test]
fn scanning_what_was_found_changes_nothing() {
    let args = tokens(&["prog", "-r", "-f", "a b", "--format", "BULLET"]);
    let found = parse_for_options(&args, &declarations()).unwrap();
    assert_eq!(parse_for_options(&args, &found), Ok(found.clone()));
}

#[test]
fn declarations_are_left_as_they_were() {
    let args = tokens(&["prog", "-r", "-f", "a b", "--format", "BULLET"]);
    let options = declarations();
    let found = parse_for_options(&args, &options).unwrap();
    assert_eq!(options, declarations());
    assert_ne!(found, options);
    for option in options.iter() {
        assert_eq!(option.get_present(), false);
    }
    assert_eq!(options[1].get_list(), Some(&Vec::new()));
    assert_eq!(options[2].get_data(), Some(&String::new()));
}
