use clia::error::ClError;
use clia::option_args::{ClOption, ClOptionInfo};
use clia::parameter_args::ClParameter;
use clia::Parser;

fn line(items: &[&str]) -> Vec<String> {
    items.iter().map(|item| item.to_string()).collect()
}

fn options() -> Vec<ClOption> {
    vec![
        ClOption::new_flag(
            &ClOptionInfo::new("-r", "--recursive", "Search through subdirectories").unwrap(),
        ),
        ClOption::new_flag_list(
            &ClOptionInfo::new(
                "-f",
                "--filter",
                "Comma separated list of extensions, will only count lines of files with these extensions",
            )
            .unwrap(),
            "EXTENSIONS",
        ),
        ClOption::new_flag_list(
            &ClOptionInfo::new(
                "-F",
                "--format",
                "Format the output in a list, valid formats are: DEFAULT, BULLET, MARKDOWN, and NUMERIC",
            )
            .unwrap(),
            "FORMAT",
        ),
        ClOption::new_flag(&ClOptionInfo::new("-h", "--help", "Show help").unwrap()),
    ]
}

fn parameters() -> Vec<ClParameter> {
    vec![
        ClParameter::new("PATH", "Path to search in"),
        ClParameter::new(
            "QUERY",
            "String to search for, all the stuff after the path wrap in \"'s if it contains spaces",
        ),
    ]
}

#[test]
fn parser_keeps_the_option_declarations() {
    let args = line(&["path/to/executable/", "-h"]);
    let valid_options = options();
    let parser = Parser::new(&args, &valid_options, &[]).unwrap();
    assert_eq!(parser.get_valid_options(), &valid_options);
    assert_eq!(parser.get_expected_parameters(), &Vec::new());
    assert_eq!(parser.get_parameter_arguments_found(), &Vec::new());
}

#[test]
fn parser_keeps_the_parameter_declarations() {
    let args = line(&["path/to/executable/", "path/to/search", "thing to search for"]);
    let expected_parameters = parameters();
    let parser = Parser::new(&args, &[], &expected_parameters).unwrap();
    assert_eq!(parser.get_expected_parameters(), &expected_parameters);
    assert_eq!(parser.get_valid_options(), &Vec::new());
    assert_eq!(parser.get_option_arguments_found(), &Vec::new());
}

#[test]
fn parser_finds_the_help_flag() {
    let args = line(&["path/to/executable/", "-h"]);
    let parser = Parser::new(&args, &options(), &[]).unwrap();
    let present: Vec<&ClOption> = parser
        .get_option_arguments_found()
        .iter()
        .filter(|option| option.get_present())
        .collect();
    assert_eq!(present.len(), 1);
    assert_eq!(present[0].get_info(), &ClOptionInfo::new("-h", "--help", "Show help").unwrap());
}

#[test]
fn parser_finds_a_flag() {
    let flag = ClOption::new_flag(
        &ClOptionInfo::new("-r", "--recursive", "Search through subdirectories recursively")
            .unwrap(),
    );
    let args = line(&["path/to/executable/", "-r"]);
    assert_eq!(flag.get_present(), false);
    let parser = Parser::new(&args, &vec![flag.clone()], &[]).unwrap();
    assert!(parser.get_option_arguments_found()[0].get_present());
}

#[test]
fn parser_finds_a_list() {
    let list = ClOption::new_flag_list(
        &ClOptionInfo::new("-l", "--look-for", "Comma separated list of strings to look for")
            .unwrap(),
        "LIST",
    );
    let args = line(&["path/to/executable/", "-l", "a,list,of,stuff"]);
    assert!(list.get_list().unwrap().is_empty());
    let parser = Parser::new(&args, &vec![list.clone()], &[]).unwrap();
    assert_eq!(
        parser.get_option_arguments_found()[0].get_list(),
        Some(&line(&["a", "list", "of", "stuff"]))
    );
}

#[test]
fn parser_finds_a_value() {
    let data = ClOption::new_flag_data(
        &ClOptionInfo::new(
            "-f",
            "--format",
            "Format to print output in, valid formats are: DEFAULT, BULLET, and NUMERIC",
        )
        .unwrap(),
        "FORMAT",
    );
    let args = line(&["path/to/executable/", "-f", "DEFAULT"]);
    assert_eq!(data.get_data().unwrap(), &String::new());
    let parser = Parser::new(&args, &vec![data.clone()], &[]).unwrap();
    assert_eq!(
        parser.get_option_arguments_found()[0].get_data(),
        Some(&String::from("DEFAULT"))
    );
}

#[test]
fn parser_binds_the_parameters() {
    let args = line(&["path/to/executable/", "path/to/search", "thing to search for"]);
    let parser = Parser::new(&args, &[], &parameters()).unwrap();
    let values: Vec<&str> = parser
        .get_parameter_arguments_found()
        .iter()
        .map(|parameter| parameter.get_data())
        .collect();
    assert_eq!(values, vec!["path/to/search", "thing to search for"]);
}

#[test]
fn parser_scans_options_and_parameters_together() {
    let args = line(&["prog", "-r", "--filter", "rs,toml", "/tmp", "needle"]);
    let parser = Parser::new(&args, &options(), &parameters()).unwrap();
    let found = parser.get_option_arguments_found();
    assert_eq!(found[0].get_present(), true);
    assert_eq!(found[1].get_list(), Some(&line(&["rs", "toml"])));
    assert_eq!(found[2].get_present(), false);
    assert_eq!(found[3].get_present(), false);
    let bound = parser.get_parameter_arguments_found();
    assert_eq!(bound[0].get_data(), "/tmp");
    assert_eq!(bound[1].get_data(), "needle");
    assert_eq!(parser.get_valid_options(), &options());
    assert_eq!(parser.get_expected_parameters(), &parameters());
}

#[test]
fn parser_reports_the_options_first() {
    let args = line(&["prog", "--bogus"]);
    assert_eq!(
        Parser::new(&args, &options(), &parameters()).unwrap_err(),
        ClError::UnrecognizedFlag { flag: "--bogus".to_string() }
    );
}

#[test]
fn parser_reports_missing_parameters() {
    let args = line(&["prog", "/tmp"]);
    assert_eq!(
        Parser::new(&args, &options(), &parameters()).unwrap_err(),
        ClError::TooFewArguments
    );
}

#[test]
fn help_text_of_a_program() {
    let valid_options = vec![
        ClOption::new_flag(
            &ClOptionInfo::new("-r", "--recursive", "Search through subdirectories").unwrap(),
        ),
        ClOption::new_flag_data(
            &ClOptionInfo::new("-F", "--format", "Output format").unwrap(),
            "format",
        ),
    ];
    let expected_parameters = vec![
        ClParameter::new("PATH", "Path to search in"),
        ClParameter::new("QUERY", "String to search for"),
    ];
    let expected = [
        "foo.exe",
        "by Someone",
        "",
        "Just here as an example",
        "",
        "USAGE: foo.exe [OPTIONS]... [PATH] [QUERY] ",
        "",
        "OPTIONS:",
        "    -r, --recursive                   Search through subdirectories",
        "    -F, --format <FORMAT>             Output format",
        "",
        "PARAMETER ARGUMENTS:",
        "    PATH:",
        "        Path to search in",
        "    QUERY:",
        "        String to search for",
        "",
    ]
    .join("\n");
    assert_eq!(
        Parser::help(
            "foo.exe",
            "by Someone",
            "Just here as an example",
            &valid_options,
            &expected_parameters
        ),
        expected
    );
}

#[test]
fn help_text_without_declarations() {
    assert_eq!(
        Parser::help("t", "a", "d", &[], &[]),
        "t\na\n\nd\n\nUSAGE: t [OPTIONS]... \n\nOPTIONS:\n\nPARAMETER ARGUMENTS:\n"
    );
}
