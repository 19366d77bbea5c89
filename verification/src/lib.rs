//! Declaring and scanning command-line arguments.
//!
//! Two groups of arguments are known. Options are introduced by a flag, a
//! token that starts with `-`: a plain flag (`-r`), a flag followed by a list
//! (`-f a,b,c`) and a flag followed by one value (`--format NUMERIC`).
//! Parameters are required positional values and stand last on the command
//! line, in the order in which they were declared. The first token of a
//! command line is the program's name: it is no flag and no parameter.
//!
//! Every scanning function is a pure function of the token sequence and the
//! declarations it is given. Its contract says what it returns as a function
//! of the same shape over sequences of characters.

pub mod error;
pub mod option_args;
pub mod option_parser;
pub mod other_args;
pub mod parameter_args;
pub mod parameter_parser;
pub mod text;

use vstd::prelude::*;
use crate::error::{result_view, ClError, ClErrorView};
use crate::option_args::{ClOption, ClOptionView};
use crate::option_parser::{parse_for_options, scan_options};
use crate::parameter_args::{ClParameter, ClParameterView};
use crate::parameter_parser::{parse_for_parameters, scan_parameters};

verus! {

/// A `Parser` over sequences of characters.
pub struct ParserView {
    pub valid_options: Seq<ClOptionView>,
    pub expected_parameters: Seq<ClParameterView>,
    pub option_arguments_found: Seq<ClOptionView>,
    pub parameter_arguments_found: Seq<ClParameterView>,
}

/// What scanning `args` for both the options and the parameters gives: the
/// declarations as they were given and, beside them, their filled-in copies.
/// An error of the options comes before one of the parameters.
pub open spec fn scan(
    args: Seq<Seq<char>>,
    options: Seq<ClOptionView>,
    parameters: Seq<ClParameterView>,
) -> Result<ParserView, ClErrorView> {
    match scan_options(args, options) {
        Err(error) => Err(error),
        Ok(option_arguments_found) => match scan_parameters(args, parameters) {
            Err(error) => Err(error),
            Ok(parameter_arguments_found) => Ok(
                ParserView {
                    valid_options: options,
                    expected_parameters: parameters,
                    option_arguments_found,
                    parameter_arguments_found,
                },
            ),
        },
    }
}

/// The names of `parameters` as the usage line shows them: each in square
/// brackets and followed by a blank.
pub open spec fn usage_of(parameters: Seq<ClParameterView>) -> Seq<char>
    decreases parameters.len(),
{
    if parameters.len() == 0 {
        Seq::empty()
    } else {
        usage_of(parameters.drop_last()) + "["@ + parameters.last().name + "] "@
    }
}

/// The help lines of `options`, each followed by a line break.
pub open spec fn option_lines(options: Seq<ClOptionView>) -> Seq<char>
    decreases options.len(),
{
    if options.len() == 0 {
        Seq::empty()
    } else {
        option_lines(options.drop_last()) + options.last().help_line() + "\n"@
    }
}

/// The help lines of `parameters`, each followed by a line break.
pub open spec fn parameter_lines(parameters: Seq<ClParameterView>) -> Seq<char>
    decreases parameters.len(),
{
    if parameters.len() == 0 {
        Seq::empty()
    } else {
        parameter_lines(parameters.drop_last()) + parameters.last().help_line() + "\n"@
    }
}

/// The help text of a program: its title, its author and its description,
/// the usage line, and the help lines of its options and parameters.
pub open spec fn help_text(
    title: Seq<char>,
    author: Seq<char>,
    program_description: Seq<char>,
    options: Seq<ClOptionView>,
    parameters: Seq<ClParameterView>,
) -> Seq<char> {
    title + "\n"@ + author + "\n\n"@ + program_description + "\n\nUSAGE: "@ + title
        + " [OPTIONS]... "@ + usage_of(parameters) + "\n\nOPTIONS:\n"@ + option_lines(options)
        + "\nPARAMETER ARGUMENTS:\n"@ + parameter_lines(parameters)
}

/// The declarations of a program and what one scan of a token list found for
/// them.
#[derive(Debug)]
pub struct Parser {
    valid_options: Vec<ClOption>,
    expected_parameters: Vec<ClParameter>,
    option_arguments_found: Vec<ClOption>,
    parameter_arguments_found: Vec<ClParameter>,
}

impl View for Parser {
    type V = ParserView;

    closed spec fn view(&self) -> ParserView {
        ParserView {
            valid_options: self.valid_options.deep_view(),
            expected_parameters: self.expected_parameters.deep_view(),
            option_arguments_found: self.option_arguments_found.deep_view(),
            parameter_arguments_found: self.parameter_arguments_found.deep_view(),
        }
    }
}

impl DeepView for Parser {
    type V = ParserView;

    open spec fn deep_view(&self) -> ParserView {
        self@
    }
}

/// A copy of the declarations `options`.
fn copy_options(options: &[ClOption]) -> (copy: Vec<ClOption>)
    ensures
        copy.deep_view() == options.deep_view(),
{
    let mut copy: Vec<ClOption> = Vec::new();
    let mut i: usize = 0;
    while i < options.len()
        invariant
            i <= options.len(),
            copy.len() == i,
            forall|k: int| 0 <= k < i ==> copy[k]@ == options[k]@,
        decreases options.len() - i,
    {
        copy.push(options[i].clone());
        i = i + 1;
    }
    copy
}

/// A copy of the declarations `parameters`.
fn copy_parameters(parameters: &[ClParameter]) -> (copy: Vec<ClParameter>)
    ensures
        copy.deep_view() == parameters.deep_view(),
{
    let mut copy: Vec<ClParameter> = Vec::new();
    let mut i: usize = 0;
    while i < parameters.len()
        invariant
            i <= parameters.len(),
            copy.len() == i,
            forall|k: int| 0 <= k < i ==> copy[k]@ == parameters[k]@,
        decreases parameters.len() - i,
    {
        copy.push(parameters[i].clone());
        i = i + 1;
    }
    copy
}

/// The names of `parameters`, as the usage line shows them.
fn usage(parameters: &[ClParameter]) -> (text: String)
    ensures
        text@ == usage_of(parameters.deep_view()),
{
    let mut text = String::new();
    let mut i: usize = 0;
    while i < parameters.len()
        invariant
            i <= parameters.len(),
            text@ == usage_of(parameters.deep_view().take(i as int)),
        decreases parameters.len() - i,
    {
        assert(parameters.deep_view().take(i + 1).drop_last() =~= parameters.deep_view().take(
            i as int,
        ));
        text.append("[");
        text.append(parameters[i].get_name());
        text.append("] ");
        i = i + 1;
    }
    assert(parameters.deep_view().take(i as int) =~= parameters.deep_view());
    text
}

/// The help lines of `options`, each followed by a line break.
fn help_of_options(options: &[ClOption]) -> (text: String)
    ensures
        text@ == option_lines(options.deep_view()),
{
    let mut text = String::new();
    let mut i: usize = 0;
    while i < options.len()
        invariant
            i <= options.len(),
            text@ == option_lines(options.deep_view().take(i as int)),
        decreases options.len() - i,
    {
        assert(options.deep_view().take(i + 1).drop_last() =~= options.deep_view().take(i as int));
        let line = options[i].gen_help_line();
        text.append(line.as_str());
        text.append("\n");
        i = i + 1;
    }
    assert(options.deep_view().take(i as int) =~= options.deep_view());
    text
}

/// The help lines of `parameters`, each followed by a line break.
fn help_of_parameters(parameters: &[ClParameter]) -> (text: String)
    ensures
        text@ == parameter_lines(parameters.deep_view()),
{
    let mut text = String::new();
    let mut i: usize = 0;
    while i < parameters.len()
        invariant
            i <= parameters.len(),
            text@ == parameter_lines(parameters.deep_view().take(i as int)),
        decreases parameters.len() - i,
    {
        assert(parameters.deep_view().take(i + 1).drop_last() =~= parameters.deep_view().take(
            i as int,
        ));
        let line = parameters[i].gen_help_line();
        text.append(line.as_str());
        text.append("\n");
        i = i + 1;
    }
    assert(parameters.deep_view().take(i as int) =~= parameters.deep_view());
    text
}

impl Parser {
    /// Scans `args` for the options that `valid_options` declares and for the
    /// parameters that `expected_parameters` declares, and keeps both the
    /// declarations and what was found.
    ///
    /// Fails with the error of `parse_for_options` or, where that succeeds,
    /// with the error of `parse_for_parameters`.
    pub fn new(
        args: &[String],
        valid_options: &[ClOption],
        expected_parameters: &[ClParameter],
    ) -> (made: Result<Parser, ClError>)
        ensures
            result_view(made) == scan(
                args.deep_view(),
                valid_options.deep_view(),
                expected_parameters.deep_view(),
            ),
    {
        let option_arguments_found = match parse_for_options(args, valid_options) {
            Ok(options) => options,
            Err(error) => {
                return Err(error);
            },
        };
        let parameter_arguments_found = match parse_for_parameters(args, expected_parameters) {
            Ok(parameters) => parameters,
            Err(error) => {
                return Err(error);
            },
        };
        Ok(
            Parser {
                valid_options: copy_options(valid_options),
                expected_parameters: copy_parameters(expected_parameters),
                option_arguments_found,
                parameter_arguments_found,
            },
        )
    }

    /// The help text of a program, ready to be printed:
    ///
    /// ```text
    /// {title}
    /// {author}
    ///
    /// {program_description}
    ///
    /// USAGE: {title} [OPTIONS]... [{parameter}] [{parameter}]
    ///
    /// OPTIONS:
    /// {the help line of each option}
    ///
    /// PARAMETER ARGUMENTS:
    /// {the help lines of each parameter}
    /// ```
    pub fn help(
        title: &str,
        author: &str,
        program_description: &str,
        valid_options: &[ClOption],
        expected_parameters: &[ClParameter],
    ) -> (text: String)
        ensures
            text@ == help_text(
                title@,
                author@,
                program_description@,
                valid_options.deep_view(),
                expected_parameters.deep_view(),
            ),
    {
        let usage = usage(expected_parameters);
        let option_help = help_of_options(valid_options);
        let parameter_help = help_of_parameters(expected_parameters);
        let mut text = title.to_owned();
        text.append("\n");
        text.append(author);
        text.append("\n\n");
        text.append(program_description);
        text.append("\n\nUSAGE: ");
        text.append(title);
        text.append(" [OPTIONS]... ");
        text.append(usage.as_str());
        text.append("\n\nOPTIONS:\n");
        text.append(option_help.as_str());
        text.append("\nPARAMETER ARGUMENTS:\n");
        text.append(parameter_help.as_str());
        text
    }

    /// The declarations of the options, as they were given to `new`.
    pub fn get_valid_options(&self) -> (options: &Vec<ClOption>)
        ensures
            options.deep_view() == self@.valid_options,
    {
        &self.valid_options
    }

    /// The declarations of the parameters, as they were given to `new`.
    pub fn get_expected_parameters(&self) -> (parameters: &Vec<ClParameter>)
        ensures
            parameters.deep_view() == self@.expected_parameters,
    {
        &self.expected_parameters
    }

    /// The options, filled in from the token list.
    pub fn get_option_arguments_found(&self) -> (options: &Vec<ClOption>)
        ensures
            options.deep_view() == self@.option_arguments_found,
    {
        &self.option_arguments_found
    }

    /// The parameters, filled in from the token list.
    pub fn get_parameter_arguments_found(&self) -> (parameters: &Vec<ClParameter>)
        ensures
            parameters.deep_view() == self@.parameter_arguments_found,
    {
        &self.parameter_arguments_found
    }
}

} // verus!
