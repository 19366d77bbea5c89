//! Scanning a token list for options: which declared flags occur in it, and
//! what follows each of them.
//!
//! The file has three parts: what a scan gives, as functions over sequences
//! of characters; the scan itself; and what holds of every scan.

use vstd::prelude::*;
use crate::error::{result_view, ClError, ClErrorView};
use crate::option_args::{flags_formatted_properly, ClOption, ClOptionInfoView, ClOptionView};
use crate::text::{copy_strings, is_flag_token, starts_with_hyphen};

verus! {

// ---------------------------------------------------------------------------
// What a scan gives
// ---------------------------------------------------------------------------

/// The token that follows the first occurrence of `flag` in `args`.
///
/// There is none where `flag` does not occur, where its first occurrence is
/// the last token, and where the token behind it is itself a flag.
/// `lemma_payload_follows_first_occurrence` and
/// `lemma_absent_flag_is_not_found` say the same over a given index.
pub open spec fn payload_after_flag(args: Seq<Seq<char>>, flag: Seq<char>) -> Result<
    Seq<char>,
    ClErrorView,
> {
    match args.index_of_first(flag) {
        None => Err(ClErrorView::FlagNotFound { flag, args }),
        Some(position) => if position + 1 >= args.len() {
            Err(ClErrorView::NoArgumentsAfterFlag { flag, args })
        } else if is_flag_token(args[position + 1]) {
            Err(ClErrorView::NoPayloadAfterFlag { flag, args })
        } else {
            Ok(args[position + 1])
        },
    }
}

/// The separator of a list payload: a blank where the payload holds one, else
/// a comma.
pub open spec fn list_separator(payload: Seq<char>) -> char {
    if payload.contains(' ') {
        ' '
    } else {
        ','
    }
}

/// The number of characters of `text` that stand before its first
/// `separator`; the length of `text` where it holds none.
pub open spec fn leading_run(text: Seq<char>, separator: char) -> nat
    decreases text.len(),
{
    if text.len() == 0 || text[0] == separator {
        0
    } else {
        1 + leading_run(text.drop_first(), separator)
    }
}

/// The pieces into which `separator` cuts `text`, in order, without the empty
/// ones.
pub open spec fn split_nonempty(text: Seq<char>, separator: char) -> Seq<Seq<char>>
    decreases text.len(),
{
    if text.len() == 0 {
        Seq::empty()
    } else {
        let run = leading_run(text, separator) as int;
        let rest = if run < text.len() {
            split_nonempty(text.skip(run + 1), separator)
        } else {
            Seq::empty()
        };
        if run == 0 {
            rest
        } else {
            seq![text.take(run)] + rest
        }
    }
}

/// The items of a list payload.
pub open spec fn split_list(payload: Seq<char>) -> Seq<Seq<char>> {
    split_nonempty(payload, list_separator(payload))
}

/// The list that follows `flag` in `args`.
pub open spec fn list_after_flag(args: Seq<Seq<char>>, flag: Seq<char>) -> Result<
    Seq<Seq<char>>,
    ClErrorView,
> {
    match payload_after_flag(args, flag) {
        Ok(payload) => Ok(split_list(payload)),
        Err(error) => Err(error),
    }
}

/// The value that follows `flag` in `args`: the next token as it stands.
pub open spec fn data_after_flag(args: Seq<Seq<char>>, flag: Seq<char>) -> Result<
    Seq<char>,
    ClErrorView,
> {
    payload_after_flag(args, flag)
}

/// `token` is one of the two flags of the declaration `option`.
pub open spec fn declares(option: ClOptionView, token: Seq<char>) -> bool {
    option.info().short_flag == token || option.info().long_flag == token
}

/// `token` is a flag of one of the declarations in `options`.
pub open spec fn is_declared_flag(options: Seq<ClOptionView>, token: Seq<char>) -> bool {
    exists|i: int| 0 <= i < options.len() && declares(#[trigger] options[i], token)
}

/// The tokens among which flags are looked for: those behind the first
/// token, which is the program's name.
pub open spec fn flag_tokens(args: Seq<Seq<char>>) -> Seq<Seq<char>> {
    if args.len() == 0 {
        args
    } else {
        args.drop_first()
    }
}

/// The first of `tokens` that is a flag and that `options` does not declare.
/// `lemma_first_unrecognized` says when there is one.
pub open spec fn first_unrecognized(tokens: Seq<Seq<char>>, options: Seq<ClOptionView>) -> Option<
    Seq<char>,
>
    decreases tokens.len(),
{
    if tokens.len() == 0 {
        None
    } else if is_flag_token(tokens[0]) && !is_declared_flag(options, tokens[0]) {
        Some(tokens[0])
    } else {
        first_unrecognized(tokens.drop_first(), options)
    }
}

/// `flag` starts with a hyphen and is one of the tokens of `args` behind the
/// program's name.
pub open spec fn flag_given(args: Seq<Seq<char>>, flag: Seq<char>) -> bool {
    is_flag_token(flag) && flag_tokens(args).contains(flag)
}

/// The flag by which the option of `info` is given in `args`: its short
/// flag where that occurs, else its long flag where that occurs.
pub open spec fn given_flag(args: Seq<Seq<char>>, info: ClOptionInfoView) -> Option<Seq<char>> {
    if flag_given(args, info.short_flag) {
        Some(info.short_flag)
    } else if flag_given(args, info.long_flag) {
        Some(info.long_flag)
    } else {
        None
    }
}

/// The declaration `option` filled in from `args`.
///
/// A plain flag is present where one of its flags is given. A flag with a
/// list or a value is present where one of its flags is given, and then takes
/// what follows that flag, the short flag first; where that fails, so does
/// this. Where neither flag is given, `present` is false and the payload of the
/// declaration is kept.
///
/// Whether a flag is given is decided behind the program's name; its payload
/// is then what follows its first occurrence in all of `args`.
pub open spec fn populate(args: Seq<Seq<char>>, option: ClOptionView) -> Result<
    ClOptionView,
    ClErrorView,
> {
    match option {
        ClOptionView::Flag { present, info } => Ok(
            ClOptionView::Flag { present: given_flag(args, info) is Some, info },
        ),
        ClOptionView::FlagList { present, list_name, list, info } => match given_flag(args, info) {
            None => Ok(ClOptionView::FlagList { present: false, list_name, list, info }),
            Some(flag) => match list_after_flag(args, flag) {
                Ok(found) => Ok(
                    ClOptionView::FlagList { present: true, list_name, list: found, info },
                ),
                Err(error) => Err(error),
            },
        },
        ClOptionView::FlagData { present, data_name, data, info } => match given_flag(args, info) {
            None => Ok(ClOptionView::FlagData { present: false, data_name, data, info }),
            Some(flag) => match data_after_flag(args, flag) {
                Ok(found) => Ok(
                    ClOptionView::FlagData { present: true, data_name, data: found, info },
                ),
                Err(error) => Err(error),
            },
        },
    }
}

/// The declarations `options` filled in from `args`, one after the other in
/// the order of declaration; the first that fails gives the error.
/// `lemma_populate_all_elementwise` and `lemma_populate_all_first_failure` say
/// the same declaration by declaration.
pub open spec fn populate_all(args: Seq<Seq<char>>, options: Seq<ClOptionView>) -> Result<
    Seq<ClOptionView>,
    ClErrorView,
>
    decreases options.len(),
{
    if options.len() == 0 {
        Ok(Seq::empty())
    } else {
        match populate_all(args, options.drop_last()) {
            Err(error) => Err(error),
            Ok(found) => match populate(args, options.last()) {
                Err(error) => Err(error),
                Ok(option) => Ok(found.push(option)),
            },
        }
    }
}

/// What scanning `args` against the declarations `options` gives.
///
/// The first token is the program's name and is never read as a flag. Every
/// token behind it that starts with a hyphen must be a declared flag; the first
/// one that is not is reported, and nothing is filled in. Otherwise each
/// declaration is filled in, as `populate_all` says.
pub open spec fn scan_options(args: Seq<Seq<char>>, options: Seq<ClOptionView>) -> Result<
    Seq<ClOptionView>,
    ClErrorView,
> {
    match first_unrecognized(flag_tokens(args), options) {
        Some(flag) => Err(ClErrorView::UnrecognizedFlag { flag }),
        None => populate_all(args, options),
    }
}

/// The declaration `filled` is `declared` but for `present` and the payload:
/// it has the same shape, the same flags and description, and the same label.
pub open spec fn same_declaration(declared: ClOptionView, filled: ClOptionView) -> bool {
    match declared {
        ClOptionView::Flag { present, info } => filled is Flag && filled.info() == info,
        ClOptionView::FlagList { present, list_name, list, info } => filled is FlagList
            && filled.info() == info && filled->list_name == list_name,
        ClOptionView::FlagData { present, data_name, data, info } => filled is FlagData
            && filled.info() == info && filled->data_name == data_name,
    }
}

/// The test that keeps every character but `separator`.
pub open spec fn is_not(separator: char) -> spec_fn(char) -> bool {
    |c: char| c != separator
}

// ---------------------------------------------------------------------------
// The scan
// ---------------------------------------------------------------------------

/// The index of the first occurrence of `flag` in `args`.
fn position_of(args: &[String], flag: &str) -> (found: Option<usize>)
    ensures
        match found {
            Some(position) => position < args.len() && args.deep_view().index_of_first(flag@)
                == Some(position as int),
            None => args.deep_view().index_of_first(flag@) is None,
        },
{
    let wanted = flag.to_owned();
    let mut i: usize = 0;
    while i < args.len()
        invariant
            i <= args.len(),
            wanted@ == flag@,
            forall|k: int| 0 <= k < i ==> args.deep_view()[k] != flag@,
        decreases args.len() - i,
    {
        if args[i] == wanted {
            assert(args.deep_view()[i as int] == flag@);
            proof {
                args.deep_view().index_of_first_ensures(flag@);
            }
            return Some(i);
        }
        i = i + 1;
    }
    proof {
        args.deep_view().index_of_first_ensures(flag@);
    }
    None
}

/// The token that follows the first occurrence of `flag`, or the reason why
/// there is none.
fn payload_after<'a>(args: &'a [String], flag: &str) -> (found: Result<&'a String, ClError>)
    ensures
        result_view(found) == payload_after_flag(args.deep_view(), flag@),
{
    match position_of(args, flag) {
        None => Err(ClError::FlagNotFound { flag: flag.to_owned(), args: copy_strings(args) }),
        Some(position) => {
            if position >= args.len() - 1 {
                Err(
                    ClError::NoArgumentsAfterFlag {
                        flag: flag.to_owned(),
                        args: copy_strings(args),
                    },
                )
            } else {
                let next = &args[position + 1];
                if starts_with_hyphen(next.as_str()) {
                    Err(
                        ClError::NoPayloadAfterFlag {
                            flag: flag.to_owned(),
                            args: copy_strings(args),
                        },
                    )
                } else {
                    Ok(next)
                }
            }
        },
    }
}

/// Tells whether `text` holds `wanted`.
fn holds_char(text: &str, wanted: char) -> (b: bool)
    ensures
        b == text@.contains(wanted),
{
    let mut found = false;
    for c in it: text.chars()
        invariant
            it.seq() == text@,
            found == (exists|k: int| 0 <= k < it.index() && text@[k] == wanted),
    {
        if c == wanted {
            found = true;
        }
    }
    found
}

/// Cuts `text` at each `separator` and keeps the pieces that are not empty.
fn split_at(text: &str, separator: char) -> (pieces: Vec<String>)
    ensures
        pieces.deep_view() == split_nonempty(text@, separator),
{
    let length = text.unicode_len();
    let mut pieces: Vec<String> = Vec::new();
    let mut start: usize = 0;
    let mut i: usize = 0;
    assert(text@.skip(0) =~= text@);
    for c in it: text.chars()
        invariant
            it.seq() == text@,
            length == text@.len(),
            i == it.index(),
            start <= i <= length,
            forall|k: int| start <= k < i ==> text@[k] != separator,
            pieces.deep_view() + split_nonempty(text@.skip(start as int), separator)
                == split_nonempty(text@, separator),
    {
        if c == separator {
            let ghost tail = text@.skip(start as int);
            proof {
                lemma_leading_run(tail, separator, i - start);
                assert(tail.skip(i - start + 1) =~= text@.skip(i + 1));
                assert(tail.take(i - start) =~= text@.subrange(start as int, i as int));
            }
            if start < i {
                pieces.push(text.substring_char(start, i).to_owned());
            }
            start = i + 1;
        }
        i = i + 1;
    }
    let ghost tail = text@.skip(start as int);
    proof {
        lemma_leading_run(tail, separator, i - start);
        assert(tail.take(i - start) =~= text@.subrange(start as int, i as int));
    }
    if start < i {
        pieces.push(text.substring_char(start, i).to_owned());
    }
    pieces
}

/// The list that follows `flag` in `args`.
///
/// The token behind the first occurrence of `flag` is cut at blanks where it
/// holds one, else at commas; empty items are left out. It is taken as the
/// list whatever it holds, unless it starts with a hyphen.
///
/// Fails where `flag` does not occur in `args`, where it is the last token,
/// and where the token behind it is another flag.
pub fn get_list_after_flag(args: &[String], flag: &str) -> (found: Result<Vec<String>, ClError>)
    ensures
        result_view(found) == list_after_flag(args.deep_view(), flag@),
{
    match payload_after(args, flag) {
        Ok(payload) => {
            let separator = if holds_char(payload.as_str(), ' ') {
                ' '
            } else {
                ','
            };
            Ok(split_at(payload.as_str(), separator))
        },
        Err(error) => Err(error),
    }
}

/// The value that follows `flag` in `args`: the token behind the first
/// occurrence of `flag`, as it stands, unless it starts with a hyphen.
///
/// Fails where `flag` does not occur in `args`, where it is the last token,
/// and where the token behind it is another flag.
pub fn get_data_after_flag(args: &[String], flag: &str) -> (found: Result<String, ClError>)
    ensures
        result_view(found) == data_after_flag(args.deep_view(), flag@),
{
    match payload_after(args, flag) {
        Ok(payload) => Ok(payload.clone()),
        Err(error) => Err(error),
    }
}

/// Tells whether `wanted` is one of `items`.
fn holds_string(items: &[String], wanted: &String) -> (b: bool)
    ensures
        b == items.deep_view().contains(wanted@),
{
    let mut i: usize = 0;
    while i < items.len()
        invariant
            i <= items.len(),
            forall|k: int| 0 <= k < i ==> items.deep_view()[k] != wanted@,
        decreases items.len() - i,
    {
        if items[i] == *wanted {
            assert(items.deep_view()[i as int] == wanted@);
            return true;
        }
        i = i + 1;
    }
    false
}

/// The short and the long flag of every declaration in `valid_options`.
fn declared_flags(valid_options: &[ClOption]) -> (flags: Vec<String>)
    ensures
        forall|token: Seq<char>|
            flags.deep_view().contains(token) <==> is_declared_flag(
                valid_options.deep_view(),
                token,
            ),
{
    let mut flags: Vec<String> = Vec::new();
    let mut i: usize = 0;
    while i < valid_options.len()
        invariant
            i <= valid_options.len(),
            flags.len() == 2 * i,
            forall|k: int|
                0 <= k < i ==> flags.deep_view()[2 * k]
                    == #[trigger] valid_options.deep_view()[k].info().short_flag,
            forall|k: int|
                0 <= k < i ==> flags.deep_view()[2 * k + 1]
                    == #[trigger] valid_options.deep_view()[k].info().long_flag,
        decreases valid_options.len() - i,
    {
        flags.push(valid_options[i].get_short_flag().to_owned());
        flags.push(valid_options[i].get_long_flag().to_owned());
        i = i + 1;
    }
    let ghost options = valid_options.deep_view();
    let ghost tokens = flags.deep_view();
    assert forall|token: Seq<char>| tokens.contains(token) <==> is_declared_flag(
        options,
        token,
    ) by {
        if tokens.contains(token) {
            let j = choose|j: int| 0 <= j < tokens.len() && tokens[j] == token;
            assert(declares(options[j / 2], token));
        }
        if is_declared_flag(options, token) {
            let k = choose|k: int| 0 <= k < options.len() && declares(#[trigger] options[k], token);
            assert(tokens[2 * k] == token || tokens[2 * k + 1] == token);
        }
    }
    flags
}

/// The tokens of `args` behind the program's name.
fn tokens_behind_name(args: &[String]) -> (tokens: &[String])
    ensures
        tokens.deep_view() == flag_tokens(args.deep_view()),
{
    if args.len() == 0 {
        args
    } else {
        let tokens = &args[1..args.len()];
        assert(tokens.deep_view() =~= args.deep_view().drop_first());
        tokens
    }
}

/// The index of the first of `tokens` that starts with a hyphen and is no
/// flag of a declaration in `valid_options`.
fn position_of_unrecognized(tokens: &[String], valid_options: &[ClOption]) -> (found: Option<
    usize,
>)
    ensures
        match found {
            Some(position) => position < tokens.len() && first_unrecognized(
                tokens.deep_view(),
                valid_options.deep_view(),
            ) == Some(tokens.deep_view()[position as int]),
            None => first_unrecognized(tokens.deep_view(), valid_options.deep_view()) is None,
        },
{
    let flags = declared_flags(valid_options);
    let ghost options = valid_options.deep_view();
    let mut i: usize = 0;
    assert(tokens.deep_view().skip(0) =~= tokens.deep_view());
    while i < tokens.len()
        invariant
            i <= tokens.len(),
            options == valid_options.deep_view(),
            forall|token: Seq<char>|
                flags.deep_view().contains(token) <==> is_declared_flag(options, token),
            first_unrecognized(tokens.deep_view(), options) == first_unrecognized(
                tokens.deep_view().skip(i as int),
                options,
            ),
        decreases tokens.len() - i,
    {
        let ghost rest = tokens.deep_view().skip(i as int);
        assert(rest.drop_first() =~= tokens.deep_view().skip(i + 1));
        if starts_with_hyphen(tokens[i].as_str()) && !holds_string(flags.as_slice(), &tokens[i]) {
            return Some(i);
        }
        i = i + 1;
    }
    None
}

/// Tells whether `flag` starts with a hyphen and is one of the tokens of
/// `args` behind the program's name.
fn is_given(args: &[String], flag: &str) -> (b: bool)
    ensures
        b == flag_given(args.deep_view(), flag@),
{
    if !starts_with_hyphen(flag) {
        return false;
    }
    let wanted = flag.to_owned();
    holds_string(tokens_behind_name(args), &wanted)
}

/// The flag of `option` that is given in `args`, the short one first.
fn find_given_flag<'a>(args: &[String], option: &'a ClOption) -> (found: Option<&'a str>)
    ensures
        found.deep_view() == given_flag(args.deep_view(), option@.info()),
{
    if is_given(args, option.get_short_flag()) {
        Some(option.get_short_flag())
    } else if is_given(args, option.get_long_flag()) {
        Some(option.get_long_flag())
    } else {
        None
    }
}

/// A copy of the declaration `option`, filled in from `args`.
fn populate_option(args: &[String], option: &ClOption) -> (filled: Result<ClOption, ClError>)
    ensures
        result_view(filled) == populate(args.deep_view(), option@),
{
    let given = find_given_flag(args, option);
    match option {
        ClOption::Flag { present, info } => Ok(
            ClOption::Flag { present: given.is_some(), info: info.clone() },
        ),
        ClOption::FlagList { present, list_name, list, info } => match given {
            None => Ok(
                ClOption::FlagList {
                    present: false,
                    list_name: list_name.clone(),
                    list: copy_strings(list.as_slice()),
                    info: info.clone(),
                },
            ),
            Some(flag) => match get_list_after_flag(args, flag) {
                Ok(found) => Ok(
                    ClOption::FlagList {
                        present: true,
                        list_name: list_name.clone(),
                        list: found,
                        info: info.clone(),
                    },
                ),
                Err(error) => Err(error),
            },
        },
        ClOption::FlagData { present, data_name, data, info } => match given {
            None => Ok(
                ClOption::FlagData {
                    present: false,
                    data_name: data_name.clone(),
                    data: data.clone(),
                    info: info.clone(),
                },
            ),
            Some(flag) => match get_data_after_flag(args, flag) {
                Ok(found) => Ok(
                    ClOption::FlagData {
                        present: true,
                        data_name: data_name.clone(),
                        data: found,
                        info: info.clone(),
                    },
                ),
                Err(error) => Err(error),
            },
        },
    }
}

/// Scans `args` for the options that `valid_options` declares.
///
/// The first token of `args` is the program's name: it is never taken for a
/// flag, whatever it holds. Every token behind it that starts with a hyphen is
/// taken for a flag and must be the short or the long flag of a declaration:
/// the first one that is not makes the scan fail with
/// `ClError::UnrecognizedFlag`. Then every declaration is copied, in order, and
/// the copy filled in: `present` tells whether one of its flags occurs behind
/// the program's name, and a list or a value is what `get_list_after_flag` or
/// `get_data_after_flag` finds for that flag in `args`, the short one where
/// both occur. A flag that occurs without a payload makes the scan fail with
/// the error of that function.
///
/// The scan gives all declarations or an error, never a part of them, and
/// leaves `valid_options` as it was.
pub fn parse_for_options(args: &[String], valid_options: &[ClOption]) -> (found: Result<
    Vec<ClOption>,
    ClError,
>)
    ensures
        result_view(found) == scan_options(args.deep_view(), valid_options.deep_view()),
        found is Ok <==> first_unrecognized(
            flag_tokens(args.deep_view()),
            valid_options.deep_view(),
        ) is None && forall|i: int|
            0 <= i < valid_options.len() ==> populate(
                args.deep_view(),
                (#[trigger] valid_options[i])@,
            ) is Ok,
        found matches Ok(filled) ==> filled.len() == valid_options.len() && forall|i: int|
            0 <= i < filled.len() ==> populate(args.deep_view(), valid_options[i]@) == Ok::<
                ClOptionView,
                ClErrorView,
            >(#[trigger] filled[i]@),
{
    let tokens = tokens_behind_name(args);
    match position_of_unrecognized(tokens, valid_options) {
        Some(position) => {
            return Err(ClError::UnrecognizedFlag { flag: tokens[position].clone() });
        },
        None => {},
    }
    let mut results: Vec<ClOption> = Vec::new();
    let mut i: usize = 0;
    assert(results.deep_view() =~= Seq::<ClOptionView>::empty());
    while i < valid_options.len()
        invariant
            i <= valid_options.len(),
            first_unrecognized(flag_tokens(args.deep_view()), valid_options.deep_view()) is None,
            populate_all(args.deep_view(), valid_options.deep_view().take(i as int)) == Ok::<
                Seq<ClOptionView>,
                ClErrorView,
            >(results.deep_view()),
        decreases valid_options.len() - i,
    {
        let ghost before = results.deep_view();
        let ghost options = valid_options.deep_view();
        proof {
            assert(options.take(i + 1).drop_last() =~= options.take(i as int));
        }
        match populate_option(args, &valid_options[i]) {
            Ok(option) => {
                results.push(option);
                assert(results.deep_view() =~= before.push(option@));
            },
            Err(error) => {
                proof {
                    lemma_populate_all_fails_with_prefix(args.deep_view(), options, i + 1);
                }
                return Err(error);
            },
        }
        i = i + 1;
    }
    proof {
        assert(valid_options.deep_view().take(i as int) =~= valid_options.deep_view());
        lemma_populate_all_elementwise(args.deep_view(), valid_options.deep_view());
        assert forall|k: int| 0 <= k < results.len() implies populate(
            args.deep_view(),
            valid_options[k]@,
        ) == Ok::<ClOptionView, ClErrorView>(#[trigger] results[k]@) by {
            assert(results.deep_view()[k] == results[k]@);
        }
        assert forall|k: int| 0 <= k < valid_options.len() implies populate(
            args.deep_view(),
            (#[trigger] valid_options[k])@,
        ) is Ok by {
            assert(valid_options.deep_view()[k] == valid_options[k]@);
        }
    }
    Ok(results)
}

// ---------------------------------------------------------------------------
// What holds of every scan
// ---------------------------------------------------------------------------

/// `leading_run` is the one index up to which `text` holds no separator and
/// at which it ends or holds one.
pub proof fn lemma_leading_run(text: Seq<char>, separator: char, run: int)
    requires
        0 <= run <= text.len(),
        forall|k: int| 0 <= k < run ==> text[k] != separator,
        run == text.len() || text[run] == separator,
    ensures
        leading_run(text, separator) == run,
    decreases run,
{
    if run > 0 {
        lemma_leading_run(text.drop_first(), separator, run - 1);
    }
}

/// Where filling in the first `n` declarations fails, filling in all of them
/// fails with the same error.
proof fn lemma_populate_all_fails_with_prefix(
    args: Seq<Seq<char>>,
    options: Seq<ClOptionView>,
    n: int,
)
    requires
        0 <= n <= options.len(),
        populate_all(args, options.take(n)) is Err,
    ensures
        populate_all(args, options) == populate_all(args, options.take(n)),
    decreases options.len() - n,
{
    if n < options.len() {
        assert(options.take(n + 1).drop_last() =~= options.take(n));
        lemma_populate_all_fails_with_prefix(args, options, n + 1);
    } else {
        assert(options.take(n) =~= options);
    }
}

/// Every piece of a split holds a character and no separator.
pub proof fn lemma_split_pieces(text: Seq<char>, separator: char)
    ensures
        forall|i: int|
            0 <= i < split_nonempty(text, separator).len() ==> {
                let piece = #[trigger] split_nonempty(text, separator)[i];
                piece.len() > 0 && !piece.contains(separator)
            },
    decreases text.len(),
{
    if text.len() > 0 {
        let run = leading_run(text, separator) as int;
        lemma_leading_run_bounds(text, separator);
        if run < text.len() {
            lemma_split_pieces(text.skip(run + 1), separator);
        }
        let rest = if run < text.len() {
            split_nonempty(text.skip(run + 1), separator)
        } else {
            Seq::empty()
        };
        let pieces = split_nonempty(text, separator);
        assert forall|i: int| 0 <= i < pieces.len() implies (#[trigger] pieces[i]).len() > 0
            && !pieces[i].contains(separator) by {
            if run == 0 {
                assert(pieces[i] == rest[i]);
            } else if i == 0 {
                assert(pieces[i] == text.take(run));
            } else {
                assert(pieces[i] == rest[i - 1]);
            }
        }
    }
}

/// `leading_run` stays within `text`, no separator stands before it, and one
/// stands at it unless `text` ends there.
pub proof fn lemma_leading_run_bounds(text: Seq<char>, separator: char)
    ensures
        leading_run(text, separator) <= text.len(),
        forall|k: int| 0 <= k < leading_run(text, separator) ==> text[k] != separator,
        leading_run(text, separator) < text.len() ==> text[leading_run(text, separator) as int]
            == separator,
    decreases text.len(),
{
    if text.len() > 0 && text[0] != separator {
        let rest = text.drop_first();
        lemma_leading_run_bounds(rest, separator);
        assert forall|k: int| 0 <= k < leading_run(text, separator) implies text[k]
            != separator by {
            if k > 0 {
                assert(text[k] == rest[k - 1]);
            }
        }
    }
}

/// Filtering a text in which every character passes the test changes
/// nothing.
proof fn lemma_filter_keeps_all(text: Seq<char>, test: spec_fn(char) -> bool)
    requires
        forall|k: int| 0 <= k < text.len() ==> test(text[k]),
    ensures
        text.filter(test) == text,
    decreases text.len(),
{
    reveal(Seq::filter);
    if text.len() > 0 {
        lemma_filter_keeps_all(text.drop_last(), test);
    }
}

/// A split loses nothing but separators: its pieces, one behind the other,
/// are the characters of `text` that are no separator, in their order.
pub proof fn lemma_split_keeps_characters(text: Seq<char>, separator: char)
    ensures
        split_nonempty(text, separator).flatten() == text.filter(is_not(separator)),
    decreases text.len(),
{
    let test = is_not(separator);
    let pieces = split_nonempty(text, separator);
    if text.len() == 0 {
        reveal(Seq::filter);
    } else {
        let run = leading_run(text, separator) as int;
        lemma_leading_run_bounds(text, separator);
        let head = text.take(run);
        lemma_filter_keeps_all(head, test);
        if run < text.len() {
            let tail = text.skip(run + 1);
            let rest = split_nonempty(tail, separator);
            lemma_split_keeps_characters(tail, separator);
            let cut = seq![separator];
            assert(cut.filter(test) =~= Seq::<char>::empty()) by {
                reveal_with_fuel(Seq::filter, 2);
            }
            assert(text =~= head + cut + tail);
            Seq::filter_distributes_over_add(head + cut, tail, test);
            Seq::filter_distributes_over_add(head, cut, test);
            if run > 0 {
                assert(pieces.drop_first() =~= rest);
            }
        } else {
            assert(head =~= text);
            assert(pieces.drop_first() =~= Seq::<Seq<char>>::empty());
            assert(pieces.flatten() =~= head + Seq::<Seq<char>>::empty().flatten());
        }
    }
}

/// A text without separator is one piece, unless it is empty.
pub proof fn lemma_split_without_separator(text: Seq<char>, separator: char)
    requires
        !text.contains(separator),
    ensures
        split_nonempty(text, separator) == if text.len() == 0 {
            Seq::<Seq<char>>::empty()
        } else {
            seq![text]
        },
{
    if text.len() > 0 {
        lemma_leading_run(text, separator, text.len() as int);
        assert(text.take(text.len() as int) =~= text);
    }
}

/// What follows a flag is decided at its first occurrence: the next token is
/// the payload, unless there is none or it starts with a hyphen.
pub proof fn lemma_payload_follows_first_occurrence(
    args: Seq<Seq<char>>,
    flag: Seq<char>,
    position: int,
)
    requires
        0 <= position < args.len(),
        args[position] == flag,
        forall|k: int| 0 <= k < position ==> args[k] != flag,
    ensures
        payload_after_flag(args, flag) == if position == args.len() - 1 {
            Err::<Seq<char>, ClErrorView>(ClErrorView::NoArgumentsAfterFlag { flag, args })
        } else if is_flag_token(args[position + 1]) {
            Err(ClErrorView::NoPayloadAfterFlag { flag, args })
        } else {
            Ok(args[position + 1])
        },
{
    args.index_of_first_ensures(flag);
}

/// A flag that does not occur has no payload.
pub proof fn lemma_absent_flag_is_not_found(args: Seq<Seq<char>>, flag: Seq<char>)
    requires
        !args.contains(flag),
    ensures
        payload_after_flag(args, flag) == Err::<Seq<char>, ClErrorView>(
            ClErrorView::FlagNotFound { flag, args },
        ),
{
    args.index_of_first_ensures(flag);
}

/// The tokens behind the program's name are the tokens of `args` from the
/// second on.
pub proof fn lemma_flag_tokens(args: Seq<Seq<char>>)
    ensures
        flag_tokens(args).len() == if args.len() == 0 {
            0
        } else {
            args.len() - 1
        },
        forall|j: int| 1 <= j < args.len() ==> flag_tokens(args)[j - 1] == #[trigger] args[j],
        forall|token: Seq<char>|
            flag_tokens(args).contains(token) <==> exists|j: int|
                1 <= j < args.len() && #[trigger] args[j] == token,
{
    let tokens = flag_tokens(args);
    assert forall|token: Seq<char>| tokens.contains(token) implies exists|j: int|
        1 <= j < args.len() && #[trigger] args[j] == token by {
        let k = choose|k: int| 0 <= k < tokens.len() && tokens[k] == token;
        assert(args[k + 1] == token);
    }
    assert forall|token: Seq<char>|
        (exists|j: int| 1 <= j < args.len() && #[trigger] args[j] == token) implies tokens.contains(
        token,
    ) by {
        let j = choose|j: int| 1 <= j < args.len() && #[trigger] args[j] == token;
        assert(tokens[j - 1] == token);
    }
}

/// A flag that is given in `args` is found when its payload is looked for:
/// what can still fail is the payload.
pub proof fn lemma_given_flag_is_found(args: Seq<Seq<char>>, flag: Seq<char>)
    requires
        flag_given(args, flag),
    ensures
        !(payload_after_flag(args, flag) matches Err(ClErrorView::FlagNotFound { .. })),
        !(list_after_flag(args, flag) matches Err(ClErrorView::FlagNotFound { .. })),
        !(data_after_flag(args, flag) matches Err(ClErrorView::FlagNotFound { .. })),
{
    lemma_flag_tokens(args);
    let j = choose|j: int| 1 <= j < args.len() && #[trigger] args[j] == flag;
    assert(args.contains(flag));
    args.index_of_first_ensures(flag);
}

/// A flag that is formatted properly is given exactly when it is not left
/// empty and is one of the tokens behind the program's name.
pub proof fn lemma_given_flag_of_proper_info(args: Seq<Seq<char>>, info: ClOptionInfoView)
    requires
        flags_formatted_properly(info.short_flag, info.long_flag),
    ensures
        flag_given(args, info.short_flag) <==> info.short_flag.len() > 0 && flag_tokens(
            args,
        ).contains(info.short_flag),
        flag_given(args, info.long_flag) <==> info.long_flag.len() > 0 && flag_tokens(
            args,
        ).contains(info.long_flag),
{
}

/// There is no unrecognized flag among `tokens` exactly when each of them
/// that starts with a hyphen is a declared flag. The one that
/// `first_unrecognized` gives is one of `tokens`, starts with a hyphen and is
/// not declared.
proof fn lemma_first_unrecognized_among(tokens: Seq<Seq<char>>, options: Seq<ClOptionView>)
    ensures
        first_unrecognized(tokens, options) is None <==> forall|j: int|
            0 <= j < tokens.len() && is_flag_token(#[trigger] tokens[j]) ==> is_declared_flag(
                options,
                tokens[j],
            ),
        first_unrecognized(tokens, options) matches Some(flag) ==> tokens.contains(flag)
            && is_flag_token(flag) && !is_declared_flag(options, flag),
    decreases tokens.len(),
{
    if tokens.len() > 0 {
        let rest = tokens.drop_first();
        lemma_first_unrecognized_among(rest, options);
        assert forall|j: int| 0 <= j < rest.len() implies #[trigger] rest[j] == tokens[j + 1] by {}
        if !is_flag_token(tokens[0]) || is_declared_flag(options, tokens[0]) {
            if first_unrecognized(rest, options) is None {
                assert forall|j: int|
                    0 <= j < tokens.len() && is_flag_token(
                        #[trigger] tokens[j],
                    ) implies is_declared_flag(options, tokens[j]) by {
                    if j > 0 {
                        assert(tokens[j] == rest[j - 1]);
                    }
                }
            } else {
                let flag = first_unrecognized(rest, options)->0;
                let j = choose|j: int| 0 <= j < rest.len() && rest[j] == flag;
                assert(tokens[j + 1] == flag);
            }
        }
    }
}

/// The scan finds no unrecognized flag exactly when every token behind the
/// program's name that starts with a hyphen is a declared flag. The one it
/// reports stands behind the program's name, starts with a hyphen and is not
/// declared.
pub proof fn lemma_first_unrecognized(args: Seq<Seq<char>>, options: Seq<ClOptionView>)
    ensures
        first_unrecognized(flag_tokens(args), options) is None <==> forall|j: int|
            1 <= j < args.len() && is_flag_token(#[trigger] args[j]) ==> is_declared_flag(
                options,
                args[j],
            ),
        first_unrecognized(flag_tokens(args), options) matches Some(flag) ==> flag_tokens(
            args,
        ).contains(flag) && is_flag_token(flag) && !is_declared_flag(options, flag),
{
    let tokens = flag_tokens(args);
    lemma_first_unrecognized_among(tokens, options);
    lemma_flag_tokens(args);
    if first_unrecognized(tokens, options) is None {
        assert forall|j: int|
            1 <= j < args.len() && is_flag_token(#[trigger] args[j]) implies is_declared_flag(
            options,
            args[j],
        ) by {
            assert(tokens[j - 1] == args[j]);
        }
    }
    if forall|j: int|
        1 <= j < args.len() && is_flag_token(#[trigger] args[j]) ==> is_declared_flag(
            options,
            args[j],
        ) {
        assert forall|k: int|
            0 <= k < tokens.len() && is_flag_token(#[trigger] tokens[k]) implies is_declared_flag(
            options,
            tokens[k],
        ) by {
            assert(tokens[k] == args[k + 1]);
        }
    }
}

/// A token list that holds an undeclared flag behind the program's name is
/// refused, whatever else it holds.
pub proof fn lemma_undeclared_flag_is_refused(
    args: Seq<Seq<char>>,
    options: Seq<ClOptionView>,
    position: int,
)
    requires
        1 <= position < args.len(),
        is_flag_token(args[position]),
        !is_declared_flag(options, args[position]),
    ensures
        scan_options(args, options) matches Err(ClErrorView::UnrecognizedFlag { flag })
            && flag_tokens(args).contains(flag) && is_flag_token(flag) && !is_declared_flag(
            options,
            flag,
        ),
{
    lemma_first_unrecognized(args, options);
}

/// The program's name is never read as a flag: a token list that holds
/// nothing else is accepted, whatever the name is, and leaves every option
/// absent.
pub proof fn lemma_program_name_is_no_flag(args: Seq<Seq<char>>, options: Seq<ClOptionView>)
    requires
        args.len() <= 1,
    ensures
        scan_options(args, options) matches Ok(found) && found.len() == options.len()
            && forall|i: int| 0 <= i < found.len() ==> !(#[trigger] found[i]).present(),
{
    assert(flag_tokens(args).len() == 0);
    assert forall|i: int| 0 <= i < options.len() implies populate(args, #[trigger] options[i])
        is Ok && !populate(args, options[i])->Ok_0.present() by {
        assert(given_flag(args, options[i].info()) is None);
    }
    lemma_populate_all_elementwise(args, options);
}

/// Filling in all declarations succeeds exactly when filling in each of them
/// does, and then gives the filled-in declarations in the order of declaration.
pub proof fn lemma_populate_all_elementwise(args: Seq<Seq<char>>, options: Seq<ClOptionView>)
    ensures
        populate_all(args, options) is Ok <==> forall|i: int|
            0 <= i < options.len() ==> populate(args, #[trigger] options[i]) is Ok,
        populate_all(args, options) matches Ok(found) ==> found.len() == options.len()
            && forall|i: int|
            0 <= i < options.len() ==> populate(args, options[i]) == Ok::<
                ClOptionView,
                ClErrorView,
            >(#[trigger] found[i]),
    decreases options.len(),
{
    if options.len() > 0 {
        let front = options.drop_last();
        lemma_populate_all_elementwise(args, front);
        assert forall|i: int| 0 <= i < front.len() implies #[trigger] front[i] == options[i] by {}
        if populate_all(args, front) is Ok && populate(args, options.last()) is Ok {
            assert forall|i: int| 0 <= i < options.len() implies populate(
                args,
                #[trigger] options[i],
            ) is Ok by {
                if i < front.len() {
                    assert(options[i] == front[i]);
                }
            }
        }
    }
}

/// Where filling in the declarations fails, the error is that of the first
/// declaration that cannot be filled in.
pub proof fn lemma_populate_all_first_failure(args: Seq<Seq<char>>, options: Seq<ClOptionView>)
    requires
        populate_all(args, options) is Err,
    ensures
        exists|i: int|
            0 <= i < options.len() && populate(args, #[trigger] options[i]) == Err::<
                ClOptionView,
                ClErrorView,
            >(populate_all(args, options)->Err_0) && forall|k: int|
                0 <= k < i ==> populate(args, #[trigger] options[k]) is Ok,
    decreases options.len(),
{
    let front = options.drop_last();
    assert forall|i: int| 0 <= i < front.len() implies #[trigger] front[i] == options[i] by {}
    if populate_all(args, front) is Err {
        lemma_populate_all_first_failure(args, front);
        let i = choose|i: int|
            0 <= i < front.len() && populate(args, #[trigger] front[i]) == Err::<
                ClOptionView,
                ClErrorView,
            >(populate_all(args, front)->Err_0) && forall|k: int|
                0 <= k < i ==> populate(args, #[trigger] front[k]) is Ok;
        assert forall|k: int| 0 <= k < i implies populate(args, #[trigger] options[k]) is Ok by {
            assert(options[k] == front[k]);
        }
    } else {
        lemma_populate_all_elementwise(args, front);
        let i = options.len() - 1;
        assert forall|k: int| 0 <= k < i implies populate(args, #[trigger] options[k]) is Ok by {
            assert(options[k] == front[k]);
        }
    }
}

/// A scan gives copies of the declarations: as many as were declared, in the
/// same order, each with the shape, the flags, the description and the label
/// of its declaration. Only `present` and the payload are filled in.
pub proof fn lemma_scan_keeps_declarations(args: Seq<Seq<char>>, options: Seq<ClOptionView>)
    ensures
        scan_options(args, options) matches Ok(found) ==> found.len() == options.len()
            && forall|i: int|
            0 <= i < options.len() ==> same_declaration(options[i], #[trigger] found[i]),
{
    lemma_populate_all_elementwise(args, options);
}

/// Filling in a declaration that is already filled in from the same tokens
/// changes nothing.
pub proof fn lemma_populate_twice(args: Seq<Seq<char>>, option: ClOptionView)
    ensures
        populate(args, option) matches Ok(filled) ==> populate(args, filled) == Ok::<
            ClOptionView,
            ClErrorView,
        >(filled),
{
}

/// Which tokens are unrecognized depends on the flags of the declarations
/// alone.
proof fn lemma_first_unrecognized_by_flags(
    tokens: Seq<Seq<char>>,
    options: Seq<ClOptionView>,
    others: Seq<ClOptionView>,
)
    requires
        options.len() == others.len(),
        forall|i: int| 0 <= i < options.len() ==> options[i].info() == others[i].info(),
    ensures
        first_unrecognized(tokens, options) == first_unrecognized(tokens, others),
    decreases tokens.len(),
{
    if tokens.len() > 0 {
        let token = tokens[0];
        if is_declared_flag(options, token) {
            let i = choose|i: int| 0 <= i < options.len() && declares(#[trigger] options[i], token);
            assert(declares(others[i], token));
        }
        if is_declared_flag(others, token) {
            let i = choose|i: int| 0 <= i < others.len() && declares(#[trigger] others[i], token);
            assert(declares(options[i], token));
        }
        lemma_first_unrecognized_by_flags(tokens.drop_first(), options, others);
    }
}

/// Where each declaration is filled in to the element of `found` at its
/// place, filling in all of them gives `found`.
proof fn lemma_populate_all_from_elements(
    args: Seq<Seq<char>>,
    options: Seq<ClOptionView>,
    found: Seq<ClOptionView>,
)
    requires
        found.len() == options.len(),
        forall|i: int|
            0 <= i < options.len() ==> populate(args, options[i]) == Ok::<
                ClOptionView,
                ClErrorView,
            >(found[i]),
    ensures
        populate_all(args, options) == Ok::<Seq<ClOptionView>, ClErrorView>(found),
    decreases options.len(),
{
    if options.len() == 0 {
        assert(found =~= Seq::<ClOptionView>::empty());
    } else {
        lemma_populate_all_from_elements(args, options.drop_last(), found.drop_last());
        assert(found.drop_last().push(found.last()) =~= found);
    }
}

/// Scanning is idempotent: what a scan found can itself be scanned against
/// the same tokens, and comes out as it went in.
pub proof fn lemma_scan_options_idempotent(args: Seq<Seq<char>>, options: Seq<ClOptionView>)
    ensures
        scan_options(args, options) matches Ok(found) ==> scan_options(args, found) == Ok::<
            Seq<ClOptionView>,
            ClErrorView,
        >(found),
{
    if scan_options(args, options) is Ok {
        let found = scan_options(args, options)->Ok_0;
        lemma_populate_all_elementwise(args, options);
        lemma_first_unrecognized_by_flags(flag_tokens(args), options, found);
        assert forall|i: int| 0 <= i < found.len() implies populate(args, found[i]) == Ok::<
            ClOptionView,
            ClErrorView,
        >(found[i]) by {
            lemma_populate_twice(args, options[i]);
        }
        lemma_populate_all_from_elements(args, found, found);
    }
}

/// Scanning is repeatable: two scans of the same tokens against the same
/// declarations come out equal, error for error and declaration for
/// declaration.
pub proof fn lemma_scan_options_repeatable(
    args: &[String],
    valid_options: &[ClOption],
    first: Result<Vec<ClOption>, ClError>,
    second: Result<Vec<ClOption>, ClError>,
)
    requires
        result_view(first) == scan_options(args.deep_view(), valid_options.deep_view()),
        result_view(second) == scan_options(args.deep_view(), valid_options.deep_view()),
    ensures
        result_view(first) == result_view(second),
        first is Ok <==> second is Ok,
{
}

} // verus!
