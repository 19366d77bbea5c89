//! The failures that declaring and scanning can report.

use vstd::prelude::*;

verus! {

/// What went wrong while declaring an option or scanning a token list.
///
/// The variants that come from looking for a flag's payload carry the flag
/// and a copy of the whole token list, for diagnostics.
#[derive(Debug, PartialEq)]
pub enum ClError {
    /// An option was declared with a malformed short or long flag. This is a
    /// mistake of the calling program, not of its user.
    ImproperFlagFormat { short_flag: String, long_flag: String },
    /// Behind the program's name the token list holds a flag that no declared
    /// option has; `flag` is the first such token.
    UnrecognizedFlag { flag: String },
    /// `flag` does not occur in the token list.
    FlagNotFound { flag: String, args: Vec<String> },
    /// `flag` is the last token, so no payload can follow it.
    NoArgumentsAfterFlag { flag: String, args: Vec<String> },
    /// The token after `flag` is itself a flag, so `flag` has no payload.
    NoPayloadAfterFlag { flag: String, args: Vec<String> },
    /// The token list is too short to hold every declared parameter.
    TooFewArguments,
}

/// A `ClError` over sequences of characters.
pub enum ClErrorView {
    ImproperFlagFormat { short_flag: Seq<char>, long_flag: Seq<char> },
    UnrecognizedFlag { flag: Seq<char> },
    FlagNotFound { flag: Seq<char>, args: Seq<Seq<char>> },
    NoArgumentsAfterFlag { flag: Seq<char>, args: Seq<Seq<char>> },
    NoPayloadAfterFlag { flag: Seq<char>, args: Seq<Seq<char>> },
    TooFewArguments,
}

impl View for ClError {
    type V = ClErrorView;

    open spec fn view(&self) -> ClErrorView {
        match self {
            ClError::ImproperFlagFormat { short_flag, long_flag } => ClErrorView::ImproperFlagFormat {
                short_flag: short_flag@,
                long_flag: long_flag@,
            },
            ClError::UnrecognizedFlag { flag } => ClErrorView::UnrecognizedFlag { flag: flag@ },
            ClError::FlagNotFound { flag, args } => ClErrorView::FlagNotFound {
                flag: flag@,
                args: args.deep_view(),
            },
            ClError::NoArgumentsAfterFlag { flag, args } => ClErrorView::NoArgumentsAfterFlag {
                flag: flag@,
                args: args.deep_view(),
            },
            ClError::NoPayloadAfterFlag { flag, args } => ClErrorView::NoPayloadAfterFlag {
                flag: flag@,
                args: args.deep_view(),
            },
            ClError::TooFewArguments => ClErrorView::TooFewArguments,
        }
    }
}

impl DeepView for ClError {
    type V = ClErrorView;

    open spec fn deep_view(&self) -> ClErrorView {
        self@
    }
}

/// A result over sequences of characters: the view of what was found, or the
/// view of the error.
pub open spec fn result_view<T: DeepView, E: DeepView>(result: Result<T, E>) -> Result<T::V, E::V> {
    match result {
        Ok(value) => Ok(value.deep_view()),
        Err(error) => Err(error.deep_view()),
    }
}

impl ClErrorView {
    /// The token list that the error carries; empty where it carries none.
    pub open spec fn token_list(self) -> Seq<Seq<char>> {
        match self {
            ClErrorView::FlagNotFound { flag, args } => args,
            ClErrorView::NoArgumentsAfterFlag { flag, args } => args,
            ClErrorView::NoPayloadAfterFlag { flag, args } => args,
            _ => Seq::empty(),
        }
    }

    /// The message of the error, with `listing` standing where the token list
    /// is printed.
    pub open spec fn message_with_listing(self, listing: Seq<char>) -> Seq<char> {
        match self {
            ClErrorView::ImproperFlagFormat { short_flag, long_flag } => "BUG: short_flag (\""@
                + short_flag + "\") and/or long_flag (\""@ + long_flag
                + "\") improperly formated!"@,
            ClErrorView::UnrecognizedFlag { flag } => "User Error: One or more invalid flags given."@,
            ClErrorView::FlagNotFound { flag, args } => "Could not find flag("@ + flag
                + ") in args("@ + listing + ")"@,
            ClErrorView::NoArgumentsAfterFlag { flag, args } => "No arguments after flag("@ + flag
                + ") in args("@ + listing + ")"@,
            ClErrorView::NoPayloadAfterFlag { flag, args } => "No list found after flag("@ + flag
                + ") in args("@ + listing + ")"@,
            ClErrorView::TooFewArguments => "User Error: the amount of passed args is too small to possibly contain all the expected data"@,
        }
    }

    /// The message of the error: the token list is printed as `debug_text`
    /// renders it.
    pub open spec fn message(self) -> Seq<char> {
        self.message_with_listing(debug_text(self.token_list()))
    }
}

/// How the standard library's `Debug` formatting renders a list of strings:
/// in square brackets, separated by a comma and a blank, each string in double
/// quotes with its special characters escaped.
pub uninterp spec fn debug_text(items: Seq<Seq<char>>) -> Seq<char>;

/// Formats `items` with `{:?}`. Trusted: the text is a function of the
/// strings in `items` alone, which `debug_text` names.
#[verifier::external_body]
fn debug_listing(items: &Vec<String>) -> (listing: String)
    ensures
        listing@ == debug_text(items.deep_view()),
{
    format!("{:?}", items)
}

/// `head`, `flag`, `middle`, `listing` and `tail`, one after the other.
fn compose(head: &str, flag: &str, middle: &str, listing: &str, tail: &str) -> (text: String)
    ensures
        text@ == head@ + flag@ + middle@ + listing@ + tail@,
{
    let mut text = head.to_owned();
    text.append(flag);
    text.append(middle);
    text.append(listing);
    text.append(tail);
    text
}

impl ClError {
    /// The message of this error, with `listing` printed in place of the token
    /// list. The variants that carry no token list ignore `listing`.
    pub fn message_with_listing(&self, listing: &str) -> (text: String)
        ensures
            text@ == self@.message_with_listing(listing@),
    {
        match self {
            ClError::ImproperFlagFormat { short_flag, long_flag } => compose(
                "BUG: short_flag (\"",
                short_flag.as_str(),
                "\") and/or long_flag (\"",
                long_flag.as_str(),
                "\") improperly formated!",
            ),
            ClError::UnrecognizedFlag { flag } => {
                "User Error: One or more invalid flags given.".to_owned()
            },
            ClError::FlagNotFound { flag, args } => compose(
                "Could not find flag(",
                flag.as_str(),
                ") in args(",
                listing,
                ")",
            ),
            ClError::NoArgumentsAfterFlag { flag, args } => compose(
                "No arguments after flag(",
                flag.as_str(),
                ") in args(",
                listing,
                ")",
            ),
            ClError::NoPayloadAfterFlag { flag, args } => compose(
                "No list found after flag(",
                flag.as_str(),
                ") in args(",
                listing,
                ")",
            ),
            ClError::TooFewArguments => {
                "User Error: the amount of passed args is too small to possibly contain all the expected data".to_owned()
            },
        }
    }

    /// The message of this error, as a program would print it for its user.
    pub fn message(&self) -> (text: String)
        ensures
            text@ == self@.message(),
    {
        match self {
            ClError::FlagNotFound { flag, args } => {
                let listing = debug_listing(args);
                self.message_with_listing(listing.as_str())
            },
            ClError::NoArgumentsAfterFlag { flag, args } => {
                let listing = debug_listing(args);
                self.message_with_listing(listing.as_str())
            },
            ClError::NoPayloadAfterFlag { flag, args } => {
                let listing = debug_listing(args);
                self.message_with_listing(listing.as_str())
            },
            _ => self.message_with_listing(""),
        }
    }
}

} // verus!
