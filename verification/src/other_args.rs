//! Declaring the arguments that are no options, in their plain form: a name
//! and a description, shown on two lines of a help text.

use vstd::prelude::*;
use crate::text::{ascii_uppercase, to_ascii_upper};

verus! {

/// A `ClOther` over sequences of characters.
pub struct ClOtherView {
    pub name: Seq<char>,
    pub description: Seq<char>,
    pub data: Seq<char>,
    pub present: bool,
}

impl ClOtherView {
    /// The help line of the argument: its name behind four blanks and
    /// followed by a colon, and on the next line its description behind four
    /// blanks.
    pub open spec fn help_line(self) -> Seq<char> {
        "    "@ + self.name + ":\n    "@ + self.description
    }
}

/// An argument that is no option: its name, which is kept in upper case, its
/// description, its value, and whether it was found.
#[derive(Debug, PartialEq)]
pub struct ClOther {
    name: String,
    description: String,
    data: String,
    present: bool,
}

impl View for ClOther {
    type V = ClOtherView;

    closed spec fn view(&self) -> ClOtherView {
        ClOtherView {
            name: self.name@,
            description: self.description@,
            data: self.data@,
            present: self.present,
        }
    }
}

impl DeepView for ClOther {
    type V = ClOtherView;

    open spec fn deep_view(&self) -> ClOtherView {
        self@
    }
}

impl Clone for ClOther {
    fn clone(&self) -> (copy: Self)
        ensures
            copy@ == self@,
    {
        ClOther {
            name: self.name.clone(),
            description: self.description.clone(),
            data: self.data.clone(),
            present: self.present,
        }
    }
}

impl ClOther {
    /// Declares an argument: it has no value yet and was not found.
    pub fn new(name: &str, description: &str) -> (other: ClOther)
        ensures
            other@ == (ClOtherView {
                name: to_ascii_upper(name@),
                description: description@,
                data: Seq::empty(),
                present: false,
            }),
    {
        ClOther {
            name: ascii_uppercase(name),
            description: description.to_owned(),
            data: String::new(),
            present: false,
        }
    }

    /// The lines that describe this argument in a help text.
    pub fn gen_help_line(&self) -> (line: String)
        ensures
            line@ == self@.help_line(),
    {
        let mut line = "    ".to_owned();
        line.append(self.name.as_str());
        line.append(":\n    ");
        line.append(self.description.as_str());
        line
    }
}

} // verus!
