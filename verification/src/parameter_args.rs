//! Declaring parameters: the required positional arguments, which stand last
//! on the command line.

use vstd::prelude::*;
use crate::text::{ascii_uppercase, lemma_to_ascii_upper_idempotent, to_ascii_upper};

verus! {

/// A `ClParameter` over sequences of characters.
pub struct ClParameterView {
    pub name: Seq<char>,
    pub description: Seq<char>,
    pub data: Seq<char>,
}

impl ClParameterView {
    /// The help line of the parameter: its name behind four blanks and
    /// followed by a colon, and on the next line its description behind eight
    /// blanks.
    pub open spec fn help_line(self) -> Seq<char> {
        "    "@ + self.name + ":\n        "@ + self.description
    }
}

/// One positional argument: its name, its description, and the value that a
/// scan found for it.
///
/// The name of a value of this type is always in upper case: `new` and
/// `set_name` put it so.
#[derive(Debug, PartialEq)]
pub struct ClParameter {
    name: String,
    description: String,
    data: String,
}

impl View for ClParameter {
    type V = ClParameterView;

    closed spec fn view(&self) -> ClParameterView {
        ClParameterView { name: self.name@, description: self.description@, data: self.data@ }
    }
}

impl DeepView for ClParameter {
    type V = ClParameterView;

    open spec fn deep_view(&self) -> ClParameterView {
        self@
    }
}

impl Clone for ClParameter {
    fn clone(&self) -> (copy: Self)
        ensures
            copy@ == self@,
    {
        proof {
            use_type_invariant(self);
        }
        ClParameter {
            name: self.name.clone(),
            description: self.description.clone(),
            data: self.data.clone(),
        }
    }
}

impl ClParameter {
    #[verifier::type_invariant]
    spec fn name_is_in_upper_case(&self) -> bool {
        to_ascii_upper(self.name@) == self.name@
    }

    /// Declares a parameter. Its value is empty until a scan fills it in.
    pub fn new(name: &str, description: &str) -> (parameter: ClParameter)
        ensures
            parameter@ == (ClParameterView {
                name: to_ascii_upper(name@),
                description: description@,
                data: Seq::empty(),
            }),
    {
        proof {
            lemma_to_ascii_upper_idempotent(name@);
        }
        ClParameter {
            name: ascii_uppercase(name),
            description: description.to_owned(),
            data: String::new(),
        }
    }

    /// The lines that describe this parameter in a help text.
    pub fn gen_help_line(&self) -> (line: String)
        ensures
            line@ == self@.help_line(),
    {
        let mut line = "    ".to_owned();
        line.append(self.name.as_str());
        line.append(":\n        ");
        line.append(self.description.as_str());
        line
    }

    /// The name, in upper case.
    pub fn get_name(&self) -> (name: &str)
        ensures
            name@ == self@.name,
            to_ascii_upper(name@) == name@,
    {
        proof {
            use_type_invariant(self);
        }
        self.name.as_str()
    }

    /// The description.
    pub fn get_description(&self) -> (description: &str)
        ensures
            description@ == self@.description,
    {
        self.description.as_str()
    }

    /// The value; empty in a declaration.
    pub fn get_data(&self) -> (data: &str)
        ensures
            data@ == self@.data,
    {
        self.data.as_str()
    }

    /// Gives this parameter the name `new_name`, in upper case.
    pub fn set_name(&mut self, new_name: &str)
        ensures
            final(self)@ == (ClParameterView { name: to_ascii_upper(new_name@), ..old(self)@ }),
    {
        proof {
            lemma_to_ascii_upper_idempotent(new_name@);
        }
        self.name = ascii_uppercase(new_name);
    }

    /// Gives this parameter the description `new_description`.
    pub fn set_description(&mut self, new_description: &str)
        ensures
            final(self)@ == (ClParameterView { description: new_description@, ..old(self)@ }),
    {
        proof {
            use_type_invariant(&*self);
        }
        self.description = new_description.to_owned();
    }

    /// Gives this parameter the value `new_data`.
    pub fn set_data(&mut self, new_data: &str)
        ensures
            final(self)@ == (ClParameterView { data: new_data@, ..old(self)@ }),
    {
        proof {
            use_type_invariant(&*self);
        }
        self.data = new_data.to_owned();
    }
}

} // verus!
