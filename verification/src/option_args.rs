//! Declaring options: the flags that introduce them, their three shapes, and
//! the line that describes one of them in a help text.

use vstd::prelude::*;
use vstd::utf8::{is_ascii_chars, is_ascii_chars_encode_utf8};
use crate::error::{ClError, ClErrorView};
use crate::text::{
    ascii_uppercase, byte_len, copy_strings, is_ascii_letter, is_letter, padding, spaces,
    to_ascii_upper,
};

verus! {

/// A `ClOptionInfo` over sequences of characters.
pub struct ClOptionInfoView {
    pub short_flag: Seq<char>,
    pub long_flag: Seq<char>,
    pub description: Seq<char>,
}

/// A short flag is left empty or is a hyphen followed by one letter.
pub open spec fn valid_short_flag(flag: Seq<char>) -> bool {
    flag.len() == 0 || (flag.len() == 2 && flag[0] == '-' && is_ascii_letter(flag[1]))
}

/// A long flag is left empty or is two hyphens followed by letters and
/// hyphens, in any number.
pub open spec fn valid_long_flag(flag: Seq<char>) -> bool {
    flag.len() == 0 || (flag.len() >= 2 && flag[0] == '-' && flag[1] == '-' && forall|i: int|
        2 <= i < flag.len() ==> is_ascii_letter(#[trigger] flag[i]) || flag[i] == '-')
}

/// The two flags of one option are acceptable: each is valid, and at least
/// one of them is given.
pub open spec fn flags_formatted_properly(short_flag: Seq<char>, long_flag: Seq<char>) -> bool {
    &&& short_flag.len() > 0 || long_flag.len() > 0
    &&& valid_short_flag(short_flag)
    &&& valid_long_flag(long_flag)
}

/// The short flag, the long flag and the description of one option.
///
/// A value of this type always holds flags that are formatted properly:
/// `new` is the only way to make one, and it refuses all others.
#[derive(Debug, PartialEq)]
pub struct ClOptionInfo {
    short_flag: String,
    long_flag: String,
    description: String,
}

impl View for ClOptionInfo {
    type V = ClOptionInfoView;

    closed spec fn view(&self) -> ClOptionInfoView {
        ClOptionInfoView {
            short_flag: self.short_flag@,
            long_flag: self.long_flag@,
            description: self.description@,
        }
    }
}

impl DeepView for ClOptionInfo {
    type V = ClOptionInfoView;

    open spec fn deep_view(&self) -> ClOptionInfoView {
        self@
    }
}

impl Clone for ClOptionInfo {
    fn clone(&self) -> (copy: Self)
        ensures
            copy@ == self@,
    {
        proof {
            use_type_invariant(self);
        }
        ClOptionInfo {
            short_flag: self.short_flag.clone(),
            long_flag: self.long_flag.clone(),
            description: self.description.clone(),
        }
    }
}

/// Tells whether `flag` is empty or a hyphen followed by one letter.
fn is_valid_short_flag(flag: &str) -> (b: bool)
    ensures
        b == valid_short_flag(flag@),
{
    if flag.is_empty() {
        return true;
    }
    let mut seen: u8 = 0;
    let mut valid = true;
    for c in it: flag.chars()
        invariant
            it.seq() == flag@,
            seen <= 3,
            seen < 3 ==> seen == it.index(),
            seen == 3 ==> it.index() >= 3,
            valid == ((it.index() >= 1 ==> flag@[0] == '-') && (it.index() >= 2 ==> is_ascii_letter(
                flag@[1],
            ))),
    {
        if seen == 0 {
            valid = valid && c == '-';
        } else if seen == 1 {
            valid = valid && is_letter(c);
        }
        if seen < 3 {
            seen = seen + 1;
        }
    }
    valid && seen == 2
}

/// Tells whether `flag` is empty or two hyphens followed by letters and
/// hyphens.
fn is_valid_long_flag(flag: &str) -> (b: bool)
    ensures
        b == valid_long_flag(flag@),
{
    if flag.is_empty() {
        return true;
    }
    let mut seen: u8 = 0;
    let mut valid = true;
    for c in it: flag.chars()
        invariant
            it.seq() == flag@,
            seen <= 2,
            seen < 2 ==> seen == it.index(),
            seen == 2 ==> it.index() >= 2,
            valid == ((it.index() >= 1 ==> flag@[0] == '-') && (it.index() >= 2 ==> flag@[1] == '-')
                && forall|i: int|
                2 <= i < it.index() ==> is_ascii_letter(#[trigger] flag@[i]) || flag@[i] == '-'),
    {
        if seen < 2 {
            valid = valid && c == '-';
            seen = seen + 1;
        } else {
            valid = valid && (is_letter(c) || c == '-');
        }
    }
    valid && seen == 2
}

impl ClOptionInfo {
    #[verifier::type_invariant]
    spec fn flags_are_formatted_properly(&self) -> bool {
        flags_formatted_properly(self.short_flag@, self.long_flag@)
    }

    /// Tells whether `short_flag` and `long_flag` may be declared together
    /// for one option.
    pub fn are_flags_formatted_properly(short_flag: &str, long_flag: &str) -> (b: bool)
        ensures
            b == flags_formatted_properly(short_flag@, long_flag@),
    {
        if short_flag.is_empty() && long_flag.is_empty() {
            return false;
        }
        is_valid_short_flag(short_flag) && is_valid_long_flag(long_flag)
    }

    /// Declares the flags and the description of one option.
    ///
    /// The short flag is a hyphen and one letter (`-r`), the long flag two
    /// hyphens and a word, or several joined by hyphens (`--dry-run`). Either
    /// may be left empty, not both. Any other pair of flags is refused with
    /// `ClError::ImproperFlagFormat`, which names both.
    pub fn new(short_flag: &str, long_flag: &str, description: &str) -> (made: Result<
        ClOptionInfo,
        ClError,
    >)
        ensures
            match made {
                Ok(info) => {
                    &&& flags_formatted_properly(short_flag@, long_flag@)
                    &&& info@ == (ClOptionInfoView {
                        short_flag: short_flag@,
                        long_flag: long_flag@,
                        description: description@,
                    })
                },
                Err(e) => {
                    &&& !flags_formatted_properly(short_flag@, long_flag@)
                    &&& e@ == (ClErrorView::ImproperFlagFormat {
                        short_flag: short_flag@,
                        long_flag: long_flag@,
                    })
                },
            },
    {
        if Self::are_flags_formatted_properly(short_flag, long_flag) {
            Ok(
                ClOptionInfo {
                    short_flag: short_flag.to_owned(),
                    long_flag: long_flag.to_owned(),
                    description: description.to_owned(),
                },
            )
        } else {
            Err(
                ClError::ImproperFlagFormat {
                    short_flag: short_flag.to_owned(),
                    long_flag: long_flag.to_owned(),
                },
            )
        }
    }

    /// The short flag; empty where the option has none.
    pub fn get_short_flag(&self) -> (flag: &str)
        ensures
            flag@ == self@.short_flag,
            flags_formatted_properly(self@.short_flag, self@.long_flag),
    {
        proof {
            use_type_invariant(self);
        }
        self.short_flag.as_str()
    }

    /// The long flag; empty where the option has none.
    pub fn get_long_flag(&self) -> (flag: &str)
        ensures
            flag@ == self@.long_flag,
            flags_formatted_properly(self@.short_flag, self@.long_flag),
    {
        proof {
            use_type_invariant(self);
        }
        self.long_flag.as_str()
    }

    /// The description.
    pub fn get_description(&self) -> (description: &str)
        ensures
            description@ == self@.description,
    {
        self.description.as_str()
    }
}

/// The column at which the long flag of a help line begins.
pub const FLAG_COLUMN: usize = 8;

/// The column at which the description of a help line begins.
pub const DESCRIPTION_COLUMN: usize = 38;

/// What is written behind `written` so that the next piece begins at
/// `column`: blanks up to that column or, where `written` is already longer
/// than that, a line break and `column` blanks. Lengths are counted in bytes.
pub open spec fn gap_to_column(written: Seq<char>, column: nat) -> Seq<char> {
    if byte_len(written) > column {
        "\n"@ + spaces(column)
    } else {
        spaces((column - byte_len(written)) as nat)
    }
}

/// A `ClOption` over sequences of characters.
pub enum ClOptionView {
    Flag { present: bool, info: ClOptionInfoView },
    FlagList { present: bool, list_name: Seq<char>, list: Seq<Seq<char>>, info: ClOptionInfoView },
    FlagData { present: bool, data_name: Seq<char>, data: Seq<char>, info: ClOptionInfoView },
}

impl ClOptionView {
    /// The flags and the description of the option.
    pub open spec fn info(self) -> ClOptionInfoView {
        match self {
            ClOptionView::Flag { present, info } => info,
            ClOptionView::FlagList { present, list_name, list, info } => info,
            ClOptionView::FlagData { present, data_name, data, info } => info,
        }
    }

    /// Whether the option was found in a token list.
    pub open spec fn present(self) -> bool {
        match self {
            ClOptionView::Flag { present, info } => present,
            ClOptionView::FlagList { present, list_name, list, info } => present,
            ClOptionView::FlagData { present, data_name, data, info } => present,
        }
    }

    /// What follows the long flag in a help line: nothing for a plain flag,
    /// the label in angle brackets for a value, and the same followed by
    /// three dots for a list.
    pub open spec fn placeholder(self) -> Seq<char> {
        match self {
            ClOptionView::Flag { present, info } => Seq::empty(),
            ClOptionView::FlagList { present, list_name, list, info } => " <"@ + list_name + ">..."@,
            ClOptionView::FlagData { present, data_name, data, info } => " <"@ + data_name + ">"@,
        }
    }

    /// The help line up to the long flag: four blanks, the short flag and a
    /// comma, or a blank in place of the comma where there is no short flag.
    pub open spec fn short_flag_column(self) -> Seq<char> {
        "    "@ + self.info().short_flag + (if self.info().short_flag.len() == 0 {
            " "@
        } else {
            ","@
        })
    }

    /// The help line of the option: the short flag behind four blanks and
    /// followed by a comma, the long flag with its placeholder from the column
    /// `FLAG_COLUMN` on, the description from the column `DESCRIPTION_COLUMN`
    /// on.
    pub open spec fn help_line(self) -> Seq<char> {
        let short = self.short_flag_column();
        let flags = short + gap_to_column(short, FLAG_COLUMN as nat) + self.info().long_flag
            + self.placeholder();
        flags + gap_to_column(flags, DESCRIPTION_COLUMN as nat) + self.info().description
    }
}

/// Appends to `line` the gap that brings it to `column`.
fn append_gap(line: &mut String, column: usize)
    ensures
        final(line)@ == old(line)@ + gap_to_column(old(line)@, column as nat),
{
    let written = line.as_str().as_bytes().len();
    if written > column {
        let blanks = padding(column);
        line.append("\n");
        line.append(blanks.as_str());
    } else {
        let blanks = padding(column - written);
        line.append(blanks.as_str());
    }
}

/// One option that a program accepts: a plain flag, a flag followed by a
/// list, or a flag followed by one value.
///
/// A declaration is made by `new_flag`, `new_flag_list` or `new_flag_data`,
/// with `present` false and an empty payload. Scanning a token list gives a
/// copy of the declaration in which `present` and the payload are filled in.
#[derive(Debug, PartialEq)]
pub enum ClOption {
    /// An option like `-r` or `--recursive`.
    Flag {
        /// Whether the flag was found.
        present: bool,
        /// The flags and the description.
        info: ClOptionInfo,
    },
    /// An option like `-f <EXTENSIONS>...` or `--filter <EXTENSIONS>...`.
    FlagList {
        /// Whether the flag was found.
        present: bool,
        /// The label of the list in help lines.
        list_name: String,
        /// The list that followed the flag.
        list: Vec<String>,
        /// The flags and the description.
        info: ClOptionInfo,
    },
    /// An option like `--format <FORMAT>`.
    FlagData {
        /// Whether the flag was found.
        present: bool,
        /// The label of the value in help lines.
        data_name: String,
        /// The value that followed the flag.
        data: String,
        /// The flags and the description.
        info: ClOptionInfo,
    },
}

impl View for ClOption {
    type V = ClOptionView;

    open spec fn view(&self) -> ClOptionView {
        match self {
            ClOption::Flag { present, info } => ClOptionView::Flag { present: *present, info: info@ },
            ClOption::FlagList { present, list_name, list, info } => ClOptionView::FlagList {
                present: *present,
                list_name: list_name@,
                list: list.deep_view(),
                info: info@,
            },
            ClOption::FlagData { present, data_name, data, info } => ClOptionView::FlagData {
                present: *present,
                data_name: data_name@,
                data: data@,
                info: info@,
            },
        }
    }
}

impl DeepView for ClOption {
    type V = ClOptionView;

    open spec fn deep_view(&self) -> ClOptionView {
        self@
    }
}

impl Clone for ClOption {
    fn clone(&self) -> (copy: Self)
        ensures
            copy@ == self@,
    {
        match self {
            ClOption::Flag { present, info } => ClOption::Flag { present: *present, info: info.clone() },
            ClOption::FlagList { present, list_name, list, info } => ClOption::FlagList {
                present: *present,
                list_name: list_name.clone(),
                list: copy_strings(list.as_slice()),
                info: info.clone(),
            },
            ClOption::FlagData { present, data_name, data, info } => ClOption::FlagData {
                present: *present,
                data_name: data_name.clone(),
                data: data.clone(),
                info: info.clone(),
            },
        }
    }
}

impl ClOption {
    /// Declares a plain flag.
    pub fn new_flag(info: &ClOptionInfo) -> (option: ClOption)
        ensures
            option@ == (ClOptionView::Flag { present: false, info: info@ }),
    {
        ClOption::Flag { present: false, info: info.clone() }
    }

    /// Declares a flag that is followed by a list. `list_name` is the label of
    /// the list in help lines, and is kept in upper case.
    pub fn new_flag_list(info: &ClOptionInfo, list_name: &str) -> (option: ClOption)
        ensures
            option@ == (ClOptionView::FlagList {
                present: false,
                list_name: to_ascii_upper(list_name@),
                list: Seq::empty(),
                info: info@,
            }),
    {
        let list: Vec<String> = Vec::new();
        assert(list.deep_view() =~= Seq::<Seq<char>>::empty());
        ClOption::FlagList {
            present: false,
            list_name: ascii_uppercase(list_name),
            list,
            info: info.clone(),
        }
    }

    /// Declares a flag that is followed by one value. `data_name` is the label
    /// of the value in help lines, and is kept in upper case.
    pub fn new_flag_data(info: &ClOptionInfo, data_name: &str) -> (option: ClOption)
        ensures
            option@ == (ClOptionView::FlagData {
                present: false,
                data_name: to_ascii_upper(data_name@),
                data: Seq::empty(),
                info: info@,
            }),
    {
        ClOption::FlagData {
            present: false,
            data_name: ascii_uppercase(data_name),
            data: String::new(),
            info: info.clone(),
        }
    }

    /// The line that describes this option in a help text.
    pub fn gen_help_line(&self) -> (line: String)
        ensures
            line@ == self@.help_line(),
    {
        let info = self.get_info();
        let short_flag = info.get_short_flag();
        let mut line = "    ".to_owned();
        line.append(short_flag);
        if short_flag.is_empty() {
            line.append(" ");
        } else {
            line.append(",");
        }
        append_gap(&mut line, FLAG_COLUMN);
        line.append(info.get_long_flag());
        let ghost before = line@;
        match self {
            ClOption::Flag { .. } => {},
            ClOption::FlagList { present, list_name, list, info } => {
                line.append(" <");
                line.append(list_name.as_str());
                line.append(">...");
                assert(line@ =~= before + self@.placeholder());
            },
            ClOption::FlagData { present, data_name, data, info } => {
                line.append(" <");
                line.append(data_name.as_str());
                line.append(">");
                assert(line@ =~= before + self@.placeholder());
            },
        }
        append_gap(&mut line, DESCRIPTION_COLUMN);
        line.append(info.get_description());
        line
    }

    /// The flags and the description of this option.
    pub fn get_info(&self) -> (info: &ClOptionInfo)
        ensures
            info@ == self@.info(),
    {
        match self {
            ClOption::Flag { present, info } => info,
            ClOption::FlagList { present, list_name, list, info } => info,
            ClOption::FlagData { present, data_name, data, info } => info,
        }
    }

    /// The short flag of this option; empty where it has none.
    pub fn get_short_flag(&self) -> (flag: &str)
        ensures
            flag@ == self@.info().short_flag,
    {
        self.get_info().get_short_flag()
    }

    /// The long flag of this option; empty where it has none.
    pub fn get_long_flag(&self) -> (flag: &str)
        ensures
            flag@ == self@.info().long_flag,
    {
        self.get_info().get_long_flag()
    }

    /// The description of this option.
    pub fn get_description(&self) -> (description: &str)
        ensures
            description@ == self@.info().description,
    {
        self.get_info().get_description()
    }

    /// Whether this option was found in the token list. False in a
    /// declaration.
    pub fn get_present(&self) -> (present: bool)
        ensures
            present == self@.present(),
    {
        match self {
            ClOption::Flag { present, info } => *present,
            ClOption::FlagList { present, list_name, list, info } => *present,
            ClOption::FlagData { present, data_name, data, info } => *present,
        }
    }

    /// The list that followed the flag; `None` unless this option takes a
    /// list.
    pub fn get_list(&self) -> (found: Option<&Vec<String>>)
        ensures
            match found {
                Some(list) => self@ is FlagList && list.deep_view() == self@->list,
                None => !(self@ is FlagList),
            },
    {
        match self {
            ClOption::FlagList { present, list_name, list, info } => Some(list),
            _ => None,
        }
    }

    /// The value that followed the flag; `None` unless this option takes a
    /// value.
    pub fn get_data(&self) -> (found: Option<&String>)
        ensures
            match found {
                Some(data) => self@ is FlagData && data@ == self@->data,
                None => !(self@ is FlagData),
            },
    {
        match self {
            ClOption::FlagData { present, data_name, data, info } => Some(data),
            _ => None,
        }
    }
}

/// Where the flags are formatted properly, the short flag never reaches
/// `FLAG_COLUMN`: the long flag stands on the same line, behind one blank
/// after the comma, or behind eight blanks where there is no short flag.
pub proof fn lemma_long_flag_stands_at_flag_column(option: ClOptionView)
    requires
        flags_formatted_properly(option.info().short_flag, option.info().long_flag),
    ensures
        option.short_flag_column() + gap_to_column(
            option.short_flag_column(),
            FLAG_COLUMN as nat,
        ) == if option.info().short_flag.len() == 0 {
            spaces(8)
        } else {
            "    "@ + option.info().short_flag + ", "@
        },
{
    reveal_strlit("    ");
    reveal_strlit(" ");
    reveal_strlit(",");
    reveal_strlit(", ");
    let short = option.short_flag_column();
    assert(is_ascii_chars(short));
    is_ascii_chars_encode_utf8(short);
    assert(byte_len(short) == short.len());
    let line = short + gap_to_column(short, FLAG_COLUMN as nat);
    if option.info().short_flag.len() == 0 {
        assert(line =~= spaces(8));
    } else {
        assert(line =~= "    "@ + option.info().short_flag + ", "@);
    }
}

} // verus!
