//! What an installer writes into the registry of the system: the icon of a file
//! type, and the command that opens a file.

use vstd::prelude::*;

verus! {

/// The character of a decimal digit.
pub open spec fn digit(d: nat) -> char
    recommends
        d < 10,
{
    if d == 0 {
        '0'
    } else if d == 1 {
        '1'
    } else if d == 2 {
        '2'
    } else if d == 3 {
        '3'
    } else if d == 4 {
        '4'
    } else if d == 5 {
        '5'
    } else if d == 6 {
        '6'
    } else if d == 7 {
        '7'
    } else if d == 8 {
        '8'
    } else {
        '9'
    }
}

/// The decimal digits of a number, the most significant first.
pub open spec fn decimal(n: nat) -> Seq<char>
    decreases n,
{
    if n < 10 {
        seq![digit(n)]
    } else {
        decimal(n / 10).push(digit(n % 10))
    }
}

fn digit_text(d: u32) -> (r: &'static str)
    requires
        d < 10,
    ensures
        r@ == seq![digit(d as nat)],
{
    proof {
        reveal_strlit("0");
        reveal_strlit("1");
        reveal_strlit("2");
        reveal_strlit("3");
        reveal_strlit("4");
        reveal_strlit("5");
        reveal_strlit("6");
        reveal_strlit("7");
        reveal_strlit("8");
        reveal_strlit("9");
    }
    let text = if d == 0 {
        "0"
    } else if d == 1 {
        "1"
    } else if d == 2 {
        "2"
    } else if d == 3 {
        "3"
    } else if d == 4 {
        "4"
    } else if d == 5 {
        "5"
    } else if d == 6 {
        "6"
    } else if d == 7 {
        "7"
    } else if d == 8 {
        "8"
    } else {
        "9"
    };
    assert(text@ =~= seq![digit(d as nat)]);
    text
}

/// The number in decimal digits.
pub fn decimal_text(n: u32) -> (r: String)
    ensures
        r@ == decimal(n as nat),
    decreases n,
{
    if n < 10 {
        String::from_str(digit_text(n))
    } else {
        let front = decimal_text(n / 10);
        let r = front.concat(digit_text(n % 10));
        assert(r@ =~= decimal((n / 10) as nat).push(digit((n % 10) as nat)));
        r
    }
}

/// The path to an icon, as the registry holds it under `DefaultIcon`.
#[derive(Debug, Clone, PartialEq, Eq)]
pub struct Icon {
    /// The path to the executable (or library) that holds the icon.
    pub executable_path: String,
    /// The index of the icon in that file.
    pub icon_index: u32,
}

impl Icon {
    /// The text that stands for the icon in the registry: the path in double
    /// quotes, a comma, and the index.
    pub open spec fn reg_value(self) -> Seq<char> {
        "\""@ + self.executable_path@ + "\","@ + decimal(self.icon_index as nat)
    }

    /// The first icon of the given file.
    pub fn new(executable_path: String) -> (r: Icon)
        ensures
            r.executable_path@ == executable_path@,
            r.icon_index == 0,
    {
        Icon { executable_path, icon_index: 0 }
    }

    /// The text that stands for the icon in the registry.
    pub fn to_reg_value(&self) -> (r: String)
        ensures
            r@ == self.reg_value(),
    {
        let mut text = String::from_str("\"");
        text.append(self.executable_path.as_str());
        text.append("\",");
        let index = decimal_text(self.icon_index);
        text.append(index.as_str());
        text
    }
}

/// A command by which the shell opens a file or an address with an application:
/// it starts the application and hands over what is to be opened as the first
/// argument.
#[derive(Debug, Clone, PartialEq, Eq)]
pub struct PlainOpenCommand {
    /// The path to the executable.
    pub executable_path: String,
}

impl PlainOpenCommand {
    /// The text that stands for the command in the registry: the path and the
    /// placeholder of the argument, each in double quotes, so that a path with
    /// spaces stays one word.
    pub open spec fn reg_value(self) -> Seq<char> {
        "\""@ + self.executable_path@ + "\" \"%1\""@
    }

    /// The command that opens with the given executable.
    pub fn new(executable_path: String) -> (r: PlainOpenCommand)
        ensures
            r.executable_path@ == executable_path@,
    {
        PlainOpenCommand { executable_path }
    }

    /// The text that stands for the command in the registry.
    pub fn to_reg_value(&self) -> (r: String)
        ensures
            r@ == self.reg_value(),
    {
        let mut text = String::from_str("\"");
        text.append(self.executable_path.as_str());
        text.append("\" \"%1\"");
        text
    }
}

} // verus!
