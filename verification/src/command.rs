//! The commands that are sent to the window manager, and their text.

use vstd::prelude::*;
use vstd::string::StringExecFns;

verus! {

/// The decimal digit `d`, for `0 <= d <= 9`.
pub open spec fn digit(d: int) -> char {
    if d == 0 {
        '0'
    } else if d == 1 {
        '1'
    } else if d == 2 {
        '2'
    } else if d == 3 {
        '3'
    } else if d == 4 {
        '4'
    } else if d == 5 {
        '5'
    } else if d == 6 {
        '6'
    } else if d == 7 {
        '7'
    } else if d == 8 {
        '8'
    } else {
        '9'
    }
}

/// A natural number in decimal, without leading zeros.
pub open spec fn digits(n: nat) -> Seq<char>
    decreases n,
{
    if n < 10 {
        seq![digit(n as int)]
    } else {
        digits(n / 10).push(digit((n % 10) as int))
    }
}

/// An integer in decimal, with a minus sign where it is negative.
pub open spec fn decimal(n: int) -> Seq<char> {
    if n < 0 {
        seq!['-'] + digits((-n) as nat)
    } else {
        digits(n as nat)
    }
}

fn digit_str(d: u64) -> (s: &'static str)
    requires
        d < 10,
    ensures
        s@ == seq![digit(d as int)],
{
    proof {
        reveal_strlit("0");
        reveal_strlit("1");
        reveal_strlit("2");
        reveal_strlit("3");
        reveal_strlit("4");
        reveal_strlit("5");
        reveal_strlit("6");
        reveal_strlit("7");
        reveal_strlit("8");
        reveal_strlit("9");
    }
    let s = if d == 0 {
        "0"
    } else if d == 1 {
        "1"
    } else if d == 2 {
        "2"
    } else if d == 3 {
        "3"
    } else if d == 4 {
        "4"
    } else if d == 5 {
        "5"
    } else if d == 6 {
        "6"
    } else if d == 7 {
        "7"
    } else if d == 8 {
        "8"
    } else {
        "9"
    };
    assert(s@ =~= seq![digit(d as int)]);
    s
}

fn push_digits(out: &mut String, n: u64)
    ensures
        final(out)@ == old(out)@ + digits(n as nat),
    decreases n,
{
    if n >= 10 {
        push_digits(out, n / 10);
    }
    out.append(digit_str(n % 10));
    assert(out@ =~= old(out)@ + digits(n as nat));
}

/// Appends the decimal form of `n` to `out`.
pub fn push_decimal(out: &mut String, n: i64)
    ensures
        final(out)@ == old(out)@ + decimal(n as int),
{
    if n < 0 {
        proof {
            reveal_strlit("-");
        }
        out.append("-");
        let magnitude: u64 = (-(n + 1)) as u64 + 1;
        push_digits(out, magnitude);
        assert(out@ =~= old(out)@ + decimal(n as int));
    } else {
        push_digits(out, n as u64);
    }
}

/// The axis along which a split container lays out its children.
#[derive(Clone, Copy, Debug, PartialEq, Eq, Structural)]
pub enum Dimension {
    Width,
    Height,
}

/// The four ways in which a container can arrange its children.
#[derive(Clone, Copy, Debug, PartialEq, Eq, Structural)]
pub enum LayoutStyle {
    SplitH,
    SplitV,
    Tabbed,
    Stacked,
}

/// One command for the window manager.
#[derive(Debug, PartialEq, Eq)]
pub enum Command {
    /// Move the focus to the output of this name.
    FocusOutput { name: String },
    /// Switch to the workspace of this name.
    Workspace { name: String },
    /// Put the focused container into a new horizontal split.
    SplitH,
    /// Give the focused container's parent this layout.
    Layout { style: LayoutStyle },
    /// Set the focused container's extent along one axis, in pixels.
    Resize { dimension: Dimension, size: i32 },
    /// Move the focus to the sibling before the focused container.
    FocusPrevSibling,
    /// Move the focus to the parent of the focused container.
    FocusParent,
    /// Take a container out of the tiling.
    FloatingEnable { con_id: i64 },
    /// Let a placeholder and a window change places.
    Swap { placeholder: i64, window: i64 },
    /// Close a container.
    Kill { con_id: i64 },
}

pub enum CommandView {
    FocusOutput { name: Seq<char> },
    Workspace { name: Seq<char> },
    SplitH,
    Layout { style: LayoutStyle },
    Resize { dimension: Dimension, size: int },
    FocusPrevSibling,
    FocusParent,
    FloatingEnable { con_id: int },
    Swap { placeholder: int, window: int },
    Kill { con_id: int },
}

impl View for Command {
    type V = CommandView;

    open spec fn view(&self) -> CommandView {
        match *self {
            Command::FocusOutput { name } => CommandView::FocusOutput { name: name@ },
            Command::Workspace { name } => CommandView::Workspace { name: name@ },
            Command::SplitH => CommandView::SplitH,
            Command::Layout { style } => CommandView::Layout { style },
            Command::Resize { dimension, size } => CommandView::Resize {
                dimension,
                size: size as int,
            },
            Command::FocusPrevSibling => CommandView::FocusPrevSibling,
            Command::FocusParent => CommandView::FocusParent,
            Command::FloatingEnable { con_id } => CommandView::FloatingEnable {
                con_id: con_id as int,
            },
            Command::Swap { placeholder, window } => CommandView::Swap {
                placeholder: placeholder as int,
                window: window as int,
            },
            Command::Kill { con_id } => CommandView::Kill { con_id: con_id as int },
        }
    }
}

impl Clone for Command {
    fn clone(&self) -> (r: Self)
        ensures
            r == *self,
    {
        match self {
            Command::FocusOutput { name } => Command::FocusOutput { name: name.clone() },
            Command::Workspace { name } => Command::Workspace { name: name.clone() },
            Command::SplitH => Command::SplitH,
            Command::Layout { style } => Command::Layout { style: *style },
            Command::Resize { dimension, size } => Command::Resize {
                dimension: *dimension,
                size: *size,
            },
            Command::FocusPrevSibling => Command::FocusPrevSibling,
            Command::FocusParent => Command::FocusParent,
            Command::FloatingEnable { con_id } => Command::FloatingEnable { con_id: *con_id },
            Command::Swap { placeholder, window } => Command::Swap {
                placeholder: *placeholder,
                window: *window,
            },
            Command::Kill { con_id } => Command::Kill { con_id: *con_id },
        }
    }
}

/// The view of a list of commands.
pub open spec fn commands_view(cs: Seq<Command>) -> Seq<CommandView> {
    cs.map_values(|c: Command| c@)
}

impl Dimension {
    /// The word for the axis in a command.
    pub open spec fn text(self) -> Seq<char> {
        match self {
            Dimension::Width => "width"@,
            Dimension::Height => "height"@,
        }
    }

    /// The word for the axis in a command.
    pub fn word(&self) -> (s: &'static str)
        ensures
            s@ == self.text(),
    {
        match self {
            Dimension::Width => "width",
            Dimension::Height => "height",
        }
    }
}

impl LayoutStyle {
    /// The word for the layout in a command.
    pub open spec fn text(self) -> Seq<char> {
        match self {
            LayoutStyle::SplitH => "splith"@,
            LayoutStyle::SplitV => "splitv"@,
            LayoutStyle::Tabbed => "tabbed"@,
            LayoutStyle::Stacked => "stacked"@,
        }
    }

    /// The word for the layout in a command.
    pub fn word(&self) -> (s: &'static str)
        ensures
            s@ == self.text(),
    {
        match self {
            LayoutStyle::SplitH => "splith",
            LayoutStyle::SplitV => "splitv",
            LayoutStyle::Tabbed => "tabbed",
            LayoutStyle::Stacked => "stacked",
        }
    }
}

impl CommandView {
    /// The command as the window manager reads it.
    pub open spec fn text(self) -> Seq<char> {
        match self {
            CommandView::FocusOutput { name } => "focus output "@ + name,
            CommandView::Workspace { name } => "workspace "@ + name,
            CommandView::SplitH => "splith"@,
            CommandView::Layout { style } => "layout "@ + style.text(),
            CommandView::Resize { dimension, size } => "resize set "@ + dimension.text() + " "@
                + decimal(size) + " px"@,
            CommandView::FocusPrevSibling => "focus prev sibling"@,
            CommandView::FocusParent => "focus parent"@,
            CommandView::FloatingEnable { con_id } => "[con_id="@ + decimal(con_id)
                + "] floating enable"@,
            CommandView::Swap { placeholder, window } => "[con_id="@ + decimal(placeholder)
                + "] swap container with con_id "@ + decimal(window),
            CommandView::Kill { con_id } => "[con_id="@ + decimal(con_id) + "] kill"@,
        }
    }
}

impl Command {
    /// The command as the window manager reads it.
    pub fn render(&self) -> (s: String)
        ensures
            s@ == self@.text(),
    {
        match self {
            Command::FocusOutput { name } => {
                let mut s = String::from_str("focus output ");
                s.append(name.as_str());
                s
            },
            Command::Workspace { name } => {
                let mut s = String::from_str("workspace ");
                s.append(name.as_str());
                s
            },
            Command::SplitH => String::from_str("splith"),
            Command::Layout { style } => {
                let mut s = String::from_str("layout ");
                s.append(style.word());
                s
            },
            Command::Resize { dimension, size } => {
                let mut s = String::from_str("resize set ");
                s.append(dimension.word());
                s.append(" ");
                push_decimal(&mut s, *size as i64);
                s.append(" px");
                s
            },
            Command::FocusPrevSibling => String::from_str("focus prev sibling"),
            Command::FocusParent => String::from_str("focus parent"),
            Command::FloatingEnable { con_id } => {
                let mut s = String::from_str("[con_id=");
                push_decimal(&mut s, *con_id);
                s.append("] floating enable");
                s
            },
            Command::Swap { placeholder, window } => {
                let mut s = String::from_str("[con_id=");
                push_decimal(&mut s, *placeholder);
                s.append("] swap container with con_id ");
                push_decimal(&mut s, *window);
                s
            },
            Command::Kill { con_id } => {
                let mut s = String::from_str("[con_id=");
                push_decimal(&mut s, *con_id);
                s.append("] kill");
                s
            },
        }
    }
}

} // verus!
