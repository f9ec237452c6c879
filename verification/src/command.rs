//! Commands: what is started, with which arguments, where, and what becomes of its output.

use crate::text;
use vstd::prelude::*;

verus! {

/// What becomes of the output of a command.
#[derive(Debug, Clone, Copy, PartialEq, Eq, Structural)]
pub enum Output {
    /// Both streams go where ours go.
    Shown,
    /// The standard output is dropped; the standard error goes where ours goes.
    Muted,
    /// Both streams are kept and handed back.
    Captured,
    /// Both streams are dropped.
    Silent,
}

/// A command to start.
#[derive(Debug)]
pub struct Command {
    /// The program.
    pub program: String,
    /// Its arguments, in order.
    pub args: Vec<String>,
    /// The directory that it starts in; ours where it is `None`.
    pub dir: Option<String>,
    /// Variables set in its environment, beside those that it inherits.
    pub env: Vec<(String, String)>,
    /// What becomes of its output.
    pub output: Output,
}

/// A [`Command`] as a mathematical value.
pub struct CommandView {
    /// The program.
    pub program: Seq<char>,
    /// Its arguments.
    pub args: Seq<Seq<char>>,
    /// The directory that it starts in.
    pub dir: Option<Seq<char>>,
    /// Variables set in its environment.
    pub env: Seq<(Seq<char>, Seq<char>)>,
    /// What becomes of its output.
    pub output: Output,
}

/// The texts of a sequence of strings.
pub open spec fn texts(s: Seq<String>) -> Seq<Seq<char>> {
    s.map_values(|t: String| t@)
}

/// The texts of a sequence of names and values.
pub open spec fn pairs(s: Seq<(String, String)>) -> Seq<(Seq<char>, Seq<char>)> {
    s.map_values(|p: (String, String)| (p.0@, p.1@))
}

impl View for Command {
    type V = CommandView;

    open spec fn view(&self) -> CommandView {
        CommandView {
            program: self.program@,
            args: texts(self.args@),
            dir: text::opt(self.dir),
            env: pairs(self.env@),
            output: self.output,
        }
    }
}

/// Adds one argument.
pub(crate) fn push_arg(args: &mut Vec<String>, arg: &str)
    ensures
        texts(final(args)@) == texts(old(args)@).push(arg@),
{
    args.push(arg.to_owned());
    proof {
        assert(texts(args@) =~= texts(old(args)@).push(arg@));
    }
}

/// An option with its value, where there is one.
pub open spec fn option_args(name: Seq<char>, value: Option<Seq<char>>) -> Seq<Seq<char>> {
    match value {
        Some(v) => seq![name, v],
        None => seq![],
    }
}

/// Adds an option with its value, where there is one.
pub(crate) fn push_option(args: &mut Vec<String>, name: &str, value: &Option<String>)
    ensures
        texts(final(args)@) == texts(old(args)@) + option_args(name@, text::opt(*value)),
{
    if let Some(v) = value {
        push_arg(args, name);
        push_arg(args, v.as_str());
    }
    proof {
        assert(texts(args@) =~= texts(old(args)@) + option_args(name@, text::opt(*value)));
    }
}

/// The view of a command holds its parts, each as it is and each argument and variable in its place.
pub proof fn law_view_of_a_command(c: Command, i: int)
    ensures
        c@.program == c.program@,
        c@.dir is Some <==> c.dir is Some,
        c.dir is Some ==> c@.dir->0 == c.dir->0@,
        c@.output == c.output,
        c@.args.len() == c.args@.len(),
        0 <= i < c.args@.len() ==> c@.args[i] == c.args@[i]@,
        c@.env.len() == c.env@.len(),
        0 <= i < c.env@.len() ==> c@.env[i].0 == c.env@[i].0@ && c@.env[i].1 == c.env@[i].1@,
{
}

/// An option stands in the arguments with its value directly behind it, and without a value it adds
/// nothing.
pub proof fn law_option_with_its_value(name: Seq<char>, value: Option<Seq<char>>)
    ensures
        value is None ==> option_args(name, value).len() == 0,
        value is Some ==> option_args(name, value).len() == 2 && option_args(name, value)[0] == name
            && option_args(name, value)[1] == value->0,
{
}

} // verus!
