// What to do with a command line: which tools are wrapped, which calls
// pass without confirmation, which arguments reach the tool, and which
// answers count as consent.

use crate::text::{
    is_substring, join, joined, normalize, normalized, same_text, str_contains, trimmed,
};
use vstd::prelude::*;
use vstd::string::*;

verus! {

/// The names of the tools that can be wrapped.
pub open spec fn supported_names() -> Seq<Seq<char>> {
    seq!["kubectl"@, "flux"@, "helm"@, "kubeadm"@, "istioctl"@]
}

/// `arg` is the mark of a shell-completion query.
pub open spec fn is_completion_argument(arg: Seq<char>) -> bool {
    is_substring("__complete"@, arg) || is_substring("completion"@, arg)
}

/// Some argument behind the tool's name marks a shell-completion query.
pub open spec fn is_completion_call(args: Seq<Seq<char>>) -> bool {
    exists|i: int| 2 <= i < args.len() && is_completion_argument(#[trigger] args[i])
}

/// The first argument behind the tool's name is the bypass token.
pub open spec fn is_bypass_call(args: Seq<Seq<char>>) -> bool {
    args.len() >= 3 && args[2] == "kcw_no_wrap"@
}

/// `answer`, already trimmed and lowercased, gives consent.
pub open spec fn is_yes(answer: Seq<char>) -> bool {
    answer == "y"@ || answer == "yes"@
}

/// How the pending command is shown to the operator.
pub open spec fn command_line_of(cli_tool: Seq<char>, args: Seq<Seq<char>>) -> Seq<char> {
    "Command: "@ + cli_tool + " "@ + joined(args.skip(2), " "@)
}

/// What is to be done with a command line, as plain values.
pub enum Plan {
    /// Too few arguments: the instructions are shown.
    Usage,
    /// The tool is not among the supported ones.
    Unsupported,
    /// The tool runs with these arguments, and nobody is asked.
    Forward(Seq<Seq<char>>),
    /// The tool runs with these arguments once the command is confirmed,
    /// where it has to be.
    Guard(Seq<Seq<char>>),
}

/// What is to be done with a command line.
#[derive(Debug, PartialEq, Eq)]
pub enum Invocation {
    /// Too few arguments: the instructions are shown.
    Usage,
    /// The tool is not among the supported ones.
    Unsupported,
    /// The tool runs with these arguments, and nobody is asked.
    Forward(Vec<String>),
    /// The tool runs with these arguments once the command is confirmed,
    /// where it has to be.
    Guard(Vec<String>),
}

impl View for Invocation {
    type V = Plan;

    open spec fn view(&self) -> Plan {
        match self {
            Invocation::Usage => Plan::Usage,
            Invocation::Unsupported => Plan::Unsupported,
            Invocation::Forward(args) => Plan::Forward(args.deep_view()),
            Invocation::Guard(args) => Plan::Guard(args.deep_view()),
        }
    }
}

/// The plan for the command line `args`, whose first entry is the
/// program's own name and whose second is the tool's. Completion queries
/// and calls with the bypass token are forwarded before anything else is
/// looked at; a completion query keeps all its arguments, a bypass call
/// loses the token.
pub open spec fn planned(args: Seq<Seq<char>>) -> Plan {
    if args.len() < 2 {
        Plan::Usage
    } else if !supported_names().contains(args[1]) {
        Plan::Unsupported
    } else if is_completion_call(args) {
        Plan::Forward(args.skip(2))
    } else if is_bypass_call(args) {
        Plan::Forward(args.skip(3))
    } else {
        Plan::Guard(args.skip(2))
    }
}

/// The tools that can be wrapped.
pub fn supported_commands() -> (names: Vec<String>)
    ensures
        names.deep_view() == supported_names(),
{
    let mut names: Vec<String> = Vec::new();
    names.push(String::from_str("kubectl"));
    names.push(String::from_str("flux"));
    names.push(String::from_str("helm"));
    names.push(String::from_str("kubeadm"));
    names.push(String::from_str("istioctl"));
    assert(names.deep_view() =~= supported_names());
    names
}

/// The supported tools in one line, as they are shown to the operator.
pub fn format_supported_commands() -> (line: String)
    ensures
        line@ == joined(supported_names(), "|"@),
{
    join(&supported_commands(), "|")
}

/// Whether `cli_tool` can be wrapped.
pub fn is_supported_command(cli_tool: &str) -> (supported: bool)
    ensures
        supported == supported_names().contains(cli_tool@),
{
    let names = supported_commands();
    let mut i: usize = 0;
    while i < names.len()
        invariant
            i <= names.len(),
            names.deep_view() == supported_names(),
            forall|j: int| 0 <= j < i ==> supported_names()[j] != cli_tool@,
        decreases names.len() - i,
    {
        assert(names.deep_view()[i as int] == names@[i as int]@);
        if same_text(names[i].as_str(), cli_tool) {
            return true;
        }
        i += 1;
    }
    false
}

/// The arguments that reach the tool when those before `from` are held
/// back.
pub fn forwarded_arguments(args: &Vec<String>, from: usize) -> (forwarded: Vec<String>)
    requires
        from <= args.len(),
    ensures
        forwarded.deep_view() == args.deep_view().skip(from as int),
{
    let ghost all = args.deep_view();
    let mut forwarded: Vec<String> = Vec::new();
    let mut i: usize = from;
    while i < args.len()
        invariant
            from <= i <= args.len(),
            all == args.deep_view(),
            forwarded.deep_view() =~= all.subrange(from as int, i as int),
        decreases args.len() - i,
    {
        let ghost held = forwarded.deep_view();
        forwarded.push(args[i].clone());
        assert(forwarded.deep_view() =~= held.push(args@[i as int]@));
        i += 1;
    }
    assert(all.subrange(from as int, i as int) =~= all.skip(from as int));
    forwarded
}

/// Whether the command line is a shell-completion query, which passes
/// straight through to the tool.
pub fn pass_through_completion_call(args: &Vec<String>) -> (is_completion_call: bool)
    requires
        args.len() >= 2,
    ensures
        is_completion_call == self::is_completion_call(args.deep_view()),
{
    let ghost all = args.deep_view();
    let mut i: usize = 2;
    while i < args.len()
        invariant
            2 <= i <= args.len(),
            all == args.deep_view(),
            forall|j: int| 2 <= j < i ==> !is_completion_argument(#[trigger] all[j]),
        decreases args.len() - i,
    {
        assert(all[i as int] == args@[i as int]@);
        let arg = args[i].as_str();
        if str_contains(arg, "__complete") || str_contains(arg, "completion") {
            return true;
        }
        i += 1;
    }
    false
}

/// The arguments to forward without confirmation where the bypass token
/// stands first behind the tool's name: those behind the token.
pub fn force_skip_confirmation_if_requested(args: &Vec<String>) -> (forwarded: Option<Vec<String>>)
    ensures
        match forwarded {
            Some(rest) => is_bypass_call(args.deep_view()) && rest.deep_view()
                == args.deep_view().skip(3),
            None => !is_bypass_call(args.deep_view()),
        },
{
    if args.len() < 3 {
        return None;
    }
    assert(args.deep_view()[2] == args@[2]@);
    let should_skip = same_text(args[2].as_str(), "kcw_no_wrap");
    if should_skip {
        Some(forwarded_arguments(args, 3))
    } else {
        None
    }
}

/// Plans what to do with the command line `args`, before anything is known
/// of the context or the session.
pub fn plan_invocation(args: &Vec<String>) -> (plan: Invocation)
    ensures
        plan@ == planned(args.deep_view()),
{
    if args.len() < 2 {
        return Invocation::Usage;
    }
    assert(args.deep_view()[1] == args@[1]@);
    if !is_supported_command(args[1].as_str()) {
        return Invocation::Unsupported;
    }
    if pass_through_completion_call(args) {
        return Invocation::Forward(forwarded_arguments(args, 2));
    }
    match force_skip_confirmation_if_requested(args) {
        Some(rest) => Invocation::Forward(rest),
        None => Invocation::Guard(forwarded_arguments(args, 2)),
    }
}

/// The line that shows the pending command to the operator.
pub fn command_line(cli_tool: &str, args: &Vec<String>) -> (line: String)
    requires
        args.len() >= 2,
    ensures
        line@ == command_line_of(cli_tool@, args.deep_view()),
{
    let rest = forwarded_arguments(args, 2);
    let args_string = join(&rest, " ");
    let mut line = String::from_str("Command: ");
    line.append(cli_tool);
    line.append(" ");
    line.append(args_string.as_str());
    line
}

/// Whether an answer that is already trimmed and lowercased gives consent.
pub fn is_yes_answer(answer: &str) -> (consent: bool)
    ensures
        consent == is_yes(answer@),
{
    same_text(answer, "y") || same_text(answer, "yes")
}

/// Whether the operator's answer gives consent: "y" or "yes", in any case
/// and with any white space around it.
pub fn is_affirmative(answer: &str) -> (consent: bool)
    ensures
        consent == is_yes(normalized(answer@)),
{
    let answer = normalize(answer);
    is_yes_answer(answer.as_str())
}

/// What a finished query for the current context yields: whether it
/// succeeded, and with it the context, which is what the query printed
/// without the white space around it, or else what it complained of.
pub fn get_output_from_command(success: bool, stdout: String, stderr: String) -> (outcome: (
    bool,
    String,
))
    ensures
        outcome.0 == success,
        outcome.1@ == if success {
            trimmed(stdout@)
        } else {
            stderr@
        },
{
    if !success {
        return (false, stderr);
    }
    (true, stdout.as_str().trim().to_owned())
}

} // verus!
