//! Which command, if any, runs a hook.

use vstd::prelude::*;
use vstd::string::*;

verus! {

/// The final component of `path`, where it has one.
pub uninterp spec fn file_name_of(path: Seq<char>) -> Option<Seq<char>>;

/// Calls `std::path::Path::file_name`, which returns the final component of
/// a path if there is one: what comes back depends on the text of the path
/// alone, and the empty path has no component.
#[verifier::external_body]
fn file_name(path: &String) -> (name: Option<String>)
    ensures
        name matches Some(n) ==> file_name_of(path@) == Some(n@),
        name is None ==> file_name_of(path@) is None,
        path@.len() == 0 ==> name is None,
{
    match std::path::Path::new(path.as_str()).file_name() {
        Some(n) => Some(n.to_string_lossy().into_owned()),
        None => None,
    }
}

/// The mathematical value of a [`HookCommand`].
pub ghost struct HookCommandView {
    pub program: Seq<char>,
    pub arguments: Seq<Seq<char>>,
}

/// A command for the host to start: a program and its arguments.
#[derive(Debug, PartialEq, Eq)]
pub struct HookCommand {
    pub program: String,
    pub arguments: Vec<String>,
}

impl View for HookCommand {
    type V = HookCommandView;

    open spec fn view(&self) -> HookCommandView {
        HookCommandView {
            program: self.program@,
            arguments: Seq::new(self.arguments.len() as nat, |i: int| self.arguments[i]@),
        }
    }
}

/// The command that hands `hook` to the shell: `sh -c hook`.
pub open spec fn shell_command(hook: Seq<char>) -> HookCommandView {
    HookCommandView { program: "sh"@, arguments: seq!["-c"@, hook] }
}

/// What runs the hook at `hook`, of which `file_name` is the final
/// component: the shell, if the path has a final component, and nothing if
/// it has none, which is how a hook that is not set is written.
pub open spec fn launch_for(hook: Seq<char>, file_name: Option<Seq<char>>) -> Option<
    HookCommandView,
> {
    if file_name is Some {
        Some(shell_command(hook))
    } else {
        None
    }
}

/// The command that runs the hook at `hook`, given the final component of
/// that path: none where there is no such component.
pub fn hook_command(hook: &String, file_name: Option<String>) -> (command: Option<HookCommand>)
    ensures
        command matches Some(c) ==> launch_for(
            hook@,
            match file_name {
                Some(n) => Some(n@),
                None => None,
            },
        ) == Some(c@),
        command is None <==> file_name is None,
{
    match file_name {
        Some(_) => {
            let mut arguments: Vec<String> = Vec::new();
            arguments.push(String::from_str("-c"));
            arguments.push(hook.clone());
            let command = HookCommand { program: String::from_str("sh"), arguments };
            assert(command@.arguments =~= seq!["-c"@, hook@]);
            Some(command)
        },
        None => None,
    }
}

/// The command that runs the hook at `hook`: the shell with the path, or
/// nothing where no hook is set there. The empty path never runs anything.
pub fn invoke(hook: &String) -> (command: Option<HookCommand>)
    ensures
        command matches Some(c) ==> launch_for(hook@, file_name_of(hook@)) == Some(c@),
        command is None <==> file_name_of(hook@) is None,
        hook@.len() == 0 ==> command is None,
{
    hook_command(hook, file_name(hook))
}

} // verus!
