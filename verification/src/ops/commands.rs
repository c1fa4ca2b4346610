//! Command lines.

use vstd::prelude::*;
use vstd::string::*;

use crate::text::{string_views, views};

verus! {

broadcast use vstd::string::group_string_axioms;

/// A program and its arguments.
#[derive(Debug)]
pub struct CommandLine {
    pub program: String,
    pub args: Vec<String>,
}

/// What a command line says.
#[verifier::ext_equal]
pub struct CommandView {
    pub program: Seq<char>,
    pub args: Seq<Seq<char>>,
}

impl View for CommandLine {
    type V = CommandView;

    open spec fn view(&self) -> CommandView {
        CommandView { program: self.program@, args: string_views(self.args@) }
    }
}

impl CommandLine {
    /// A program without arguments.
    pub fn new(program: &str) -> (r: CommandLine)
        ensures
            r@ == (CommandView { program: program@, args: Seq::empty() }),
    {
        let r = CommandLine { program: program.to_owned(), args: Vec::new() };
        assert(r@.args =~= Seq::<Seq<char>>::empty());
        r
    }

    /// The command line with one more argument.
    pub fn arg(self, a: &str) -> (r: CommandLine)
        ensures
            r@ == (CommandView { args: self@.args.push(a@), ..self@ }),
    {
        let mut r = self;
        r.args.push(a.to_owned());
        assert(r@.args =~= self@.args.push(a@));
        r
    }
}

/// A call of `btrfs` with a group of commands and its arguments.
pub open spec fn btrfs_call(cmd: Seq<char>, args: Seq<Seq<char>>) -> CommandView {
    CommandView { program: "btrfs"@, args: seq![cmd] + args }
}

/// Wrapper for executing btrfs commands.
pub struct BtrfsCommand;

impl BtrfsCommand {
    /// The call of a btrfs command.
    pub fn run(cmd: &str, args: &Vec<&str>) -> (r: CommandLine)
        ensures
            r@ == btrfs_call(cmd@, views(args@)),
    {
        let mut r = CommandLine::new("btrfs").arg(cmd);
        let ghost all = views(args@);
        let mut i: usize = 0;
        while i < args.len()
            invariant
                i <= args@.len(),
                all == views(args@),
                r@.program == "btrfs"@,
                r@.args == seq![cmd@] + all.take(i as int),
            decreases args@.len() - i,
        {
            r = r.arg(args[i]);
            assert(r@.args =~= seq![cmd@] + all.take(i + 1));
            i += 1;
        }
        assert(all.take(i as int) =~= all);
        r
    }

    /// What a btrfs command comes to: what it printed, or an error that quotes what it
    /// complained of.
    pub fn outcome(cmd: &str, success: bool, stdout: String, stderr: &str) -> (r: Result<
        String,
        String,
    >)
        ensures
            r is Ok == success,
            r matches Ok(s) ==> s@ == stdout@,
            r matches Err(e) ==> e@ == "btrfs "@ + cmd@ + " failed: "@ + stderr@,
    {
        if success {
            Ok(stdout)
        } else {
            let mut e = "btrfs ".to_owned();
            e.append(cmd);
            e.append(" failed: ");
            e.append(stderr);
            Err(e)
        }
    }
}

/// A path below a base directory.
pub open spec fn below(base: Seq<char>, name: Seq<char>) -> Seq<char> {
    base + "/"@ + name
}

/// The path of `name` below `base`.
pub fn path_below(base: &str, name: &str) -> (r: String)
    ensures
        r@ == below(base@, name@),
{
    let mut r = base.to_owned();
    r.append("/");
    r.append(name);
    r
}

} // verus!
