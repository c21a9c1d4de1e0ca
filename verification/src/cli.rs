//! The command line: the bot runs as a Discord client, or runs one
//! development task given after `--dev-task`.

use vstd::prelude::*;

use crate::bot::join_strings;
use crate::text::{append_str, chars_of, eq_chars, join, string_of, trim, trim_seq};

verus! {

/// Why the command line was refused.
#[derive(Clone, Debug)]
pub enum ArgError {
    /// The first argument is not `--dev-task`.
    UnknownArgument(String),
    /// `--dev-task` is not followed by a task.
    MissingTask,
}

/// What the arguments after the program's name ask for: `Ok(None)` for none,
/// the task (the words after `--dev-task`, joined by spaces) when it is not
/// blank, and the error otherwise.
pub open spec fn spec_dev_task_argument(args: Seq<Seq<char>>) -> Result<Option<Seq<char>>, Seq<char>> {
    if args.len() == 0 {
        Ok(None)
    } else if args[0] != "--dev-task"@ {
        Err("unknown argument: "@ + args[0])
    } else if trim(join(args.skip(1), " "@)).len() == 0 {
        Err("--dev-task requires a task"@)
    } else {
        Ok(Some(join(args.skip(1), " "@)))
    }
}

impl ArgError {
    /// The message that explains the error.
    pub fn message(&self) -> (r: String)
        ensures
            r@ == self.message_view(),
    {
        match self {
            ArgError::UnknownArgument(flag) => {
                let mut out: Vec<char> = Vec::new();
                append_str(&mut out, "unknown argument: ");
                append_str(&mut out, flag.as_str());
                string_of(&out)
            },
            ArgError::MissingTask => "--dev-task requires a task".to_owned(),
        }
    }
}

/// Reads the arguments after the program's name.
pub fn dev_task_argument(args: &Vec<String>) -> (r: Result<Option<String>, ArgError>)
    ensures
        match r {
            Ok(None) => spec_dev_task_argument(args.deep_view()) == Ok::<Option<Seq<char>>, Seq<char>>(None),
            Ok(Some(t)) => spec_dev_task_argument(args.deep_view()) == Ok::<Option<Seq<char>>, Seq<char>>(
                Some(t@),
            ),
            Err(e) => spec_dev_task_argument(args.deep_view()) == Err::<Option<Seq<char>>, Seq<char>>(
                e.message_view(),
            ),
        },
{
    if args.len() == 0 {
        return Ok(None);
    }
    let ghost dv = args.deep_view();
    assert(dv[0] == args@[0]@);
    let flag = chars_of(args[0].as_str());
    if !eq_chars(&flag, &chars_of("--dev-task")) {
        return Err(ArgError::UnknownArgument(args[0].clone()));
    }
    let mut rest: Vec<String> = Vec::new();
    let mut i: usize = 1;
    while i < args.len()
        invariant
            1 <= i <= args@.len(),
            dv == args.deep_view(),
            dv.len() == args@.len(),
            rest.deep_view() == dv.subrange(1, i as int),
        decreases args@.len() - i,
    {
        let ghost before = rest.deep_view();
        rest.push(args[i].clone());
        assert(rest.deep_view() =~= before.push(args@[i as int]@));
        assert(dv.subrange(1, i + 1) =~= dv.subrange(1, i as int).push(dv[i as int]));
        i = i + 1;
    }
    assert(dv.subrange(1, dv.len() as int) =~= dv.skip(1));
    let task = join_strings(&rest, " ");
    if trim_seq(&task).len() == 0 {
        return Err(ArgError::MissingTask);
    }
    Ok(Some(string_of(&task)))
}

impl ArgError {
    /// The message of the error, by its view.
    pub open spec fn message_view(self) -> Seq<char> {
        match self {
            ArgError::UnknownArgument(flag) => "unknown argument: "@ + flag@,
            ArgError::MissingTask => "--dev-task requires a task"@,
        }
    }
}

} // verus!
