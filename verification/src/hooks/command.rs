//! Commands that hooks run.

use crate::process::{self, Invocation, InvocationView};
use crate::strings;
use vstd::prelude::*;
use vstd::string::*;

verus! {

/// The interpreter for a command and the arguments before it. Without a name, or
/// for `auto`, it is `pwsh` on Windows and `bash` elsewhere; both `pwsh` and
/// `powershell` stand for `powershell`. None where the name is not known.
pub open spec fn interpreter(shell: Option<Seq<char>>, windows: bool) -> Option<Seq<Seq<char>>> {
    let name = match shell {
        Some(s) => s,
        None => "auto"@,
    };
    if name == "auto"@ && windows {
        Some(seq!["pwsh"@, "-NoProfile"@, "-Command"@])
    } else if name == "auto"@ {
        Some(seq!["bash"@, "-c"@])
    } else if name == "pwsh"@ || name == "powershell"@ {
        Some(seq!["powershell"@, "-NoProfile"@, "-Command"@])
    } else if name == "bash"@ || name == "sh"@ || name == "zsh"@ {
        Some(seq![name, "-c"@])
    } else if name == "cmd"@ {
        Some(seq![name, "/C"@])
    } else {
        None
    }
}

/// How a command is run in the directory `cwd`.
pub open spec fn command_line(
    run: Seq<char>,
    shell: Option<Seq<char>>,
    cwd: Seq<char>,
    windows: bool,
) -> Result<InvocationView, Seq<char>> {
    match interpreter(shell, windows) {
        Some(words) => Ok(
            InvocationView {
                program: words[0],
                args: words.drop_first().push(run),
                dir: cwd,
                capture: false,
            },
        ),
        None => Err("unknown shell: "@ + shell->0),
    }
}

/// How a command is run. `shell` names the interpreter.
pub fn run(line: &str, shell: Option<&str>, cwd: &str, windows: bool) -> (r: Result<
    Invocation,
    String,
>)
    ensures
        process::result_view(r) == command_line(line@, shell.deep_view(), cwd@, windows),
{
    let name: &str = match shell {
        Some(s) => s,
        None => "auto",
    };
    let auto = strings::same(name, "auto");
    let mut args: Vec<String> = Vec::new();
    let program: &str = if auto && windows {
        "pwsh"
    } else if auto {
        "bash"
    } else if strings::same(name, "pwsh") {
        "powershell"
    } else {
        name
    };
    if (auto && windows) || strings::same(program, "powershell") {
        args.push("-NoProfile".to_string());
        args.push("-Command".to_string());
    } else if auto || strings::same(name, "bash") || strings::same(name, "sh") || strings::same(
        name,
        "zsh",
    ) {
        args.push("-c".to_string());
    } else if strings::same(name, "cmd") {
        args.push("/C".to_string());
    } else {
        let mut e = "unknown shell: ".to_string();
        e.append(name);
        return Err(e);
    }
    args.push(line.to_string());
    proof {
        reveal_strlit("bash");
        reveal_strlit("powershell");
        assert("bash"@.len() != "powershell"@.len());
        let words = interpreter(shell.deep_view(), windows)->0;
        assert(words[0] == program@);
        assert(args.deep_view() =~= words.drop_first().push(line@));
    }
    Ok(
        Invocation {
            program: program.to_string(),
            args,
            dir: cwd.to_string(),
            capture: false,
        },
    )
}

} // verus!
