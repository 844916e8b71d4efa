//! How a shell phase's command is run: which shell, through which program
//! and flag.

use vstd::prelude::*;
use crate::text::{push_str, text_of};

verus! {

/// The shell used when a phase names none: PowerShell on Windows, `sh`
/// elsewhere.
pub open spec fn default_shell_name(windows: bool) -> Seq<char> {
    if windows {
        "powershell"@
    } else {
        "sh"@
    }
}

/// The program and the flag that run a command with a named shell
/// (`None` for a shell that is not supported). PowerShell is `pwsh` outside
/// Windows.
pub open spec fn shell_program(name: Seq<char>, windows: bool) -> Option<(Seq<char>, Seq<char>)> {
    if name == "bash"@ {
        Some(("bash"@, "-c"@))
    } else if name == "sh"@ {
        Some(("sh"@, "-c"@))
    } else if name == "zsh"@ {
        Some(("zsh"@, "-c"@))
    } else if name == "powershell"@ {
        if windows {
            Some(("powershell"@, "-Command"@))
        } else {
            Some(("pwsh"@, "-Command"@))
        }
    } else if name == "pwsh"@ {
        Some(("pwsh"@, "-Command"@))
    } else if name == "cmd"@ {
        Some(("cmd"@, "/C"@))
    } else {
        None
    }
}

/// Whether two strings are equal as text.
fn same_text(a: &str, b: &str) -> (r: bool)
    ensures
        r == (a@ == b@),
{
    crate::string_map::str_eq(a, b)
}

/// Decides how a shell phase runs: the shell's name (the phase's, else the
/// platform default), the program to start and the flag that passes the
/// command. A shell that is not supported is refused.
pub fn shell_invocation(shell_type: Option<&str>, windows: bool) -> (r: Result<(String, String, String), String>)
    ensures
        ({
            let name = match shell_type {
                Some(s) => s@,
                None => default_shell_name(windows),
            };
            match shell_program(name, windows) {
                Some((program, flag)) => r matches Ok((n, p, f)) && n@ == name && p@ == program && f@ == flag,
                None => r matches Err(e) && e@ == "Unsupported shell type: "@ + name,
            }
        }),
{
    let name: &str = match shell_type {
        Some(s) => s,
        None => if windows {
            "powershell"
        } else {
            "sh"
        },
    };
    let pair: Option<(&str, &str)> = if same_text(name, "bash") {
        Some(("bash", "-c"))
    } else if same_text(name, "sh") {
        Some(("sh", "-c"))
    } else if same_text(name, "zsh") {
        Some(("zsh", "-c"))
    } else if same_text(name, "powershell") {
        if windows {
            Some(("powershell", "-Command"))
        } else {
            Some(("pwsh", "-Command"))
        }
    } else if same_text(name, "pwsh") {
        Some(("pwsh", "-Command"))
    } else if same_text(name, "cmd") {
        Some(("cmd", "/C"))
    } else {
        None
    };
    match pair {
        Some((program, flag)) => Ok((text_of(name), text_of(program), text_of(flag))),
        None => {
            let mut e = text_of("Unsupported shell type: ");
            push_str(&mut e, name);
            Err(e)
        },
    }
}

/// Where a shell phase runs.
pub enum WorkingDirectory {
    /// The phase's directory, as it is written.
    Given(String),
    /// The phase's (relative) directory, under the procedure's directory:
    /// the procedure's directory, then the phase's.
    UnderProcedure(String, String),
    /// The procedure's directory.
    Procedure(String),
    /// The current directory of the process.
    Current,
}

/// The directory a shell phase runs in, given whether the phase's directory
/// `wd` is absolute: an absolute one as it is, a relative one under the
/// procedure's directory `pd` (as it is when there is none); without a
/// phase directory, the procedure's directory, else the current one.
pub open spec fn chosen_directory(
    wd: Option<Seq<char>>,
    pd: Option<Seq<char>>,
    absolute: bool,
    r: WorkingDirectory,
) -> bool {
    match wd {
        Some(d) => if absolute || pd is None {
            r matches WorkingDirectory::Given(g) && g@ == d
        } else {
            r matches WorkingDirectory::UnderProcedure(p, g) && p@ == pd->0 && g@ == d
        },
        None => match pd {
            Some(p) => r matches WorkingDirectory::Procedure(q) && q@ == p,
            None => r is Current,
        },
    }
}

/// Whether a path is relative on every platform: it starts with neither
/// `/` nor `\` and holds no `:` (absolute paths need a leading separator
/// elsewhere, and a drive or a leading `\` on Windows).
pub open spec fn plainly_relative(p: Seq<char>) -> bool {
    &&& (p.len() == 0 || (p[0] != '/' && p[0] != '\\'))
    &&& !p.contains(':')
}

/// Decides `plainly_relative`.
fn is_plainly_relative(p: &str) -> (b: bool)
    ensures
        b == plainly_relative(p@),
{
    let n = p.unicode_len();
    if n > 0 {
        let c = p.get_char(0);
        if c == '/' || c == '\\' {
            return false;
        }
    }
    let mut i: usize = 0;
    while i < n
        invariant
            n == p@.len(),
            i <= n,
            forall|j: int| 0 <= j < i ==> p@[j] != ':',
        decreases n - i,
    {
        if p.get_char(i) == ':' {
            return false;
        }
        i = i + 1;
    }
    true
}

/// Whether a path is absolute by the platform's rules.
///
/// Calls `std::path::Path::is_absolute`. What is absolute depends on the
/// platform (a drive or UNC prefix on Windows, a leading `/` elsewhere), so
/// nothing is promised about the result.
#[verifier::external_body]
fn path_is_absolute(p: &str) -> (b: bool) {
    std::path::Path::new(p).is_absolute()
}

/// The directory a shell phase runs in, for a phase directory `wd` whose
/// absoluteness is `absolute`; see `chosen_directory`.
pub fn working_directory_for(wd: Option<&str>, pd: Option<&str>, absolute: bool) -> (r: WorkingDirectory)
    ensures
        chosen_directory(crate::state::opt_str(wd), crate::state::opt_str(pd), absolute, r),
{
    match wd {
        Some(d) => {
            if absolute {
                WorkingDirectory::Given(text_of(d))
            } else {
                match pd {
                    Some(p) => WorkingDirectory::UnderProcedure(text_of(p), text_of(d)),
                    None => WorkingDirectory::Given(text_of(d)),
                }
            }
        },
        None => match pd {
            Some(p) => WorkingDirectory::Procedure(text_of(p)),
            None => WorkingDirectory::Current,
        },
    }
}

/// The directory a shell phase runs in: the phase's directory when it is
/// absolute, else under the procedure's directory; without one, the
/// procedure's directory, else the current one. A directory that starts
/// with neither `/` nor `\` and holds no `:` is relative everywhere;
/// whether another one is absolute follows the platform's rules, which no
/// clause states.
pub fn resolve_working_directory(working_directory: Option<&str>, procedure_dir: Option<&str>) -> (r: WorkingDirectory)
    ensures
        exists|absolute: bool| chosen_directory(
            crate::state::opt_str(working_directory),
            crate::state::opt_str(procedure_dir),
            absolute,
            r,
        ),
        working_directory is None ==> chosen_directory(None, crate::state::opt_str(procedure_dir), false, r),
        working_directory matches Some(d) && plainly_relative(d@) ==> chosen_directory(
            crate::state::opt_str(working_directory),
            crate::state::opt_str(procedure_dir),
            false,
            r,
        ),
{
    let absolute = match working_directory {
        Some(d) => if is_plainly_relative(d) {
            false
        } else {
            path_is_absolute(d)
        },
        None => false,
    };
    working_directory_for(working_directory, procedure_dir, absolute)
}

} // verus!
