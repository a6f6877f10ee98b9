//! The shells that completion scripts can be written for.

use vstd::prelude::*;

use crate::text::str_eq;

verus! {

/// A shell for which a completion script can be generated.
#[derive(Debug, Clone, Copy, PartialEq, Eq, Structural)]
pub enum Shell {
    Bash,
    Elvish,
    Fish,
    PowerShell,
    Zsh,
}

/// The name by which a shell is chosen on the command line.
pub open spec fn spec_shell_name(shell: Shell) -> Seq<char> {
    match shell {
        Shell::Bash => "bash"@,
        Shell::Elvish => "elvish"@,
        Shell::Fish => "fish"@,
        Shell::PowerShell => "powershell"@,
        Shell::Zsh => "zsh"@,
    }
}

/// The shell a command-line name stands for, if any.
pub open spec fn spec_shell_from_name(name: Seq<char>) -> Option<Shell> {
    if name == "bash"@ {
        Some(Shell::Bash)
    } else if name == "elvish"@ {
        Some(Shell::Elvish)
    } else if name == "fish"@ {
        Some(Shell::Fish)
    } else if name == "powershell"@ {
        Some(Shell::PowerShell)
    } else if name == "zsh"@ {
        Some(Shell::Zsh)
    } else {
        None
    }
}

impl Shell {
    /// The command-line name of this shell.
    pub fn name(self) -> (r: &'static str)
        ensures
            r@ == spec_shell_name(self),
            self == Shell::Bash ==> r@ == "bash"@,
            self == Shell::Elvish ==> r@ == "elvish"@,
            self == Shell::Fish ==> r@ == "fish"@,
            self == Shell::PowerShell ==> r@ == "powershell"@,
            self == Shell::Zsh ==> r@ == "zsh"@,
    {
        match self {
            Shell::Bash => "bash",
            Shell::Elvish => "elvish",
            Shell::Fish => "fish",
            Shell::PowerShell => "powershell",
            Shell::Zsh => "zsh",
        }
    }

    /// The shell named `name`; `None` for any other text.
    pub fn from_name(name: &str) -> (r: Option<Shell>)
        ensures
            r == spec_shell_from_name(name@),
            name@ == "bash"@ <==> r == Some(Shell::Bash),
            name@ == "elvish"@ <==> r == Some(Shell::Elvish),
            name@ == "fish"@ <==> r == Some(Shell::Fish),
            name@ == "powershell"@ <==> r == Some(Shell::PowerShell),
            name@ == "zsh"@ <==> r == Some(Shell::Zsh),
    {
        proof {
            law_shell_names(name@);
        }
        if str_eq(name, "bash") {
            Some(Shell::Bash)
        } else if str_eq(name, "elvish") {
            Some(Shell::Elvish)
        } else if str_eq(name, "fish") {
            Some(Shell::Fish)
        } else if str_eq(name, "powershell") {
            Some(Shell::PowerShell)
        } else if str_eq(name, "zsh") {
            Some(Shell::Zsh)
        } else {
            None
        }
    }
}

/// The five shell names are different texts.
proof fn lemma_shell_names_distinct()
    ensures
        "bash"@ != "elvish"@,
        "bash"@ != "fish"@,
        "bash"@ != "powershell"@,
        "bash"@ != "zsh"@,
        "elvish"@ != "fish"@,
        "elvish"@ != "powershell"@,
        "elvish"@ != "zsh"@,
        "fish"@ != "powershell"@,
        "fish"@ != "zsh"@,
        "powershell"@ != "zsh"@,
{
    reveal_strlit("bash");
    reveal_strlit("elvish");
    reveal_strlit("fish");
    reveal_strlit("powershell");
    reveal_strlit("zsh");
    assert("bash"@[0] != "elvish"@[0]);
    assert("bash"@[0] != "fish"@[0]);
    assert("bash"@[0] != "powershell"@[0]);
    assert("bash"@[0] != "zsh"@[0]);
    assert("elvish"@[0] != "fish"@[0]);
    assert("elvish"@[0] != "powershell"@[0]);
    assert("elvish"@[0] != "zsh"@[0]);
    assert("fish"@[0] != "powershell"@[0]);
    assert("fish"@[0] != "zsh"@[0]);
    assert("powershell"@[0] != "zsh"@[0]);
}

/// Each shell is chosen by exactly its own name: `bash` chooses Bash,
/// `elvish` Elvish, `fish` Fish, `powershell` PowerShell and `zsh` Zsh; any
/// other text chooses no shell. Each shell's name is that text.
pub proof fn law_shell_names(name: Seq<char>)
    ensures
        spec_shell_from_name(name) == Some(Shell::Bash) <==> name == "bash"@,
        spec_shell_from_name(name) == Some(Shell::Elvish) <==> name == "elvish"@,
        spec_shell_from_name(name) == Some(Shell::Fish) <==> name == "fish"@,
        spec_shell_from_name(name) == Some(Shell::PowerShell) <==> name == "powershell"@,
        spec_shell_from_name(name) == Some(Shell::Zsh) <==> name == "zsh"@,
        spec_shell_from_name(name) is None <==> (name != "bash"@ && name != "elvish"@ && name
            != "fish"@ && name != "powershell"@ && name != "zsh"@),
        spec_shell_name(Shell::Bash) == "bash"@,
        spec_shell_name(Shell::Elvish) == "elvish"@,
        spec_shell_name(Shell::Fish) == "fish"@,
        spec_shell_name(Shell::PowerShell) == "powershell"@,
        spec_shell_name(Shell::Zsh) == "zsh"@,
{
    lemma_shell_names_distinct();
}

/// A shell's name reads back as that shell.
pub proof fn law_shell_name_round_trip(shell: Shell)
    ensures
        spec_shell_from_name(spec_shell_name(shell)) == Some(shell),
{
    lemma_shell_names_distinct();
}

} // verus!
