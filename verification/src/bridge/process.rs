//! Where to look for the Neovim executable.

use vstd::prelude::*;

verus! {

/// The places tried for the Neovim executable, in order: on Windows the
/// program name and the two default install directories, elsewhere the
/// program name and the usual binary directories.
pub fn nvim_candidates(windows: bool) -> (c: Vec<&'static str>)
    ensures
        windows ==> c@.len() == 3 && c@[0]@ == "nvim.exe"@ && c@[1]@ == "C:\\Program Files\\Neovim\\bin\\nvim.exe"@
            && c@[2]@ == "C:\\Program Files (x86)\\Neovim\\bin\\nvim.exe"@,
        !windows ==> c@.len() == 4 && c@[0]@ == "nvim"@ && c@[1]@ == "/usr/local/bin/nvim"@ && c@[2]@
            == "/usr/bin/nvim"@ && c@[3]@ == "/opt/homebrew/bin/nvim"@,
{
    let mut c: Vec<&'static str> = Vec::new();
    if windows {
        c.push("nvim.exe");
        c.push("C:\\Program Files\\Neovim\\bin\\nvim.exe");
        c.push("C:\\Program Files (x86)\\Neovim\\bin\\nvim.exe");
    } else {
        c.push("nvim");
        c.push("/usr/local/bin/nvim");
        c.push("/usr/bin/nvim");
        c.push("/opt/homebrew/bin/nvim");
    }
    c
}

/// Whether a candidate names a file by its path (it holds a `/` or a `\`),
/// rather than a program to look up on the search path.
pub fn is_path(candidate: &str) -> (b: bool)
    ensures
        b == exists|i: int| 0 <= i < candidate@.len() && (candidate@[i] == '/' || candidate@[i] == '\\'),
{
    let n = candidate.unicode_len();
    let mut i: usize = 0;
    while i < n
        invariant
            n == candidate@.len(),
            i <= n,
            forall|j: int| 0 <= j < i ==> !(candidate@[j] == '/' || candidate@[j] == '\\'),
        decreases n - i,
    {
        let c = candidate.get_char(i);
        if c == '/' || c == '\\' {
            return true;
        }
        i = i + 1;
    }
    false
}

} // verus!
