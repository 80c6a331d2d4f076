//! The decisions of the studio launcher's command line: which subcommand
//! runs, whether a root directory argument is accepted, and where the root
//! file system of a run comes from.

use vstd::prelude::*;

verus! {

/// The launcher's subcommands.
#[derive(PartialEq, Eq, Structural, Clone, Copy, Debug)]
pub enum Subcommand {
    /// Runs a command inside an already created namespace.
    NsRun,
    /// Runs a command in a new namespace.
    Run,
}

/// The subcommand that a parsed command line names. The parser admits only
/// these two names.
pub fn _main(name: &str) -> (r: Subcommand)
    requires
        name@ == "nsrun"@ || name@ == "run"@,
    ensures
        name@ == "nsrun"@ ==> r == Subcommand::NsRun,
        name@ == "run"@ ==> r == Subcommand::Run,
{
    proof {
        reveal_strlit("nsrun");
        reveal_strlit("run");
    }
    if name.unicode_len() == 5 {
        Subcommand::NsRun
    } else {
        Subcommand::Run
    }
}

/// Accepts a root directory argument that names a directory, and otherwise
/// says which one cannot be found.
pub fn dir_exists(val: String, is_dir: bool) -> (r: Result<(), String>)
    ensures
        r is Ok <==> is_dir,
        r matches Err(m) ==> m@ == "Directory: '"@ + val@ + "' cannot be found"@,
{
    if is_dir {
        Ok(())
    } else {
        let mut m = String::from_str("Directory: '");
        m.append(val.as_str());
        m.append("' cannot be found");
        Err(m)
    }
}

/// Where the root file system of a run comes from.
pub enum RootfsPlan {
    /// Create the directory that the environment names.
    Create(String),
    /// The directory that the environment names exists already: refuse.
    Refuse(String),
    /// No directory named: use a fresh temporary one.
    Temporary,
}

/// Decides the root file system of a run from the directory that the
/// environment names, if any, and whether it is present on disk.
pub fn plan_rootfs(named: Option<String>, present: bool) -> (r: RootfsPlan)
    ensures
        named is None ==> r is Temporary,
        named matches Some(d) ==> if present {
            r matches RootfsPlan::Refuse(e) && e == d
        } else {
            r matches RootfsPlan::Create(c) && c == d
        },
{
    match named {
        None => RootfsPlan::Temporary,
        Some(d) => if present {
            RootfsPlan::Refuse(d)
        } else {
            RootfsPlan::Create(d)
        },
    }
}

} // verus!
