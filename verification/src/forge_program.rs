//! The installer program that newer Forge loaders are installed by: what is
//! written before it runs, how it is compiled and run, and what its exit
//! means.

use vstd::prelude::*;
use vstd::string::*;
use vstd::utf8::{decode_utf8, valid_utf8};
use crate::forge::{ForgeInstallError, ForgeInstaller};
use crate::text::{chars_of, replace_all, replace_all_in, string_of, string_views, utf8_text};

verus! {

/// The file that holds the program's source.
pub const PROGRAM_SOURCE_FILE: &'static str = "ForgeInstaller.java";

/// The class that the program's source declares.
pub const PROGRAM_CLASS: &'static str = "ForgeInstaller";

/// Which of the two subprocesses ran.
#[derive(PartialEq, Eq, Structural, Clone, Copy, Debug)]
pub enum ProgramStage {
    /// The compiler, on the program's source.
    Compile,
    /// The runtime, on the compiled program.
    Run,
}

/// The side that the program installs for, as its source spells it.
pub open spec fn side_word(is_server: bool) -> Seq<char> {
    if is_server {
        "SERVER"@
    } else {
        "CLIENT"@
    }
}

/// The program's source for one side: the template with every `CLIENT`
/// replaced by the side.
pub open spec fn program_source(template: Seq<char>, is_server: bool) -> Seq<char> {
    replace_all(template, "CLIENT"@, side_word(is_server))
}

/// The launcher profile files that a client's installer expects to find.
pub open spec fn profile_files(is_server: bool) -> Seq<Seq<char>> {
    if is_server {
        Seq::empty()
    } else {
        seq!["launcher_profiles.json"@, "launcher_profiles_microsoft_store.json"@]
    }
}

/// The compiler's arguments.
pub open spec fn compiler_arguments(installer_name: Seq<char>) -> Seq<Seq<char>> {
    seq!["-cp"@, installer_name, PROGRAM_SOURCE_FILE@, "-d"@, "."@]
}

/// The runtime's arguments.
pub open spec fn runtime_arguments(installer_name: Seq<char>, separator: char) -> Seq<Seq<char>> {
    seq!["-cp"@, installer_name + seq![separator] + "."@, PROGRAM_CLASS@]
}

/// What a subprocess's exit means, as the kind of failure: `None` for
/// success.
pub open spec fn process_failure(success: bool, stdout: Seq<u8>, stderr: Seq<u8>) -> Option<
    Option<(Seq<char>, Seq<char>)>,
> {
    if success {
        None
    } else if valid_utf8(stdout) && valid_utf8(stderr) {
        Some(Some((decode_utf8(stdout), decode_utf8(stderr))))
    } else {
        Some(None)
    }
}

/// Whether `r` reports `failure` for the subprocess `stage`.
pub open spec fn reports_process(
    r: Result<(), ForgeInstallError>,
    stage: ProgramStage,
    failure: Option<Option<(Seq<char>, Seq<char>)>>,
) -> bool {
    match failure {
        None => r is Ok,
        Some(None) => r matches Err(ForgeInstallError::FromUtf8Error),
        Some(Some((out, err))) => match stage {
            ProgramStage::Compile => r matches Err(ForgeInstallError::CompileError(o, e)) && o@
                == out && e@ == err,
            ProgramStage::Run => r matches Err(ForgeInstallError::InstallerError(o, e)) && o@ == out
                && e@ == err,
        },
    }
}

/// What a subprocess's exit means: nothing where it succeeded, and its
/// output as the failure of its stage where it did not.
pub fn judge_process(stage: ProgramStage, success: bool, stdout: &[u8], stderr: &[u8]) -> (r:
    Result<(), ForgeInstallError>)
    ensures
        reports_process(r, stage, process_failure(success, stdout@, stderr@)),
{
    if success {
        return Ok(());
    }
    let out = match utf8_text(stdout) {
        Some(out) => out,
        None => {
            return Err(ForgeInstallError::FromUtf8Error);
        },
    };
    let err = match utf8_text(stderr) {
        Some(err) => err,
        None => {
            return Err(ForgeInstallError::FromUtf8Error);
        },
    };
    match stage {
        ProgramStage::Compile => Err(ForgeInstallError::CompileError(out, err)),
        ProgramStage::Run => Err(ForgeInstallError::InstallerError(out, err)),
    }
}

impl ForgeInstaller {
    /// The program's source for this installation's side.
    pub fn installer_source(&self, template: &str) -> (source: String)
        ensures
            source@ == program_source(template@, self.is_server),
    {
        let text = chars_of(template);
        let pattern = chars_of("CLIENT");
        let side = if self.is_server {
            chars_of("SERVER")
        } else {
            chars_of("CLIENT")
        };
        let replaced = replace_all_in(text.as_slice(), pattern.as_slice(), side.as_slice());
        string_of(replaced.as_slice())
    }

    /// The launcher profile files to write, each holding an empty object,
    /// before the program runs.
    pub fn profile_stubs(&self) -> (names: Vec<String>)
        ensures
            string_views(names@) == profile_files(self.is_server),
    {
        let mut names: Vec<String> = Vec::new();
        if !self.is_server {
            names.push(String::from_str("launcher_profiles.json"));
            names.push(String::from_str("launcher_profiles_microsoft_store.json"));
        }
        proof {
            assert(string_views(names@) =~= profile_files(self.is_server));
        }
        names
    }
}

/// The compiler's arguments for the installer kept as `installer_name`.
pub fn compile_arguments(installer_name: &str) -> (arguments: Vec<String>)
    ensures
        string_views(arguments@) == compiler_arguments(installer_name@),
{
    let mut arguments: Vec<String> = Vec::new();
    arguments.push(String::from_str("-cp"));
    arguments.push(String::from_str(installer_name));
    arguments.push(String::from_str(PROGRAM_SOURCE_FILE));
    arguments.push(String::from_str("-d"));
    arguments.push(String::from_str("."));
    proof {
        assert(string_views(arguments@) =~= compiler_arguments(installer_name@));
    }
    arguments
}

/// The runtime's arguments for the installer kept as `installer_name`.
pub fn run_arguments(installer_name: &str, separator: char) -> (arguments: Vec<String>)
    ensures
        string_views(arguments@) == runtime_arguments(installer_name@, separator),
{
    let mut class_path = String::from_str(installer_name);
    class_path.push(separator);
    class_path.append(".");
    let mut arguments: Vec<String> = Vec::new();
    arguments.push(String::from_str("-cp"));
    arguments.push(class_path);
    arguments.push(String::from_str(PROGRAM_CLASS));
    proof {
        assert(class_path@ =~= installer_name@ + seq![separator] + "."@);
        assert(string_views(arguments@) =~= runtime_arguments(installer_name@, separator));
    }
    arguments
}

} // verus!
