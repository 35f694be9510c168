//! What the launcher says of itself.

use vstd::prelude::*;
use vstd::string::*;

verus! {

/// The long description shown with the command-line help.
pub const LONG_ABOUT: &'static str =
    "\nCubeLuncher: A simple, powerful Minecraft launcher by Dynamic Development, LLC\n\nWebsite: https://cube-launcher.netlify.app/\nGithub : \nDiscord: https://discord.gg/3QWbVheFaC\n";

/// The long description shown with the command-line help.
pub fn long_about() -> (text: String)
    ensures
        text@ == LONG_ABOUT@,
{
    String::from_str(LONG_ABOUT)
}

} // verus!
