//! The `help` command.

use vstd::prelude::*;
use vstd::string::*;

verus! {

/// The command that lists what the bot can do.
pub struct Help;

impl Help {
    /// The help text, for a bot of the version `version`.
    pub fn execute(&self, version: &str) -> (text: String)
        ensures
            text@ == "=- \x1d\x02Überbot\x0f "@ + version@ + " -=\r\n"@
                + " * waifu <category>      * grab [count] <user>\r\n"@
                + " * owo/mock/leet [user]  * quot <user>\r\n"@
                + " * ev <math expression>  * qsearch <query>\r\n"@
                + " * play [count]          * dbg [count]\r\n"@
                + " - This bot can also resolve HTML titles, Spotify links and a subset of sed expressions."@,
    {
        let mut text = "=- \x1d\x02Überbot\x0f ".to_owned();
        text.append(version);
        text.append(" -=\r\n");
        text.append(" * waifu <category>      * grab [count] <user>\r\n");
        text.append(" * owo/mock/leet [user]  * quot <user>\r\n");
        text.append(" * ev <math expression>  * qsearch <query>\r\n");
        text.append(" * play [count]          * dbg [count]\r\n");
        text.append(
            " - This bot can also resolve HTML titles, Spotify links and a subset of sed expressions.",
        );
        text
    }
}

} // verus!
