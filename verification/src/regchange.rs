//! The registry value that starts the program with the system.
use vstd::prelude::*;

verus! {

/// The command line stored to start the program with the system: the quoted executable path,
/// a space, and the commands to run.
pub fn autostart_command(executable: &String, commands: &String) -> (res: String)
    ensures
        res@ == "\""@ + executable@ + "\" "@ + commands@,
{
    let mut res = "\"".to_owned();
    res.append(executable.as_str());
    res.append("\" ");
    res.append(commands.as_str());
    res
}

} // verus!
