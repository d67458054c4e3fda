use vstd::prelude::*;

verus! {

/// Decides which messages are shown.
pub struct Logger {
    pub verbose: bool,
}

impl Logger {
    pub fn new(verbose: bool) -> (l: Logger)
        ensures
            l.verbose == verbose,
    {
        Logger { verbose }
    }

    /// The line to show for a verbose message, if verbose messages are shown.
    pub fn verbose_line(&self, text: &str) -> (r: Option<String>)
        ensures
            r is Some <==> self.verbose,
            r matches Some(line) ==> line@ == "gitweb: "@ + text@,
    {
        if self.verbose {
            let mut line = "gitweb: ".to_owned();
            line.append(text);
            Some(line)
        } else {
            None
        }
    }
}

} // verus!
