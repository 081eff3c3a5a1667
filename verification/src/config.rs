//! What the gateway is started with.

use vstd::prelude::*;

verus! {

/// Path of the credentials file when none is configured.
pub const DEFAULT_LOGINS_FILE: &'static str = "logins.txt";

/// Realm announced to clients when none is configured.
pub const DEFAULT_REALM: &'static str = "Login";

/// Name of the variable that holds the path of the credentials file.
pub const LOGINS_FILE_VAR: &'static str = "LOGINS_FILE";

/// Name of the variable that holds the realm.
pub const REALM_VAR: &'static str = "BASIC_AUTH_REALM";

/// The port to listen on, on all interfaces.
pub const LISTEN_PORT: u16 = 8080;

/// Exit status after the help text was asked for.
pub const EXIT_HELP: i32 = 1;

/// Exit status when the credentials file cannot be read.
pub const EXIT_LOGINS_UNREADABLE: i32 = 2;

/// The settings of one run. They are read once, at startup.
#[derive(Debug, Clone, PartialEq, Eq)]
pub struct Config {
    /// Path of the credentials file.
    pub logins_file: String,
    /// Realm of the challenge.
    pub realm: String,
}

/// A configured value, or the default in its place.
pub open spec fn value_or(configured: Option<Seq<char>>, default: Seq<char>) -> Seq<char> {
    match configured {
        Some(value) => value,
        None => default,
    }
}

/// The text of a value that may be absent.
pub open spec fn text_of_setting(configured: Option<String>) -> Option<Seq<char>> {
    match configured {
        Some(value) => Some(value@),
        None => None,
    }
}

impl Config {
    /// The settings for the values found in the environment: each one that
    /// is set is taken as it is, an empty one too.
    pub fn from_settings(logins_file: Option<String>, realm: Option<String>) -> (config: Config)
        ensures
            config.logins_file@ == value_or(text_of_setting(logins_file), DEFAULT_LOGINS_FILE@),
            config.realm@ == value_or(text_of_setting(realm), DEFAULT_REALM@),
    {
        let logins_file = match logins_file {
            Some(path) => path,
            None => String::from_str(DEFAULT_LOGINS_FILE),
        };
        let realm = match realm {
            Some(realm) => realm,
            None => String::from_str(DEFAULT_REALM),
        };
        Config { logins_file, realm }
    }
}

/// True when `argument` asks for the help text.
pub open spec fn is_help_flag(argument: Seq<char>) -> bool {
    argument == "-h"@ || argument == "--help"@
}

/// True when one of the arguments, the program's name among them, asks for
/// the help text. The help then comes before anything else.
pub fn help_requested(arguments: &Vec<String>) -> (requested: bool)
    ensures
        requested <==> exists|i: int| 0 <= i < arguments.len() && is_help_flag(#[trigger] arguments[i]@),
{
    let short = String::from_str("-h");
    let long = String::from_str("--help");
    let mut i: usize = 0;
    while i < arguments.len()
        invariant
            i <= arguments.len(),
            short@ == "-h"@,
            long@ == "--help"@,
            forall|j: int| 0 <= j < i ==> !is_help_flag(#[trigger] arguments[j]@),
        decreases arguments.len() - i,
    {
        if arguments[i] == short || arguments[i] == long {
            return true;
        }
        i = i + 1;
    }
    false
}

} // verus!
