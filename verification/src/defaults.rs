//! Where the configuration and the data are kept, unless a command line
//! says otherwise.
use crate::util::string::{append_str, collect, to_chars};
use vstd::prelude::*;

verus! {

/// The name of the directory of the library inside the directories for
/// configurations and for data.
pub const HOME_NAME: &'static str = "tag";

/// The name of the database.
pub const DATABASE_PATH: &'static str = "db.sqlite";

/// The name of the configuration.
pub const CONFIG_NAME: &'static str = "config.yaml";

/// The directory of the data of tests.
pub const TEST_HOME: &'static str = "test";

/// Two parts of a path with a slash between them.
pub open spec fn joined(a: Seq<char>, b: Seq<char>) -> Seq<char> {
    a + seq!['/'] + b
}

/// Joins two parts of a path with a slash.
fn join(a: &str, b: &str) -> (s: String)
    ensures
        s@ == joined(a@, b@),
{
    let mut out = to_chars(a);
    out.push('/');
    append_str(&mut out, b);
    collect(&out)
}

/// The directory of the configuration, inside the directory for
/// configurations.
pub fn config_home(base: &str) -> (s: String)
    ensures
        s@ == joined(base@, "tag"@),
{
    join(base, HOME_NAME)
}

/// The path of a file of the configuration.
pub fn config_path(base: &str, path: &str) -> (s: String)
    ensures
        s@ == joined(joined(base@, "tag"@), path@),
{
    join(config_home(base).as_str(), path)
}

/// The directory of the data, inside the directory for data.
pub fn data_home(base: &str) -> (s: String)
    ensures
        s@ == joined(base@, "tag"@),
{
    join(base, HOME_NAME)
}

/// The path of a file of the data.
pub fn data_path(base: &str, path: &str) -> (s: String)
    ensures
        s@ == joined(joined(base@, "tag"@), path@),
{
    join(data_home(base).as_str(), path)
}

/// The directory of the data of the tests with a prefix.
pub fn test_home(prefix: &str) -> (s: String)
    ensures
        s@ == joined("test"@, prefix@),
{
    join(TEST_HOME, prefix)
}

/// The path of a file of the data of the tests with a prefix.
pub fn test_path(prefix: &str, path: &str) -> (s: String)
    ensures
        s@ == joined(joined("test"@, prefix@), path@),
{
    join(test_home(prefix).as_str(), path)
}

} // verus!
