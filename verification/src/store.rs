use vstd::prelude::*;

verus! {

/// The connection string of the SQLite database at `path`, opened for
/// reading and writing and created where it does not exist.
pub fn database_url(path: &str) -> (url: String)
    ensures
        url@ == "sqlite:"@ + path@ + "?mode=rwc"@,
{
    let mut url = String::from_str("sqlite:");
    url.append(path);
    url.append("?mode=rwc");
    url
}

} // verus!
