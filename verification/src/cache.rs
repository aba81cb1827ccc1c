//! Where other tools find what is being played.
use vstd::prelude::*;

use crate::paths;

verus! {

/// The cache directory, below the home directory.
pub const CACHE_PATH: &'static str = ".cache/phonto";

/// What is being played, and through which shader.
#[derive(Debug)]
pub struct Cache {
    pub path: String,
    pub shader: Option<String>,
}

/// The cache directory.
pub fn cache_dir(home: &str) -> (r: String)
    ensures
        r@ == paths::joined(home@, CACHE_PATH@),
{
    paths::join(home, CACHE_PATH)
}

/// The file that holds the path of the video alone.
pub fn current_file(home: &str) -> (r: String)
    ensures
        r@ == paths::joined(paths::joined(home@, CACHE_PATH@), "current"@),
{
    paths::join(cache_dir(home).as_str(), "current")
}

/// The file that holds a [`Cache`] as JSON.
pub fn current_json(home: &str) -> (r: String)
    ensures
        r@ == paths::joined(paths::joined(home@, CACHE_PATH@), "current.json"@),
{
    paths::join(cache_dir(home).as_str(), "current.json")
}

/// The files of the cache stand in its directory, below the home directory.
pub proof fn cache_law(home: &str, dir: String, current: String, json: String)
    requires
        call_ensures(cache_dir, (home,), dir),
        call_ensures(current_file, (home,), current),
        call_ensures(current_json, (home,), json),
        home@.len() > 0,
        home@.last() != '/',
    ensures
        dir@ == home@ + "/.cache/phonto"@,
        current@ == dir@ + "/current"@,
        json@ == dir@ + "/current.json"@,
{
    reveal_strlit(".cache/phonto");
    reveal_strlit("/.cache/phonto");
    reveal_strlit("current");
    reveal_strlit("/current");
    reveal_strlit("current.json");
    reveal_strlit("/current.json");
    assert(dir@ =~= home@ + "/.cache/phonto"@);
    assert(dir@.last() == 'o');
    assert(current@ =~= dir@ + "/current"@);
    assert(json@ =~= dir@ + "/current.json"@);
}

} // verus!
