use vstd::prelude::*;

verus! {

/// The settings of the checklist: the directory of the day files, the pattern that names a
/// day, and the texts that a new day's file starts with.
#[derive(Debug)]
pub struct Config {
    pub path: String,
    pub date_format: String,
    pub habits: Vec<String>,
}

/// The characters of the pattern that names a day unless the settings say otherwise.
pub open spec fn iso_date_format() -> Seq<char> {
    seq!['%', 'Y', '-', '%', 'm', '-', '%', 'd']
}

/// The pattern that names a day: year, month and day, as in `2024-01-31`.
pub fn default_date_format() -> (r: String)
    ensures
        r@ == iso_date_format(),
{
    let r = String::from_str("%Y-%m-%d");
    proof {
        reveal_strlit("%Y-%m-%d");
    }
    assert(r@ =~= iso_date_format());
    r
}

/// No habits: a new day's file starts empty.
pub fn default_habits() -> (r: Vec<String>)
    ensures
        r@.len() == 0,
{
    Vec::new()
}

impl Config {
    /// The settings with day files under `path`, and the default pattern and habits.
    pub fn with_path(path: String) -> (r: Config)
        ensures
            r.path@ == path@,
            r.date_format@ == iso_date_format(),
            r.habits@.len() == 0,
    {
        Config { path, date_format: default_date_format(), habits: default_habits() }
    }
}

} // verus!
