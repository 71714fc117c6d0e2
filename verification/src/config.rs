//! The editor configuration: which analysis process serves which language.
//!
//! Reading the configuration file and expanding the paths in it happen
//! outside the library; the loaded associations are handed in as plain
//! string pairs, and the lookup by language is verified here.

use vstd::prelude::*;

verus! {

/// The configured language servers: language name to executable path, in
/// file order.
pub struct Config {
    pub language_servers: Vec<(String, String)>,
}

/// The path associated with `language`: the first entry carrying it, if any.
pub open spec fn find_server(entries: Seq<(String, String)>, language: Seq<char>) -> Option<
    Seq<char>,
>
    decreases entries.len(),
{
    if entries.len() == 0 {
        None
    } else if entries.first().0@ == language {
        Some(entries.first().1@)
    } else {
        find_server(entries.drop_first(), language)
    }
}

/// Relies on str's equality: two string slices compare equal exactly when
/// they consist of the same characters.
#[verifier::external_body]
fn str_eq(a: &str, b: &str) -> (r: bool)
    ensures
        r == (a@ == b@),
{
    a == b
}

impl Config {
    /// A configuration with no servers.
    pub fn new() -> (r: Config)
        ensures
            r.language_servers@ == Seq::<(String, String)>::empty(),
    {
        Config { language_servers: Vec::new() }
    }

    /// The executable path configured for `language`, if any: the first
    /// entry with that language name.
    #[verifier::loop_isolation(false)]
    pub fn server_for(&self, language: &str) -> (r: Option<&String>)
        ensures
            (r is Some <==> find_server(self.language_servers@, language@) is Some),
            (r matches Some(path) ==> Some(path@) == find_server(
                self.language_servers@,
                language@,
            )),
    {
        let entries = &self.language_servers;
        proof {
            assert(entries@.skip(0) =~= entries@);
        }
        let mut i: usize = 0;
        while i < entries.len()
            invariant
                i <= entries@.len(),
                find_server(entries@, language@) == find_server(
                    entries@.skip(i as int),
                    language@,
                ),
            decreases entries@.len() - i,
        {
            proof {
                assert(entries@.skip(i as int).first() == entries@[i as int]);
                assert(entries@.skip(i as int).drop_first() =~= entries@.skip(i + 1));
            }
            if str_eq(entries[i].0.as_str(), language) {
                return Some(&entries[i].1);
            }
            i += 1;
        }
        proof {
            assert(entries@.skip(i as int) =~= Seq::<(String, String)>::empty());
        }
        None
    }
}

} // verus!
