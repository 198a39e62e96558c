//! The settings of the stand-alone proxy: its port, and which way out the
//! requests to which hosts take.

use vstd::prelude::*;
use crate::text::chars_of;
use crate::utils::{match_text, wild_match};

verus! {

/// The way out for the hosts that a pattern matches.
#[derive(Clone, Debug)]
pub struct Match {
    /// The host pattern.
    pub host: String,
    pub ja3: String,
    pub akamai: String,
    pub proxy: Option<String>,
}

/// The settings.
#[derive(Clone, Debug)]
pub struct Config {
    pub port: u16,
    pub matches: Vec<Match>,
}

/// Whether the rule at `i` is the first one whose pattern matches the host.
pub open spec fn is_first_match(rules: Seq<Match>, host: Seq<char>, i: int) -> bool {
    &&& 0 <= i < rules.len()
    &&& wild_match(rules[i].host@, host)
    &&& forall|j: int| 0 <= j < i ==> !wild_match((#[trigger] rules[j]).host@, host)
}

impl Config {
    /// The first rule whose pattern matches the host.
    pub fn first_match(&self, host: &str) -> (r: Option<usize>)
        ensures
            match r {
                Some(i) => is_first_match(self.matches@, host@, i as int),
                None => forall|j: int|
                    0 <= j < self.matches@.len() ==> !wild_match(
                        (#[trigger] self.matches@[j]).host@,
                        host@,
                    ),
            },
    {
        let h = chars_of(host);
        let mut i: usize = 0;
        while i < self.matches.len()
            invariant
                i <= self.matches.len(),
                h@ == host@,
                forall|j: int| 0 <= j < i ==> !wild_match((#[trigger] self.matches@[j]).host@, host@),
            decreases self.matches.len() - i,
        {
            let p = chars_of(self.matches[i].host.as_str());
            if match_text(p.as_slice(), h.as_slice()) {
                return Some(i);
            }
            i += 1;
        }
        None
    }
}

} // verus!
