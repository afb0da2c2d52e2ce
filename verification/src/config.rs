//! The project configuration the compiler is driven by: the target
//! architecture, the optional output path, and the preprocessor's
//! key–value definitions. Loading the configuration file is the
//! caller's business; the compiler consumes these plain values.

use vstd::prelude::*;
use crate::strutil::str_eq;

verus! {

/// A flat mapping of string keys to string values. A later entry for a
/// key shadows an earlier one, as re-insertion into a map would.
#[derive(Debug)]
pub struct ConfigMap {
    pub entries: Vec<(String, String)>,
}

/// The value of the newest entry for the key, if any.
pub open spec fn spec_lookup(m: Seq<(Seq<char>, Seq<char>)>, key: Seq<char>) -> Option<Seq<char>>
    decreases m.len(),
{
    if m.len() == 0 {
        None
    } else if m.last().0 == key {
        Some(m.last().1)
    } else {
        spec_lookup(m.drop_last(), key)
    }
}

impl View for ConfigMap {
    type V = Seq<(Seq<char>, Seq<char>)>;

    open spec fn view(&self) -> Seq<(Seq<char>, Seq<char>)> {
        Seq::new(self.entries@.len(), |i: int| (self.entries@[i].0@, self.entries@[i].1@))
    }
}

impl ConfigMap {
    /// An empty mapping.
    pub fn new() -> (m: ConfigMap)
        ensures
            m@ =~= Seq::<(Seq<char>, Seq<char>)>::empty(),
    {
        ConfigMap { entries: Vec::new() }
    }

    /// Define a key. A newer definition shadows an older one.
    pub fn insert(&mut self, key: String, value: String)
        ensures
            final(self)@ =~= old(self)@.push((key@, value@)),
    {
        self.entries.push((key, value));
    }

    /// The value defined for the key, if any.
    pub fn get(&self, key: &str) -> (r: Option<String>)
        ensures
            match r {
                Some(v) => spec_lookup(self@, key@) == Some(v@),
                None => spec_lookup(self@, key@) is None,
            },
    {
        let mut j = self.entries.len();
        proof {
            assert(self@.subrange(0, j as int) =~= self@);
        }
        while j > 0
            invariant
                j <= self.entries.len(),
                spec_lookup(self@, key@) == spec_lookup(self@.subrange(0, j as int), key@),
            decreases j,
        {
            j = j - 1;
            if str_eq(self.entries[j].0.as_str(), key) {
                proof {
                    assert(self@.subrange(0, j as int + 1).last() == self@[j as int]);
                }
                return Some(self.entries[j].1.clone());
            }
            proof {
                assert(self@.subrange(0, j as int + 1).drop_last() =~= self@.subrange(0, j as int));
            }
        }
        proof {
            assert(self@.subrange(0, 0) =~= Seq::<(Seq<char>, Seq<char>)>::empty());
        }
        None
    }
}

/// The `[target]` section: the architecture name and the optional
/// output path.
#[derive(Debug)]
pub struct TargetSection {
    pub arch: String,
    pub output: Option<String>,
}

/// The optional `[meta]` section.
#[derive(Debug)]
pub struct MetaSection {
    pub name: Option<String>,
    pub version: Option<String>,
    pub author: Option<String>,
}

/// A whole project configuration.
#[derive(Debug)]
pub struct ProjectConfig {
    pub target: TargetSection,
    pub meta: Option<MetaSection>,
    pub defines: Option<ConfigMap>,
}

} // verus!
