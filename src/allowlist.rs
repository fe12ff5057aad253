use vstd::prelude::*;

use crate::text::text_eq;
use crate::validate::ParsedUrl;

verus! {

/// Whether a domain, with its registrable root, is permitted by `entries`:
/// some entry equals the domain or its root.
pub open spec fn permits(
    entries: Seq<Seq<char>>,
    domain: Seq<char>,
    root: Option<Seq<char>>,
) -> bool {
    exists|i: int|
        0 <= i < entries.len() && (#[trigger] entries[i] == domain || root == Some(entries[i]))
}

/// The set of domains that links may point to, fixed when it is built.
pub struct Allowlist {
    entries: Vec<String>,
}

impl Allowlist {
    /// The configured entries, in order.
    pub closed spec fn view(&self) -> Seq<Seq<char>> {
        self.entries@.map_values(|e: String| e@)
    }

    pub fn new(entries: Vec<String>) -> (r: Allowlist)
        ensures
            r@ == entries@.map_values(|e: String| e@),
    {
        Allowlist { entries }
    }

    /// Whether the domain of `url`, or its registrable root, is an entry.
    pub fn is_allowed(&self, url: &ParsedUrl) -> (r: bool)
        ensures
            r == permits(self@, url.domain@, url@.1),
    {
        let mut i: usize = 0;
        while i < self.entries.len()
            invariant
                i <= self.entries@.len(),
                forall|j: int|
                    0 <= j < i ==> !(self@[j] == url.domain@ || url@.1 == Some(self@[j])),
            decreases self.entries@.len() - i,
        {
            let e = &self.entries[i];
            let hit = if text_eq(e.as_str(), url.domain.as_str()) {
                true
            } else {
                match &url.root {
                    Some(root) => text_eq(e.as_str(), root.as_str()),
                    None => false,
                }
            };
            if hit {
                assert(self@[i as int] == e@);
                return true;
            }
            i = i + 1;
        }
        false
    }
}

} // verus!
