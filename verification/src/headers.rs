//! A plain model of an HTTP request's headers.
use vstd::prelude::*;

use crate::text::owned;
use crate::text::same_text;

verus! {

/// Request headers in the order the request carries them. Each entry holds a header's
/// lower-case name and its value as text, or `None` where the value is not visible ASCII
/// text (so that it cannot be read as a string).
pub struct RequestHeaders {
    pub entries: Vec<(String, Option<String>)>,
}

/// The text of the first header named `name`, if there is one and its value is text.
pub open spec fn header_text(entries: Seq<(String, Option<String>)>, name: Seq<char>) -> Option<
    Seq<char>,
>
    decreases entries.len(),
{
    if entries.len() == 0 {
        None
    } else if entries[0].0@ == name {
        match entries[0].1 {
            Some(v) => Some(v@),
            None => None,
        }
    } else {
        header_text(entries.drop_first(), name)
    }
}

impl RequestHeaders {
    /// The headers as a sequence of entries.
    pub open spec fn spec_entries(&self) -> Seq<(String, Option<String>)> {
        self.entries@
    }

    /// No headers.
    pub fn new() -> (r: Self)
        ensures
            r.entries@.len() == 0,
    {
        RequestHeaders { entries: Vec::new() }
    }

    /// Appends a header.
    pub fn append(&mut self, name: String, value: Option<String>)
        ensures
            final(self).entries@ == old(self).entries@.push((name, value)),
    {
        self.entries.push((name, value));
    }

    /// The text of the first header named `name`, when there is such a header and its
    /// value is text.
    pub fn get_text(&self, name: &str) -> (r: Option<String>)
        ensures
            r matches Some(v) ==> header_text(self.entries@, name@) == Some(v@),
            r is None ==> header_text(self.entries@, name@) is None,
    {
        let mut i: usize = 0;
        assert(self.entries@.skip(0) =~= self.entries@);
        while i < self.entries.len()
            invariant
                i <= self.entries.len(),
                header_text(self.entries@, name@) == header_text(self.entries@.skip(i as int), name@),
            decreases self.entries.len() - i,
        {
            proof {
                assert(self.entries@.skip(i as int).drop_first() =~= self.entries@.skip(i + 1));
            }
            if same_text(self.entries[i].0.as_str(), name) {
                return match &self.entries[i].1 {
                    Some(v) => Some(owned(v.as_str())),
                    None => None,
                };
            }
            i = i + 1;
        }
        None
    }
}

} // verus!
