use vstd::prelude::*;

verus! {

/// One hit of a web search: its title, the address shown for it, and the
/// text snippet beside it.
pub struct SearchResult {
    pub title: String,
    pub link: String,
    pub snippet: String,
}

impl SearchResult {
    pub fn new(title: String, link: String, snippet: String) -> (r: SearchResult)
        ensures
            r.title@ == title@,
            r.link@ == link@,
            r.snippet@ == snippet@,
    {
        SearchResult { title, link, snippet }
    }
}

} // verus!
