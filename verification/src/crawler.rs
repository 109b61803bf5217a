use vstd::prelude::*;
use crate::exclude::{any_pattern_matches, ExcludeFilter};

verus! {

/// Whether a link found on a page gets checked: only the first time it is
/// seen in the crawl (`newly_marked`), and only where no exclude pattern
/// matches it.
pub fn should_check_link(newly_marked: bool, filter: &ExcludeFilter, link_url: &str) -> (r: bool)
    ensures
        r == (newly_marked && !any_pattern_matches(filter@, link_url@)),
{
    if !newly_marked {
        return false;
    }
    !filter.should_exclude(link_url)
}

} // verus!
