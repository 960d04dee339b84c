use vstd::prelude::*;

pub mod errors;
pub mod extract;
pub mod groups;
pub mod html;
pub mod input;
pub mod output;
pub mod pipeline;
pub mod scrape;
pub mod search;
pub mod text;

verus! {

/// Stores the cookie header sent with every game-page request.
///
/// The slot is filled at most once: when it already holds cookies, it stays as it is and
/// the rejected cookies are handed back.
pub fn set_fg_cookies(slot: &mut Option<String>, cookies: String) -> (r: Result<(), String>)
    ensures
        old(slot).is_none() ==> r is Ok && *final(slot) == Some(cookies),
        old(slot).is_some() ==> r == Err::<(), String>(cookies) && *final(slot) == *old(slot),
{
    if slot.is_some() {
        Err(cookies)
    } else {
        *slot = Some(cookies);
        Ok(())
    }
}

} // verus!
