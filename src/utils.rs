use vstd::prelude::*;

verus! {

/// Copying to a clipboard is a browser feature: on the server there is no
/// clipboard, and nothing is copied.
pub fn copy_to_clipboard(_to_copy: &str) -> (r: Option<()>)
    ensures
        r.is_none(),
{
    None
}

/// The public base address of the site, used to build links and redirects.
#[derive(Debug, Clone)]
pub struct BaseUrl(pub String);

} // verus!
