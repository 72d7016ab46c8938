use vstd::prelude::*;

verus! {

/// The temporary sibling a download is staged into until it can be promoted
/// atomically to its final name: the final path plus a fixed suffix, so it
/// is never mistaken for the deliverable.
pub fn partial_file_path(path_final: &str) -> (r: String)
    ensures
        r@ == path_final@ + ".sup3.partial"@,
{
    let mut s: String = path_final.to_owned();
    s.append(".sup3.partial");
    s
}

} // verus!
