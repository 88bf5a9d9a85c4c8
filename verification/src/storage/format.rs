//! Data formats: names of the file extensions each format writes.

use vstd::prelude::*;

verus! {

/// A value that names the file extension of a data format.
pub trait DataFormat {
    /// The extension this format writes.
    spec fn spec_extension(&self) -> Seq<char>;

    /// Returns the file extension for this format.
    fn extension(&self) -> (r: String)
        ensures
            r@ == self.spec_extension(),
    ;
}

/// The xmachina data format.
#[derive(Clone, Copy, Debug, Default, Hash, PartialEq, Eq, PartialOrd, Ord)]
pub struct XMachina;

impl DataFormat for XMachina {
    open spec fn spec_extension(&self) -> Seq<char> {
        "xmach"@
    }

    fn extension(&self) -> (r: String) {
        proof {
            reveal_strlit("xmach");
        }
        "xmach".to_owned()
    }
}

/// An extension followed by a suffix.
pub fn extension_with_suffix(inner: &str, suffix: &str) -> (r: String)
    ensures
        r@ == inner@ + suffix@,
{
    let mut s = inner.to_owned();
    s.append(suffix);
    s
}

} // verus!
