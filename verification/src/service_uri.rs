//! The URI of a node.

use vstd::prelude::*;

verus! {

/// The URI of a node.
#[derive(Debug)]
pub struct Uri {
    path: String,
}

impl View for Uri {
    type V = Seq<char>;

    closed spec fn view(&self) -> Seq<char> {
        self.path@
    }
}

impl Uri {
    pub fn new(path: &str) -> (u: Uri)
        ensures
            u@ == path@,
    {
        Uri { path: path.to_owned() }
    }

    pub fn as_str(&self) -> (s: &str)
        ensures
            s@ == self@,
    {
        self.path.as_str()
    }
}

impl From<String> for Uri {
    fn from(v: String) -> (u: Uri)
        ensures
            u@ == v@,
    {
        Uri { path: v }
    }
}

impl vstd::std_specs::convert::FromSpecImpl<String> for Uri {
    open spec fn obeys_from_spec() -> bool {
        true
    }

    open spec fn from_spec(v: String) -> Uri {
        Uri::from_string_spec(v)
    }
}

impl Uri {
    pub closed spec fn from_string_spec(v: String) -> Uri {
        Uri { path: v }
    }
}

impl Clone for Uri {
    fn clone(&self) -> (u: Uri)
        ensures
            u@ == self@,
    {
        Uri { path: self.path.clone() }
    }
}

impl PartialEq for Uri {
    fn eq(&self, other: &Uri) -> (r: bool) {
        self.path == other.path
    }
}

impl vstd::std_specs::cmp::PartialEqSpecImpl for Uri {
    open spec fn obeys_eq_spec() -> bool {
        true
    }

    open spec fn eq_spec(&self, other: &Uri) -> bool {
        self@ == other@
    }
}

impl Eq for Uri {

}

} // verus!
