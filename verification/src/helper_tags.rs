//! The `ATag` record: a hyperlink's display text and target reference, as
//! read from an anchor element.

use vstd::prelude::*;
use vstd::string::StringExecFns;

verus! {

/// The abstract value of an anchor: its display text and its href.
pub struct AnchorV {
    pub text: Seq<char>,
    pub href: Seq<char>,
}

/// A hyperlink's display text plus its target reference.  The text is the
/// anchor's inner markup, kept verbatim; the href is typically site-relative.
pub struct ATag {
    pub(crate) text: String,
    pub(crate) link: String,
}

impl View for ATag {
    type V = AnchorV;

    closed spec fn view(&self) -> AnchorV {
        AnchorV { text: self.text@, href: self.link@ }
    }
}

impl DeepView for ATag {
    type V = AnchorV;

    open spec fn deep_view(&self) -> AnchorV {
        self.view()
    }
}

impl ATag {
    /// Builds an anchor record from its display text and href.
    pub fn new(text: String, link: String) -> (r: ATag)
        ensures
            r@.text == text@,
            r@.href == link@,
    {
        ATag { text, link }
    }

    /// The anchor's display text.
    pub fn text(&self) -> (r: &str)
        ensures
            r@ == self@.text,
    {
        self.text.as_str()
    }

    /// The anchor's target reference.
    pub fn link(&self) -> (r: &str)
        ensures
            r@ == self@.href,
    {
        self.link.as_str()
    }

    /// The absolute form of the link: the base URL followed by the href,
    /// by plain concatenation, with no slash deduplication or normalization.
    pub fn get_abs_link(&self, base_uri: &str) -> (r: String)
        ensures
            r@ == base_uri@ + self@.href,
    {
        let mut r = String::new();
        r.append(base_uri);
        r.append(self.link.as_str());
        proof {
            assert(r@ =~= base_uri@ + self@.href);
        }
        r
    }
}

} // verus!
