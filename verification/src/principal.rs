//! Canister identifiers in their textual form.

use vstd::prelude::*;

verus! {

/// Whether `text` is the textual form of a principal: what
/// `ic_types::Principal::from_text` accepts.
pub uninterp spec fn is_principal_text(text: Seq<char>) -> bool;

/// Calls `ic_types::Principal::from_text` and reports whether it accepted the
/// text. That function decodes the text and accepts it only if it is, letter
/// for letter, the textual form of the principal it decoded; nothing of the
/// decoding itself is claimed here beyond the name of its verdict.
#[verifier::external_body]
fn principal_accepts(text: &str) -> (ok: bool)
    ensures
        ok == is_principal_text(text@),
{
    ic_types::Principal::from_text(text).is_ok()
}

/// The identity of a canister or a user on a network, held in its textual
/// form (such as `aaaaa-aa`). Every value holds a text that is the textual
/// form of a principal.
#[derive(Debug, PartialEq, Eq)]
pub struct Principal {
    text: String,
}

impl View for Principal {
    type V = Seq<char>;

    /// The textual form.
    closed spec fn view(&self) -> Seq<char> {
        self.text@
    }
}

impl Principal {
    #[verifier::type_invariant]
    spec fn valid(&self) -> bool {
        is_principal_text(self.text@)
    }

    /// Reads a principal from its textual form; `None` where the text is not
    /// the textual form of any principal.
    pub fn from_text(text: &str) -> (r: Option<Principal>)
        ensures
            r is Some == is_principal_text(text@),
            r matches Some(p) ==> p@ == text@,
    {
        if principal_accepts(text) {
            Some(Principal { text: text.to_owned() })
        } else {
            None
        }
    }

    /// The textual form of the principal.
    pub fn to_text(&self) -> (r: String)
        ensures
            r@ == self@,
            is_principal_text(self@),
    {
        proof {
            use_type_invariant(self);
        }
        self.text.clone()
    }

    /// The textual form of the principal, borrowed.
    pub fn as_str(&self) -> (r: &str)
        ensures
            r@ == self@,
            is_principal_text(self@),
    {
        proof {
            use_type_invariant(self);
        }
        self.text.as_str()
    }

}

impl Clone for Principal {
    /// A copy of this principal.
    fn clone(&self) -> (r: Principal)
        ensures
            r@ == self@,
    {
        proof {
            use_type_invariant(self);
        }
        Principal { text: self.text.clone() }
    }
}

/// The textual forms of a sequence of principals.
pub open spec fn principal_views(items: Seq<Principal>) -> Seq<Seq<char>> {
    Seq::new(items.len(), |i: int| items[i]@)
}

} // verus!
