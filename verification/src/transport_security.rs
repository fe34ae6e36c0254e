//! Which security layers a benchmark endpoint is willing to negotiate on its
//! transport. The core treats the secured connection as given; this choice is
//! parsed from operator input and handed to the transport layer untouched.

use vstd::prelude::*;
use vstd::string::StrSliceExecFns;

verus! {

/// The security protocols an endpoint offers during transport negotiation.
#[derive(Clone, Copy, PartialEq, Eq, Structural, Debug)]
pub enum TransportSecurity {
    /// Offer the Noise handshake only.
    Noise,
    /// Offer unencrypted connections only.
    Plaintext,
    /// Offer every supported security protocol.
    All,
}

/// Character-for-character equality of two string slices.
fn str_eq_chars(a: &str, b: &str) -> (r: bool)
    ensures
        r == (a@ == b@),
{
    let alen = a.unicode_len();
    let blen = b.unicode_len();
    if alen != blen {
        return false;
    }
    let mut i: usize = 0;
    while i < alen
        invariant
            i <= alen,
            alen == a@.len(),
            alen == b@.len(),
            forall|k: int| 0 <= k < i ==> a@[k] == b@[k],
        decreases alen - i,
    {
        if a.get_char(i) != b.get_char(i) {
            return false;
        }
        i += 1;
    }
    proof {
        assert(a@ =~= b@);
    }
    true
}

impl TransportSecurity {
    /// Parse an operator-supplied mode word. Exactly the words `noise`,
    /// `plaintext` and `all` are accepted; anything else is rejected with an
    /// explanatory message.
    pub fn from_str(s: &str) -> (r: Result<TransportSecurity, String>)
        ensures
            s@ == "noise"@ ==> r == Ok::<TransportSecurity, String>(TransportSecurity::Noise),
            s@ == "plaintext"@ ==> r == Ok::<TransportSecurity, String>(
                TransportSecurity::Plaintext,
            ),
            s@ == "all"@ ==> r == Ok::<TransportSecurity, String>(TransportSecurity::All),
            (s@ != "noise"@ && s@ != "plaintext"@ && s@ != "all"@) ==> (r matches Err(m) && m@
                == "Expected one of 'noise', 'plaintext' or 'all'."@),
    {
        proof {
            reveal_strlit("noise");
            reveal_strlit("plaintext");
            reveal_strlit("all");
            assert("noise"@.len() == 5);
            assert("plaintext"@.len() == 9);
            assert("all"@.len() == 3);
        }
        if str_eq_chars(s, "noise") {
            Ok(TransportSecurity::Noise)
        } else if str_eq_chars(s, "plaintext") {
            Ok(TransportSecurity::Plaintext)
        } else if str_eq_chars(s, "all") {
            Ok(TransportSecurity::All)
        } else {
            Err("Expected one of 'noise', 'plaintext' or 'all'.".to_owned())
        }
    }

    /// The mode's display name.
    pub fn name(&self) -> (r: String)
        ensures
            r@ == match *self {
                TransportSecurity::Noise => "Noise"@,
                TransportSecurity::Plaintext => "Plaintext"@,
                TransportSecurity::All => "All"@,
            },
    {
        match self {
            TransportSecurity::Noise => "Noise".to_owned(),
            TransportSecurity::Plaintext => "Plaintext".to_owned(),
            TransportSecurity::All => "All".to_owned(),
        }
    }
}

} // verus!
