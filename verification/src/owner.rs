use vstd::prelude::*;

verus! {

/// The textual form of the principal with the given bytes, as the candid
/// library prints it: lower-case base32 groups over a checksum and the bytes.
pub uninterp spec fn principal_text_of(bytes: Seq<u8>) -> Seq<char>;

/// A caller identity: the raw bytes of a principal. The anonymous caller is
/// the single byte 4; a principal never exceeds 29 bytes.
pub struct Owner {
    bytes: Vec<u8>,
}

/// Copies a byte vector element by element.
pub(crate) fn copy_bytes(bytes: &Vec<u8>) -> (r: Vec<u8>)
    ensures
        r@ == bytes@,
{
    let mut out: Vec<u8> = Vec::new();
    let mut i: usize = 0;
    while i < bytes.len()
        invariant
            i <= bytes@.len(),
            out@ == bytes@.subrange(0, i as int),
        decreases bytes@.len() - i,
    {
        out.push(bytes[i]);
        i = i + 1;
        proof {
            assert(out@ =~= bytes@.subrange(0, i as int));
        }
    }
    proof {
        assert(out@ =~= bytes@);
    }
    out
}

impl Owner {
    #[verifier::type_invariant]
    pub(crate) closed spec fn inv(self) -> bool {
        self.bytes@.len() <= 29
    }

    pub closed spec fn view(self) -> Seq<u8> {
        self.bytes@
    }

    /// The byte sequence that identifies the anonymous caller.
    pub open spec fn anonymous_bytes() -> Seq<u8> {
        seq![4u8]
    }

    pub open spec fn is_anonymous(self) -> bool {
        self@ == Self::anonymous_bytes()
    }

    /// Builds an owner from principal bytes; rejects byte strings longer than
    /// any principal can be.
    pub fn from_bytes(bytes: Vec<u8>) -> (r: Option<Owner>)
        ensures
            bytes@.len() <= 29 ==> (r matches Some(o) && o@ == bytes@),
            bytes@.len() > 29 ==> r is None,
    {
        if bytes.len() <= 29 {
            Some(Owner { bytes })
        } else {
            None
        }
    }

    /// The anonymous caller.
    pub fn anonymous() -> (r: Owner)
        ensures
            r@ == Self::anonymous_bytes(),
    {
        let mut bytes: Vec<u8> = Vec::new();
        bytes.push(4u8);
        proof {
            assert(bytes@ =~= Self::anonymous_bytes());
        }
        Owner { bytes }
    }

    /// An owner with the same principal bytes.
    pub fn duplicate(&self) -> (r: Owner)
        ensures
            r@ == self@,
    {
        proof {
            use_type_invariant(self);
        }
        Owner { bytes: copy_bytes(&self.bytes) }
    }

    /// The principal bytes as a fresh vector; never more than a principal's
    /// 29 bytes.
    pub fn to_bytes(&self) -> (r: Vec<u8>)
        ensures
            r@ == self@,
            r@.len() <= 29,
    {
        proof {
            use_type_invariant(self);
        }
        copy_bytes(&self.bytes)
    }

    /// Whether this owner is the anonymous caller.
    pub fn check_anonymous(&self) -> (r: bool)
        ensures
            r == self.is_anonymous(),
    {
        if self.bytes.len() == 1 && self.bytes[0] == 4u8 {
            proof {
                assert(self.bytes@ =~= Self::anonymous_bytes());
            }
            true
        } else {
            proof {
                assert(self.bytes@ != Self::anonymous_bytes());
            }
            false
        }
    }

    /// Whether two owners carry the same principal bytes.
    pub fn same_as(&self, other: &Owner) -> (r: bool)
        ensures
            r == (self@ == other@),
    {
        if self.bytes.len() != other.bytes.len() {
            return false;
        }
        let mut i: usize = 0;
        while i < self.bytes.len()
            invariant
                self.bytes@.len() == other.bytes@.len(),
                i <= self.bytes@.len(),
                forall|j: int| 0 <= j < i ==> self.bytes@[j] == other.bytes@[j],
            decreases self.bytes@.len() - i,
        {
            if self.bytes[i] != other.bytes[i] {
                return false;
            }
            i = i + 1;
        }
        proof {
            assert(self.bytes@ =~= other.bytes@);
        }
        true
    }

    /// The textual form of this owner's principal.
    pub fn text(&self) -> (r: String)
        ensures
            r@ == principal_text_of(self@),
    {
        proof {
            use_type_invariant(self);
        }
        principal_text(&self.bytes)
    }
}

/// Relies on candid::Principal::to_text: the textual form of a principal is a
/// deterministic function of its bytes alone. Principal::from_slice only
/// carries the bytes over, and panics on more than 29 bytes, which the
/// precondition rules out.
#[verifier::external_body]
fn principal_text(bytes: &Vec<u8>) -> (r: String)
    requires
        bytes@.len() <= 29,
    ensures
        r@ == principal_text_of(bytes@),
{
    candid::Principal::from_slice(bytes).to_text()
}

} // verus!
