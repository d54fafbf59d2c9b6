use vstd::prelude::*;

verus! {

/// A 32-byte account address.
#[derive(Clone, Copy, Debug, Eq)]
pub struct Pubkey {
    pub bytes: [u8; 32],
}

impl PartialEq for Pubkey {
    fn eq(&self, other: &Pubkey) -> (r: bool)
        ensures
            r == (self@ == other@),
    {
        let mut i: usize = 0;
        while i < 32
            invariant
                0 <= i <= 32,
                forall|j: int| 0 <= j < i ==> self.bytes@[j] == other.bytes@[j],
            decreases 32 - i,
        {
            if self.bytes[i] != other.bytes[i] {
                return false;
            }
            i = i + 1;
        }
        assert(self.bytes@ =~= other.bytes@);
        true
    }
}

impl View for Pubkey {
    type V = Seq<u8>;

    open spec fn view(&self) -> Seq<u8> {
        self.bytes@
    }
}

impl vstd::std_specs::cmp::PartialEqSpecImpl for Pubkey {
    open spec fn obeys_eq_spec() -> bool {
        true
    }

    open spec fn eq_spec(&self, other: &Pubkey) -> bool {
        self@ == other@
    }
}

/// The address of the system program, which marks an unfilled reservation
/// slot: it is never a creator's address.
pub open spec fn is_sentinel(p: Pubkey) -> bool {
    forall|i: int| 0 <= i < 32 ==> #[trigger] p@[i] == 0u8
}

/// The one address that `is_sentinel` admits.
pub open spec fn sentinel_key() -> Pubkey {
    choose|p: Pubkey| is_sentinel(p)
}

pub proof fn lemma_sentinel_unique(p: Pubkey)
    requires
        is_sentinel(p),
    ensures
        p == sentinel_key(),
{
    let q = sentinel_key();
    assert(is_sentinel(q));
    assert forall|i: int| 0 <= i < 32 implies p.bytes[i] == q.bytes[i] by {
        assert(p@[i] == 0u8);
        assert(q@[i] == 0u8);
    }
    assert(p.bytes =~= q.bytes);
}

/// Against a sentinel, equality of bytes is being a sentinel.
pub proof fn lemma_sentinel_eq(p: Pubkey, q: Pubkey)
    requires
        is_sentinel(q),
    ensures
        is_sentinel(p) <==> p@ == q@,
{
    if is_sentinel(p) {
        assert forall|i: int| 0 <= i < 32 implies p@[i] == q@[i] by {
            assert(p@[i] == 0u8);
            assert(q@[i] == 0u8);
        }
        assert(p@ =~= q@);
    }
}

/// Relies on solana_program::system_program::id: the system program's
/// address, declared as the base58 string of 32 '1' digits, is 32 zero bytes.
#[verifier::external_body]
fn system_program_id() -> (r: Pubkey)
    ensures
        is_sentinel(r),
{
    Pubkey { bytes: solana_program::system_program::id().to_bytes() }
}

/// The placeholder address written into unfilled reservation slots.
pub fn sentinel_address() -> (r: Pubkey)
    ensures
        is_sentinel(r),
{
    system_program_id()
}

} // verus!
