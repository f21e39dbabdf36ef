use vstd::prelude::*;
use vstd::bytes::spec_u64_to_le_bytes;
use vstd::bytes::u64_to_le_bytes;

verus! {

/// What `Pubkey::try_find_program_address` returns for the seed list
/// `[tag, author, nonce_le]` and the given program id: either a 32-byte
/// address together with the bump seed that produced it, or nothing when the
/// whole bump range yields no usable address. The result is a function of the
/// seeds and the program id alone.
pub uninterp spec fn pda_search(
    tag: Seq<u8>,
    author: Seq<u8>,
    nonce_le: Seq<u8>,
    program: Seq<u8>,
) -> Option<(Seq<u8>, u8)>;

/// What `Pubkey::create_program_address` returns for the seed list
/// `[tag, author, nonce_le, [bump]]` and the given program id: the one address
/// those seeds name, or nothing when they name none. The result is a function
/// of the seeds and the program id alone.
pub uninterp spec fn pda_with_bump(
    tag: Seq<u8>,
    author: Seq<u8>,
    nonce_le: Seq<u8>,
    bump: u8,
    program: Seq<u8>,
) -> Option<Seq<u8>>;

/// Relies on `Pubkey::try_find_program_address` (solana-pubkey): a
/// deterministic search over the bump range that returns the first bump whose
/// seed list derives a valid 32-byte address; its source returns exactly the
/// address that `Pubkey::create_program_address` computes for the same seeds
/// plus that bump.
#[verifier::external_body]
fn find_pda(tag: &Vec<u8>, author: &Vec<u8>, nonce_le: &Vec<u8>, program: &Vec<u8>) -> (r: Option<
    (Vec<u8>, u8),
>)
    requires
        program@.len() == 32,
    ensures
        match r {
            Some(found) => {
                &&& pda_search(tag@, author@, nonce_le@, program@) == Some((found.0@, found.1))
                &&& pda_with_bump(tag@, author@, nonce_le@, found.1, program@) == Some(found.0@)
                &&& found.0@.len() == 32
            },
            None => pda_search(tag@, author@, nonce_le@, program@) is None,
        },
{
    let program_id = anchor_lang::prelude::Pubkey::new_from_array(
        program.as_slice().try_into().unwrap(),
    );
    let seeds: &[&[u8]] = &[tag.as_slice(), author.as_slice(), nonce_le.as_slice()];
    anchor_lang::prelude::Pubkey::try_find_program_address(seeds, &program_id).map(
        |found: (anchor_lang::prelude::Pubkey, u8)| (found.0.to_bytes().to_vec(), found.1),
    )
}

/// Relies on `Pubkey::create_program_address` (solana-pubkey): deterministically
/// recomputes the 32-byte address for a seed list with an explicit bump; it
/// returns an error (mapped to `None` here) exactly when those seeds name no
/// valid address.
#[verifier::external_body]
fn create_pda(
    tag: &Vec<u8>,
    author: &Vec<u8>,
    nonce_le: &Vec<u8>,
    bump: u8,
    program: &Vec<u8>,
) -> (r: Option<Vec<u8>>)
    requires
        program@.len() == 32,
    ensures
        match r {
            Some(addr) => {
                &&& pda_with_bump(tag@, author@, nonce_le@, bump, program@) == Some(addr@)
                &&& addr@.len() == 32
            },
            None => pda_with_bump(tag@, author@, nonce_le@, bump, program@) is None,
        },
{
    let program_id = anchor_lang::prelude::Pubkey::new_from_array(
        program.as_slice().try_into().unwrap(),
    );
    let bump_seed = [bump];
    let seeds: &[&[u8]] = &[tag.as_slice(), author.as_slice(), nonce_le.as_slice(), &bump_seed];
    anchor_lang::prelude::Pubkey::create_program_address(seeds, &program_id).ok().map(
        |addr: anchor_lang::prelude::Pubkey| addr.to_bytes().to_vec(),
    )
}

/// The namespace tag that keeps memo addresses apart from anything else the
/// same program might store: the bytes of `"memo"`.
pub open spec fn memo_namespace_tag() -> Seq<u8> {
    seq![109u8, 101u8, 109u8, 111u8]
}

fn memo_tag_bytes() -> (r: Vec<u8>)
    ensures
        r@ == memo_namespace_tag(),
{
    let mut v: Vec<u8> = Vec::new();
    v.push(109);
    v.push(101);
    v.push(109);
    v.push(111);
    proof {
        assert(v@ =~= memo_namespace_tag());
    }
    v
}

/// The address and bump that the derivation search yields for a memo of this
/// author and nonce under this program id.
pub open spec fn derived_memo_address(author: Seq<u8>, nonce: u64, program: Seq<u8>) -> Option<
    (Seq<u8>, u8),
> {
    pda_search(memo_namespace_tag(), author, spec_u64_to_le_bytes(nonce), program)
}

/// The address that re-derivation with an explicit bump yields for a memo of
/// this author and nonce under this program id.
pub open spec fn rederived_memo_address(
    author: Seq<u8>,
    nonce: u64,
    bump: u8,
    program: Seq<u8>,
) -> Option<Seq<u8>> {
    pda_with_bump(memo_namespace_tag(), author, spec_u64_to_le_bytes(nonce), bump, program)
}

/// Searches for the storage address of a memo keyed by `(author, nonce)` under
/// the given program id, returning the address with its bump seed, or `None`
/// when the bump range is exhausted.
pub fn derive_memo_address(author: &Vec<u8>, nonce: u64, program: &Vec<u8>) -> (r: Option<
    (Vec<u8>, u8),
>)
    requires
        author@.len() == 32,
        program@.len() == 32,
    ensures
        match r {
            Some(found) => {
                &&& derived_memo_address(author@, nonce, program@) == Some((found.0@, found.1))
                &&& rederived_memo_address(author@, nonce, found.1, program@) == Some(found.0@)
                &&& found.0@.len() == 32
            },
            None => derived_memo_address(author@, nonce, program@) is None,
        },
{
    let tag = memo_tag_bytes();
    let nonce_le = u64_to_le_bytes(nonce);
    find_pda(&tag, author, &nonce_le, program)
}

/// Recomputes the storage address of a memo from `(author, nonce, bump)` under
/// the given program id, without searching: the way a lookup reconstructs an
/// address from a stored record's own fields.
pub fn rederive_memo_address(author: &Vec<u8>, nonce: u64, bump: u8, program: &Vec<u8>) -> (r:
    Option<Vec<u8>>)
    requires
        author@.len() == 32,
        program@.len() == 32,
    ensures
        match r {
            Some(addr) => {
                &&& rederived_memo_address(author@, nonce, bump, program@) == Some(addr@)
                &&& addr@.len() == 32
            },
            None => rederived_memo_address(author@, nonce, bump, program@) is None,
        },
{
    let tag = memo_tag_bytes();
    let nonce_le = u64_to_le_bytes(nonce);
    create_pda(&tag, author, &nonce_le, bump, program)
}

/// Deriving an address twice from the same `(author, nonce)` under the same
/// program id yields the same address and the same bump: the derivation is a
/// pure function of its inputs.
pub proof fn lemma_derivation_idempotent(
    first: Option<(Seq<u8>, u8)>,
    second: Option<(Seq<u8>, u8)>,
    author: Seq<u8>,
    nonce: u64,
    program: Seq<u8>,
)
    requires
        first == derived_memo_address(author, nonce, program),
        second == derived_memo_address(author, nonce, program),
    ensures
        first == second,
{
}

} // verus!
