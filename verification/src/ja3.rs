//! The fingerprint of the engine's own TLS handshakes: in which order it
//! offers cipher suites, key exchange groups and protocol versions.

use vstd::prelude::*;
use vstd::multiset::Multiset;

verus! {

/// Three lists as `SliceRandom::shuffle` leaves them when it shuffles them
/// one after the other with one `StdRng` that `seed_from_u64` started from
/// the seed. The generator and the shuffle draw on nothing but the seed.
pub uninterp spec fn shuffled(seed: u64, a: Seq<usize>, b: Seq<usize>, c: Seq<usize>) -> (
    Seq<usize>,
    Seq<usize>,
    Seq<usize>,
);

/// Shuffles three lists in place, one after the other, with
/// `SliceRandom::shuffle` and one generator that `StdRng::seed_from_u64`
/// starts from the seed. The shuffle only swaps: each list holds the same
/// items afterwards, in an order that the seed and the lists decide.
#[verifier::external_body]
fn shuffle_from(seed: u64, a: &mut Vec<usize>, b: &mut Vec<usize>, c: &mut Vec<usize>)
    ensures
        (final(a)@, final(b)@, final(c)@) == shuffled(seed, old(a)@, old(b)@, old(c)@),
        final(a)@.len() == old(a)@.len() && final(a)@.to_multiset() == old(a)@.to_multiset(),
        final(b)@.len() == old(b)@.len() && final(b)@.to_multiset() == old(b)@.to_multiset(),
        final(c)@.len() == old(c)@.len() && final(c)@.to_multiset() == old(c)@.to_multiset(),
{
    let mut rng: rand::rngs::StdRng = rand::SeedableRng::seed_from_u64(seed);
    rand::seq::SliceRandom::shuffle(a.as_mut_slice(), &mut rng);
    rand::seq::SliceRandom::shuffle(b.as_mut_slice(), &mut rng);
    rand::seq::SliceRandom::shuffle(c.as_mut_slice(), &mut rng);
}

/// The order in which the items of three lists are offered; an item is
/// named by its place in the list that the TLS library offers by default.
#[derive(Clone, Debug)]
pub struct Ja3Order {
    pub cipher_suites: Vec<usize>,
    pub kx_groups: Vec<usize>,
    pub versions: Vec<usize>,
}

/// How the engine shakes hands.
#[derive(Clone, Debug)]
pub enum Ja3 {
    /// As the TLS library does by default.
    Default,
    /// With the three lists in the given order.
    Shuffled(Ja3Order),
}

/// The places `0` to `n - 1` in order.
pub open spec fn places(n: nat) -> Seq<usize> {
    Seq::new(n, |i: int| i as usize)
}

/// Whether a list holds each of the places `0` to `n - 1` once.
pub open spec fn is_order_of(list: Seq<usize>, n: nat) -> bool {
    list.len() == n && list.to_multiset() == places(n).to_multiset()
}

fn counting(n: usize) -> (r: Vec<usize>)
    ensures
        r@ == places(n as nat),
{
    let mut r: Vec<usize> = Vec::new();
    let mut i: usize = 0;
    while i < n
        invariant
            i <= n,
            r@ == places(i as nat),
        decreases n - i,
    {
        r.push(i);
        assert(r@ =~= places((i + 1) as nat));
        i += 1;
    }
    r
}

/// The protocols that the engine offers upstream, in order: `h2` and
/// `http/1.1`.
pub fn upstream_protocols() -> (r: Vec<Vec<u8>>)
    ensures
        r@.len() == 2,
        r@[0]@ == seq![0x68u8, 0x32u8],
        r@[1]@ == seq![0x68u8, 0x74u8, 0x74u8, 0x70u8, 0x2fu8, 0x31u8, 0x2eu8, 0x31u8],
{
    crate::net_proxy::offered_protocols()
}

/// The three orders that belong to a seed and to the lengths of the three
/// lists: the places of each list, shuffled from the seed.
pub open spec fn orders_of(seed: u64, cipher_suites: nat, kx_groups: nat, versions: nat) -> (
    Seq<usize>,
    Seq<usize>,
    Seq<usize>,
) {
    shuffled(seed, places(cipher_suites), places(kx_groups), places(versions))
}

/// The handshake that belongs to a seed. The seed `0` stands for the default
/// handshake. For any other seed the three lists, which have the given
/// numbers of items, are shuffled one after the other by a generator that
/// starts from the seed: the same seed gives the same orders.
pub fn random_ja3(seed: u64, cipher_suites: usize, kx_groups: usize, versions: usize) -> (r: Ja3)
    ensures
        seed == 0 ==> r is Default,
        seed != 0 ==> r is Shuffled && is_order_of(
            r->Shuffled_0.cipher_suites@,
            cipher_suites as nat,
        ) && is_order_of(r->Shuffled_0.kx_groups@, kx_groups as nat) && is_order_of(
            r->Shuffled_0.versions@,
            versions as nat,
        ),
        seed != 0 ==> (
            r->Shuffled_0.cipher_suites@,
            r->Shuffled_0.kx_groups@,
            r->Shuffled_0.versions@,
        ) == orders_of(seed, cipher_suites as nat, kx_groups as nat, versions as nat),
{
    if seed == 0 {
        return Ja3::Default;
    }
    let mut a = counting(cipher_suites);
    let mut b = counting(kx_groups);
    let mut c = counting(versions);
    shuffle_from(seed, &mut a, &mut b, &mut c);
    Ja3::Shuffled(Ja3Order { cipher_suites: a, kx_groups: b, versions: c })
}

/// The same seed gives the same handshake: two handshakes that were made
/// from one seed for lists of the same lengths offer everything in the same
/// order.
pub proof fn lemma_same_seed_same_orders(
    seed: u64,
    cipher_suites: nat,
    kx_groups: nat,
    versions: nat,
    first: Ja3Order,
    second: Ja3Order,
)
    requires
        (first.cipher_suites@, first.kx_groups@, first.versions@) == orders_of(
            seed,
            cipher_suites,
            kx_groups,
            versions,
        ),
        (second.cipher_suites@, second.kx_groups@, second.versions@) == orders_of(
            seed,
            cipher_suites,
            kx_groups,
            versions,
        ),
    ensures
        first.cipher_suites@ == second.cipher_suites@,
        first.kx_groups@ == second.kx_groups@,
        first.versions@ == second.versions@,
{
}

} // verus!
