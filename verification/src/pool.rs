//! The pool of outbound identities. Every request leaves from a source
//! address drawn at random from the pool, so that no single address carries
//! enough traffic to be throttled.

use vstd::prelude::*;
use rand::seq::SliceRandom;

verus! {

/// How each client of the pool is to be set up.
#[derive(Clone, Copy, Debug, PartialEq, Eq, Structural)]
pub struct ClientSettings {
    /// Seconds allowed for connecting and for the whole response.
    pub timeout_secs: u64,
    /// Seconds between TCP keep-alive probes.
    pub tcp_keepalive_secs: u64,
    /// Seconds after which an idle pooled connection is closed.
    pub pool_idle_timeout_secs: u64,
    /// Idle connections kept per remote host.
    pub pool_max_idle_per_host: usize,
}

/// The source addresses of the pool, each a 128-bit IPv6 address.
pub struct IdentityPool {
    addresses: Vec<u128>,
    settings: ClientSettings,
}

/// The settings of every pool: ten seconds for a request, keep-alive and
/// idle time of sixty seconds, and at most fifty idle connections per host.
pub open spec fn standard_settings() -> ClientSettings {
    ClientSettings {
        timeout_secs: 10,
        tcp_keepalive_secs: 60,
        pool_idle_timeout_secs: 60,
        pool_max_idle_per_host: 50,
    }
}

/// `<[T] as rand::seq::SliceRandom>::choose` with the thread's generator:
/// nothing for an empty slice, otherwise one of the slice's elements. Which
/// one is up to the generator, so nothing more is said of it.
#[verifier::external_body]
fn choose_address(addresses: &Vec<u128>) -> (r: Option<u128>)
    ensures
        r is None <==> addresses@.len() == 0,
        r matches Some(a) ==> addresses@.contains(a),
{
    addresses.choose(&mut rand::thread_rng()).copied()
}

impl IdentityPool {
    /// The source addresses, in the order in which they were supplied.
    pub closed spec fn view(&self) -> Seq<u128> {
        self.addresses@
    }

    /// The settings that the clients of the pool are built with.
    pub closed spec fn client_settings(&self) -> ClientSettings {
        self.settings
    }

    pub fn new(addresses: Vec<u128>) -> (pool: IdentityPool)
        ensures
            pool@ == addresses@,
            pool.client_settings() == standard_settings(),
    {
        IdentityPool {
            addresses,
            settings: ClientSettings {
                timeout_secs: 10,
                tcp_keepalive_secs: 60,
                pool_idle_timeout_secs: 60,
                pool_max_idle_per_host: 50,
            },
        }
    }

    /// The settings every client of the pool is to be built with.
    pub fn settings(&self) -> (s: ClientSettings)
        ensures
            s == self.client_settings(),
    {
        self.settings
    }

    pub fn size(&self) -> (n: usize)
        ensures
            n == self@.len(),
    {
        self.addresses.len()
    }

    pub fn addresses(&self) -> (a: &Vec<u128>)
        ensures
            a@ == self@,
    {
        &self.addresses
    }

    /// Picks the source address for one request. Each call draws anew: two
    /// requests for the same target may leave from different addresses.
    pub fn acquire(&self) -> (address: u128)
        requires
            self@.len() > 0,
        ensures
            self@.contains(address),
    {
        match choose_address(&self.addresses) {
            Some(address) => address,
            None => {
                proof {
                    assert(false);
                }
                0
            },
        }
    }
}

/// First address of the subnet that requests leave from by default:
/// `2a0e:97c0:3e:ada::`.
pub const SUBNET_PREFIX: u128 = 0x2a0e_97c0_003e_0ada_0000_0000_0000_0000;

/// How many addresses of that subnet are used.
pub const SUBNET_SIZE: u32 = 100;

/// The addresses `prefix`, `prefix + 1`, ... up to `count` of them: the
/// hosts of a subnet, in ascending order.
pub open spec fn subnet(prefix: u128, count: nat) -> Seq<u128> {
    Seq::new(count, |i: int| (prefix + i) as u128)
}

/// Lists the first `count` addresses of the subnet that starts at `prefix`.
pub fn subnet_addresses(prefix: u128, count: u32) -> (addresses: Vec<u128>)
    requires
        prefix + count <= u128::MAX,
    ensures
        addresses@ == subnet(prefix, count as nat),
        addresses@.no_duplicates(),
{
    let mut addresses: Vec<u128> = Vec::new();
    let mut i: u32 = 0;
    while i < count
        invariant
            i <= count,
            prefix + count <= u128::MAX,
            addresses@ == subnet(prefix, i as nat),
        decreases count - i,
    {
        addresses.push(prefix + i as u128);
        i = i + 1;
    }
    addresses
}

/// The source addresses used by default: the first hundred of the subnet.
pub fn default_addresses() -> (addresses: Vec<u128>)
    ensures
        addresses@ == subnet(SUBNET_PREFIX, SUBNET_SIZE as nat),
        addresses@.len() == 100,
        addresses@.no_duplicates(),
{
    subnet_addresses(SUBNET_PREFIX, SUBNET_SIZE)
}

} // verus!
