//! The bulk store writer, modelled as an in-memory relational store:
//! batched idempotent upserts that return surrogate keys in input
//! order, and the foreign-key linking step that resolves each
//! provider's address reference.

use vstd::prelude::*;

use crate::dedup::{find_identity, lemma_find_props, lemma_find_skip};
use crate::model::{
    address_identity, addresses_same_identity, clone_opt_string, Address, Provider,
};
use crate::text::str_eq;

verus! {

/// Batch size used when chunking bulk upserts; 1000 rows keeps
/// `rows * columns` well under the store's 65535-parameter ceiling for
/// both the address table and the provider table.
pub const BATCH_SIZE: usize = 1000;

/// The sizes of the chunks a run of `n` rows is split into: full
/// batches of `batch` rows, then one final short batch for the rest.
pub open spec fn spec_batch_sizes(n: nat, batch: nat) -> Seq<nat>
    decreases n,
{
    if batch == 0 {
        Seq::empty()
    } else if n == 0 {
        Seq::empty()
    } else if n < batch {
        seq![n]
    } else {
        seq![batch] + spec_batch_sizes((n - batch) as nat, batch)
    }
}

/// Splits a row count into chunk sizes, each at most `batch`, in order.
pub fn batch_sizes(n: usize, batch: usize) -> (sizes: Vec<usize>)
    requires
        batch > 0,
    ensures
        sizes@.map_values(|s: usize| s as nat) == spec_batch_sizes(n as nat, batch as nat),
{
    let mut sizes: Vec<usize> = Vec::new();
    let mut left: usize = n;
    while left > 0
        invariant
            batch > 0,
            sizes@.map_values(|s: usize| s as nat) + spec_batch_sizes(left as nat, batch as nat)
                =~= spec_batch_sizes(n as nat, batch as nat),
        decreases left,
    {
        let ghost pre = sizes@;
        if left < batch {
            sizes.push(left);
            left = 0;
        } else {
            sizes.push(batch);
            left = left - batch;
        }
        proof {
            assert(sizes@.map_values(|s: usize| s as nat) =~= pre.map_values(|s: usize| s as nat)
                + sizes@.map_values(|s: usize| s as nat).subrange(
                pre.len() as int,
                sizes@.len() as int,
            ));
        }
    }
    proof {
        assert(sizes@.map_values(|s: usize| s as nat) + spec_batch_sizes(0, batch as nat)
            =~= sizes@.map_values(|s: usize| s as nat));
    }
    sizes
}

/// An in-memory store with the same observable upsert behaviour as the
/// relational schema: an address table with a surrogate key and a
/// uniqueness constraint on the coerced identity 4-tuple, and a
/// provider table keyed by certification number.
#[derive(Debug)]
pub struct MemoryStore {
    pub addresses: Vec<Address>,
    pub providers: Vec<Provider>,
}

/// Address-table well-formedness: no identity stored twice, and each
/// row's surrogate key is its position plus one.
pub open spec fn addr_rows_wf(addrs: Seq<Address>) -> bool {
    &&& addrs.len() < 0x7fff_ffff
    &&& forall|j1: int, j2: int| 0 <= j1 < j2 < addrs.len() ==> address_identity(
        #[trigger] addrs[j1],
    ) != address_identity(#[trigger] addrs[j2])
    &&& forall|j: int| 0 <= j < addrs.len() ==> (#[trigger] addrs[j]).id == Some((j + 1) as i32)
}

/// Provider-table well-formedness: certification numbers are unique.
pub open spec fn prov_rows_wf(provs: Seq<Provider>) -> bool {
    forall|j1: int, j2: int| 0 <= j1 < j2 < provs.len() ==> (#[trigger] provs[j1])
        .cms_certification_number@ != (#[trigger] provs[j2]).cms_certification_number@
}

pub open spec fn store_wf(s: MemoryStore) -> bool {
    addr_rows_wf(s.addresses@) && prov_rows_wf(s.providers@)
}

impl MemoryStore {
    /// An empty store.
    pub fn new() -> (s: MemoryStore)
        ensures
            s.addresses@ == Seq::<Address>::empty(),
            s.providers@ == Seq::<Provider>::empty(),
            store_wf(s),
    {
        MemoryStore { addresses: Vec::new(), providers: Vec::new() }
    }
}

/// What an address-row conflict leaves on file: the stored row with
/// only its street text overwritten (the write the upsert performs so
/// the surrogate key of the existing row is returned).
pub open spec fn upserted_address(stored: Address, incoming: Address) -> Address {
    Address { street_address: incoming.street_address, ..stored }
}

/// One row of an address upsert: a conflict on the coerced identity
/// rewrites the stored row and returns its existing key; otherwise the
/// row is appended and assigned the next key.
pub open spec fn upsert_address_once(addrs: Seq<Address>, a: Address) -> (Seq<Address>, int) {
    let idx = find_identity(addrs, address_identity(a));
    if idx >= 0 {
        (addrs.update(idx, upserted_address(addrs[idx], a)), idx + 1)
    } else {
        (addrs.push(Address { id: Some((addrs.len() + 1) as i32), ..a }), addrs.len() as int + 1)
    }
}

/// A whole address batch, upserted row by row in input order; the
/// returned key sequence is parallel to the batch.
pub open spec fn upsert_addresses_spec(addrs: Seq<Address>, batch: Seq<Address>) -> (
    Seq<Address>,
    Seq<int>,
)
    decreases batch.len(),
{
    if batch.len() == 0 {
        (addrs, Seq::empty())
    } else {
        let prev = upsert_addresses_spec(addrs, batch.drop_last());
        let step = upsert_address_once(prev.0, batch.last());
        (step.0, prev.1.push(step.1))
    }
}

fn find_address(addresses: &Vec<Address>, a: &Address) -> (res: Option<usize>)
    ensures
        match res {
            Some(j) => j < addresses@.len() && find_identity(addresses@, address_identity(*a))
                == j as int,
            None => find_identity(addresses@, address_identity(*a)) < 0,
        },
{
    let ghost k = address_identity(*a);
    let n = addresses.len();
    let mut i: usize = 0;
    while i < n
        invariant
            n == addresses@.len(),
            i <= n,
            k == address_identity(*a),
            forall|j: int| 0 <= j < i ==> address_identity(#[trigger] addresses@[j]) != k,
        decreases n - i,
    {
        if addresses_same_identity(&addresses[i], a) {
            proof {
                lemma_find_skip(addresses@, k, i as int);
                assert(addresses@.skip(i as int)[0] == addresses@[i as int]);
            }
            return Some(i);
        }
        proof {
            assert(addresses@.skip(i as int)[0] == addresses@[i as int]);
        }
        i = i + 1;
    }
    proof {
        lemma_find_skip(addresses@, k, i as int);
        assert(addresses@.skip(i as int) =~= Seq::empty());
    }
    None
}

fn address_with_id(a: &Address, id: i32) -> (r: Address)
    ensures
        r == (Address { id: Some(id), ..*a }),
{
    Address {
        id: Some(id),
        street_address: clone_opt_string(&a.street_address),
        city: clone_opt_string(&a.city),
        state_code: clone_opt_string(&a.state_code),
        zip_code: clone_opt_string(&a.zip_code),
        ssa_county_code: clone_opt_string(&a.ssa_county_code),
        ssa_state_code: clone_opt_string(&a.ssa_state_code),
        state_region_code: clone_opt_string(&a.state_region_code),
        region_code: clone_opt_string(&a.region_code),
        fips_state_code: clone_opt_string(&a.fips_state_code),
        fips_county_code: clone_opt_string(&a.fips_county_code),
        cbsa_code: clone_opt_string(&a.cbsa_code),
        cbsa_urban_rural_indicator: clone_opt_string(&a.cbsa_urban_rural_indicator),
    }
}

/// Idempotent batched address upsert. Every input row gets a key back,
/// existing rows included, in input order; the batch is applied in
/// chunks of at most `BATCH_SIZE` rows.
pub fn bulk_insert_addresses(store: &mut MemoryStore, addresses: &Vec<Address>) -> (ids: Vec<i32>)
    requires
        old(store).addresses@.len() + addresses@.len() < 0x7fff_ffff,
    ensures
        final(store).addresses@ == upsert_addresses_spec(
            old(store).addresses@,
            addresses@,
        ).0,
        ids@.map_values(|x: i32| x as int) == upsert_addresses_spec(
            old(store).addresses@,
            addresses@,
        ).1,
        final(store).providers == old(store).providers,
        ids@.len() == addresses@.len(),
{
    let ghost orig = store.addresses@;
    let mut ids: Vec<i32> = Vec::new();
    let n = addresses.len();
    let mut i: usize = 0;
    proof {
        assert(addresses@.take(0) =~= Seq::empty());
        assert(ids@.map_values(|x: i32| x as int) =~= Seq::<int>::empty());
    }
    while i < n
        invariant
            n == addresses@.len(),
            i <= n,
            orig.len() + n < 0x7fff_ffff,
            store.addresses@ == upsert_addresses_spec(orig, addresses@.take(i as int)).0,
            ids@.map_values(|x: i32| x as int) == upsert_addresses_spec(
                orig,
                addresses@.take(i as int),
            ).1,
            ids@.len() == i,
            store.addresses@.len() <= orig.len() + i,
            store.providers == old(store).providers,
        decreases n - i,
    {
        let end = if n - i < BATCH_SIZE {
            n
        } else {
            i + BATCH_SIZE
        };
        while i < end
            invariant
                n == addresses@.len(),
                i <= end <= n,
                orig.len() + n < 0x7fff_ffff,
                store.addresses@ == upsert_addresses_spec(orig, addresses@.take(i as int)).0,
                ids@.map_values(|x: i32| x as int) == upsert_addresses_spec(
                    orig,
                    addresses@.take(i as int),
                ).1,
                ids@.len() == i,
                store.addresses@.len() <= orig.len() + i,
                store.providers == old(store).providers,
            decreases end - i,
        {
            let ghost pre = store.addresses@;
            proof {
                assert(addresses@.take(i + 1).drop_last() =~= addresses@.take(i as int));
                assert(addresses@.take(i + 1).last() == addresses@[i as int]);
            }
            let a = &addresses[i];
            match find_address(&store.addresses, a) {
                Some(j) => {
                    let mut row = store.addresses.remove(j);
                    row.street_address = clone_opt_string(&a.street_address);
                    store.addresses.insert(j, row);
                    proof {
                        assert(store.addresses@ =~= pre.update(
                            j as int,
                            upserted_address(pre[j as int], addresses@[i as int]),
                        ));
                    }
                    ids.push((j as i32) + 1);
                },
                None => {
                    let id = (store.addresses.len() as i32) + 1;
                    store.addresses.push(address_with_id(a, id));
                    proof {
                        assert(store.addresses@ =~= pre.push(
                            Address { id: Some((pre.len() + 1) as i32), ..addresses@[i as int] },
                        ));
                    }
                    ids.push(id);
                },
            }
            i = i + 1;
            proof {
                assert(ids@.map_values(|x: i32| x as int) =~= upsert_addresses_spec(
                    orig,
                    addresses@.take(i as int),
                ).1);
            }
        }
    }
    proof {
        assert(addresses@.take(n as int) =~= addresses@);
    }
    ids
}

/// Index of the first provider stored under `key`, or -1 when none is.
pub open spec fn find_provider_key(provs: Seq<Provider>, key: Seq<char>) -> int
    decreases provs.len(),
{
    if provs.len() == 0 {
        -1
    } else if provs[0].cms_certification_number@ == key {
        0
    } else {
        let r = find_provider_key(provs.drop_first(), key);
        if r < 0 {
            -1
        } else {
            r + 1
        }
    }
}

proof fn lemma_find_provider_skip(provs: Seq<Provider>, key: Seq<char>, i: int)
    requires
        0 <= i <= provs.len(),
        forall|j: int| 0 <= j < i ==> (#[trigger] provs[j]).cms_certification_number@ != key,
    ensures
        find_provider_key(provs, key) == if find_provider_key(provs.skip(i), key) < 0 {
            -1
        } else {
            i + find_provider_key(provs.skip(i), key)
        },
    decreases i,
{
    if i > 0 {
        lemma_find_provider_skip(provs.drop_first(), key, i - 1);
        assert(provs.drop_first().skip(i - 1) =~= provs.skip(i));
        assert(provs[0].cms_certification_number@ != key);
    } else {
        assert(provs.skip(0) =~= provs);
    }
}

fn find_provider(providers: &Vec<Provider>, key: &str) -> (res: Option<usize>)
    ensures
        match res {
            Some(j) => j < providers@.len() && find_provider_key(providers@, key@) == j as int,
            None => find_provider_key(providers@, key@) < 0,
        },
{
    let n = providers.len();
    let mut i: usize = 0;
    while i < n
        invariant
            n == providers@.len(),
            i <= n,
            forall|j: int| 0 <= j < i ==> (#[trigger] providers@[j]).cms_certification_number@
                != key@,
        decreases n - i,
    {
        if str_eq(providers[i].cms_certification_number.as_str(), key) {
            proof {
                lemma_find_provider_skip(providers@, key@, i as int);
                assert(providers@.skip(i as int)[0] == providers@[i as int]);
            }
            return Some(i);
        }
        proof {
            assert(providers@.skip(i as int)[0] == providers@[i as int]);
        }
        i = i + 1;
    }
    proof {
        lemma_find_provider_skip(providers@, key@, i as int);
        assert(providers@.skip(i as int) =~= Seq::empty());
    }
    None
}

/// One row of a provider upsert: a conflict on the certification
/// number overwrites the whole stored row, else the row is appended.
pub open spec fn upsert_provider_once(provs: Seq<Provider>, p: Provider) -> Seq<Provider> {
    let idx = find_provider_key(provs, p.cms_certification_number@);
    if idx >= 0 {
        provs.update(idx, p)
    } else {
        provs.push(p)
    }
}

/// A whole provider batch, upserted row by row in input order.
pub open spec fn upsert_providers_spec(provs: Seq<Provider>, batch: Seq<Provider>) -> Seq<Provider>
    decreases batch.len(),
{
    if batch.len() == 0 {
        provs
    } else {
        upsert_provider_once(
            upsert_providers_spec(provs, batch.drop_last()),
            batch.last(),
        )
    }
}

/// Idempotent batched provider upsert: on a certification-number
/// conflict the stored row is overwritten in place, otherwise the row
/// is appended; applied in chunks of at most `BATCH_SIZE` rows.
pub fn bulk_insert_providers(store: &mut MemoryStore, providers: Vec<Provider>)
    ensures
        final(store).providers@ == upsert_providers_spec(old(store).providers@, providers@),
        final(store).addresses == old(store).addresses,
{
    let ghost orig = store.providers@;
    let ghost batch = providers@;
    let mut providers = providers;
    let total = providers.len();
    let mut i: usize = 0;
    proof {
        assert(batch.take(0) =~= Seq::empty());
    }
    while providers.len() > 0
        invariant
            i + providers@.len() == total,
            batch.len() == total,
            providers@ =~= batch.skip(i as int),
            store.providers@ == upsert_providers_spec(orig, batch.take(i as int)),
            store.addresses == old(store).addresses,
        decreases providers@.len(),
    {
        let ghost pre = store.providers@;
        proof {
            assert(batch.take(i + 1).drop_last() =~= batch.take(i as int));
            assert(batch.take(i + 1).last() == batch[i as int]);
            assert(providers@[0] == batch[i as int]);
        }
        let p = providers.remove(0);
        match find_provider(&store.providers, p.cms_certification_number.as_str()) {
            Some(j) => {
                let _old_row = store.providers.remove(j);
                store.providers.insert(j, p);
                proof {
                    assert(store.providers@ =~= pre.update(j as int, batch[i as int]));
                }
            },
            None => {
                store.providers.push(p);
            },
        }
        proof {
            assert(providers@ =~= batch.skip(i + 1));
        }
        i = i + 1;
    }
    proof {
        assert(batch.take(total as int) =~= batch);
    }
}

/// The provider sequence after foreign-key linking: each provider whose
/// link index falls inside the key sequence gets that surrogate key as
/// its address reference; the rest are left unchanged.
pub open spec fn spec_link(provs: Seq<Provider>, link: Seq<int>, ids: Seq<i32>) -> Seq<Provider> {
    Seq::new(
        provs.len(),
        |i: int|
            if 0 <= link[i] < ids.len() {
                Provider { address_id: Some(ids[link[i]]), ..provs[i] }
            } else {
                provs[i]
            },
    )
}

/// Resolves each provider's address reference from the surrogate keys
/// the address upsert returned, through the dedup pipeline's link
/// indices.
pub fn link_providers(providers: &mut Vec<Provider>, link: &Vec<usize>, ids: &Vec<i32>)
    requires
        old(providers)@.len() == link@.len(),
    ensures
        final(providers)@ == spec_link(
            old(providers)@,
            link@.map_values(|u: usize| u as int),
            ids@,
        ),
{
    let ghost target = spec_link(old(providers)@, link@.map_values(|u: usize| u as int), ids@);
    let n = providers.len();
    let mut i: usize = 0;
    while i < n
        invariant
            n == old(providers)@.len(),
            n == link@.len(),
            i <= n,
            providers@.len() == n,
            target == spec_link(old(providers)@, link@.map_values(|u: usize| u as int), ids@),
            forall|j: int| 0 <= j < i ==> providers@[j] == target[j],
            forall|j: int| i <= j < n ==> providers@[j] == old(providers)@[j],
        decreases n - i,
    {
        let ghost pre = providers@;
        if link[i] < ids.len() {
            let mut p = providers.remove(i);
            p.address_id = Some(ids[link[i]]);
            providers.insert(i, p);
            proof {
                assert(providers@ =~= pre.update(
                    i as int,
                    Provider { address_id: Some(ids@[link@[i as int] as int]), ..pre[i as int] },
                ));
            }
        }
        i = i + 1;
    }
    proof {
        assert(providers@ =~= target);
    }
}


proof fn lemma_upsert_address_once_wf(addrs: Seq<Address>, a: Address)
    requires
        addr_rows_wf(addrs),
        addrs.len() + 1 < 0x7fff_ffff,
    ensures
        addr_rows_wf(upsert_address_once(addrs, a).0),
        addrs.len() <= upsert_address_once(addrs, a).0.len() <= addrs.len() + 1,
        1 <= upsert_address_once(addrs, a).1 <= upsert_address_once(addrs, a).0.len(),
        address_identity(upsert_address_once(addrs, a).0[upsert_address_once(addrs, a).1 - 1])
            == address_identity(a),
        forall|j: int| 0 <= j < addrs.len() ==> address_identity(
            #[trigger] upsert_address_once(addrs, a).0[j],
        ) == address_identity(addrs[j]),
        forall|j: int| 0 <= j < addrs.len() ==> (#[trigger] upsert_address_once(addrs, a).0[j]).id
            == addrs[j].id,
{
    let k = address_identity(a);
    let idx = find_identity(addrs, k);
    lemma_find_props(addrs, k);
    if idx >= 0 {
        let u = upserted_address(addrs[idx], a);
        assert(address_identity(u) == k);
    }
}

/// Facts of every address upsert against a well-formed table: the
/// table stays well formed, every input row gets a key, each key names
/// a stored row carrying that input row's identity, and the identities
/// and keys of previously stored rows never change.
pub proof fn lemma_upsert_addresses_wf(addrs: Seq<Address>, batch: Seq<Address>)
    requires
        addr_rows_wf(addrs),
        addrs.len() + batch.len() < 0x7fff_ffff,
    ensures
        addr_rows_wf(upsert_addresses_spec(addrs, batch).0),
        addrs.len() <= upsert_addresses_spec(addrs, batch).0.len() <= addrs.len() + batch.len(),
        upsert_addresses_spec(addrs, batch).1.len() == batch.len(),
        forall|b: int| 0 <= b < batch.len() ==> 1 <= #[trigger] upsert_addresses_spec(
            addrs,
            batch,
        ).1[b] <= upsert_addresses_spec(addrs, batch).0.len(),
        forall|b: int| 0 <= b < batch.len() ==> address_identity(
            upsert_addresses_spec(addrs, batch).0[#[trigger] upsert_addresses_spec(
                addrs,
                batch,
            ).1[b] - 1],
        ) == address_identity(batch[b]),
        forall|j: int| 0 <= j < addrs.len() ==> address_identity(
            #[trigger] upsert_addresses_spec(addrs, batch).0[j],
        ) == address_identity(addrs[j]),
    decreases batch.len(),
{
    if batch.len() > 0 {
        lemma_upsert_addresses_wf(addrs, batch.drop_last());
        let prev = upsert_addresses_spec(addrs, batch.drop_last());
        lemma_upsert_address_once_wf(prev.0, batch.last());
        let m = upsert_addresses_spec(addrs, batch);
        assert(m.0 == upsert_address_once(prev.0, batch.last()).0);
        assert forall|b: int| 0 <= b < batch.len() implies address_identity(
            m.0[#[trigger] m.1[b] - 1],
        ) == address_identity(batch[b]) by {
            if b < batch.len() - 1 {
                assert(m.1[b] == prev.1[b]);
                assert(batch.drop_last()[b] == batch[b]);
                assert(address_identity(prev.0[prev.1[b] - 1]) == address_identity(
                    batch.drop_last()[b],
                ));
                assert(prev.1[b] - 1 < prev.0.len());
                assert(address_identity(m.0[prev.1[b] - 1]) == address_identity(
                    prev.0[prev.1[b] - 1],
                ));
            } else {
                assert(m.1[b] == upsert_address_once(prev.0, batch.last()).1);
            }
        }
    }
}

/// Idempotent store upsert: putting the same address in twice leaves
/// the table as after the first time and returns the same surrogate
/// key both times.
pub proof fn lemma_upsert_idempotent(addrs: Seq<Address>, a: Address)
    ensures
        ({
            let first = upsert_address_once(addrs, a);
            let second = upsert_address_once(first.0, a);
            second.1 == first.1 && second.0 == first.0
        }),
{
    let k = address_identity(a);
    let idx = find_identity(addrs, k);
    lemma_find_props(addrs, k);
    let first = upsert_address_once(addrs, a);
    if idx >= 0 {
        let u = upserted_address(addrs[idx], a);
        assert(address_identity(u) == k);
        assert(forall|j: int| 0 <= j < idx ==> address_identity(#[trigger] first.0[j])
            == address_identity(addrs[j]));
        lemma_find_skip(first.0, k, idx);
        assert(first.0.skip(idx)[0] == first.0[idx]);
        assert(find_identity(first.0, k) == idx);
        assert(upserted_address(u, a) == u);
        assert(upsert_address_once(first.0, a).0 =~= first.0);
    } else {
        let added = Address { id: Some((addrs.len() + 1) as i32), ..a };
        assert(address_identity(added) == k);
        assert(forall|j: int| 0 <= j < addrs.len() ==> #[trigger] first.0[j] == addrs[j]);
        lemma_find_skip(first.0, k, addrs.len() as int);
        assert(first.0.skip(addrs.len() as int)[0] == first.0[addrs.len() as int]);
        assert(find_identity(first.0, k) == addrs.len());
        assert(upserted_address(added, a) == added);
        assert(upsert_address_once(first.0, a).0 =~= first.0);
    }
}

proof fn lemma_find_provider_props(provs: Seq<Provider>, key: Seq<char>)
    ensures
        find_provider_key(provs, key) < 0 ==> forall|j: int|
            0 <= j < provs.len() ==> (#[trigger] provs[j]).cms_certification_number@ != key,
        find_provider_key(provs, key) >= 0 ==> find_provider_key(provs, key) < provs.len()
            && provs[find_provider_key(provs, key)].cms_certification_number@ == key,
    decreases provs.len(),
{
    if provs.len() > 0 {
        if provs[0].cms_certification_number@ != key {
            lemma_find_provider_props(provs.drop_first(), key);
            assert(forall|j: int|
                1 <= j < provs.len() ==> #[trigger] provs[j] == provs.drop_first()[j - 1]);
        }
    }
}

proof fn lemma_upsert_provider_once_wf(provs: Seq<Provider>, p: Provider)
    requires
        prov_rows_wf(provs),
    ensures
        prov_rows_wf(upsert_provider_once(provs, p)),
        provs.len() <= upsert_provider_once(provs, p).len() <= provs.len() + 1,
{
    let key = p.cms_certification_number@;
    let idx = find_provider_key(provs, key);
    lemma_find_provider_props(provs, key);
    let t = upsert_provider_once(provs, p);
    if idx >= 0 {
        assert forall|j1: int, j2: int| 0 <= j1 < j2 < t.len() implies (#[trigger] t[j1])
            .cms_certification_number@ != (#[trigger] t[j2]).cms_certification_number@ by {
            assert(t[j1].cms_certification_number@ == provs[j1].cms_certification_number@);
            assert(t[j2].cms_certification_number@ == provs[j2].cms_certification_number@);
        }
    } else {
        assert forall|j1: int, j2: int| 0 <= j1 < j2 < t.len() implies (#[trigger] t[j1])
            .cms_certification_number@ != (#[trigger] t[j2]).cms_certification_number@ by {
            assert(t[j1] == provs[j1]);
            if j2 < provs.len() {
                assert(t[j2] == provs[j2]);
            } else {
                assert(t[j2] == p);
            }
        }
    }
}

/// A provider upsert against a well-formed table keeps it well formed:
/// certification numbers stay unique however the batch overlaps what
/// is stored.
pub proof fn lemma_upsert_providers_wf(provs: Seq<Provider>, batch: Seq<Provider>)
    requires
        prov_rows_wf(provs),
    ensures
        prov_rows_wf(upsert_providers_spec(provs, batch)),
        provs.len() <= upsert_providers_spec(provs, batch).len() <= provs.len() + batch.len(),
    decreases batch.len(),
{
    if batch.len() > 0 {
        lemma_upsert_providers_wf(provs, batch.drop_last());
        lemma_upsert_provider_once_wf(
            upsert_providers_spec(provs, batch.drop_last()),
            batch.last(),
        );
    }
}

/// No two rows of the batch carry the same coerced identity — what
/// the dedup pipeline guarantees of its unique-address output.
pub open spec fn distinct_identities(batch: Seq<Address>) -> bool {
    forall|b1: int, b2: int| 0 <= b1 < b2 < batch.len() ==> address_identity(
        #[trigger] batch[b1],
    ) != address_identity(#[trigger] batch[b2])
}

proof fn lemma_find_unique(addrs: Seq<Address>, j: int)
    requires
        forall|j1: int, j2: int| 0 <= j1 < j2 < addrs.len() ==> address_identity(
            #[trigger] addrs[j1],
        ) != address_identity(#[trigger] addrs[j2]),
        0 <= j < addrs.len(),
    ensures
        find_identity(addrs, address_identity(addrs[j])) == j,
{
    let k = address_identity(addrs[j]);
    lemma_find_props(addrs, k);
    let f = find_identity(addrs, k);
    if f < 0 {
        assert(address_identity(addrs[j]) != k);
    }
    if f != j {
        if f < j {
            assert(address_identity(addrs[f]) != address_identity(addrs[j]));
        } else {
            assert(address_identity(addrs[j]) != address_identity(addrs[f]));
        }
    }
}

proof fn lemma_upsert_noop(t: Seq<Address>, batch: Seq<Address>)
    requires
        forall|j1: int, j2: int| 0 <= j1 < j2 < t.len() ==> address_identity(#[trigger] t[j1])
            != address_identity(#[trigger] t[j2]),
        forall|b: int| 0 <= b < batch.len() ==> exists|j: int|
            0 <= j < t.len() && address_identity(#[trigger] t[j]) == address_identity(
                #[trigger] batch[b],
            ) && t[j].street_address == batch[b].street_address,
    ensures
        upsert_addresses_spec(t, batch).0 == t,
        upsert_addresses_spec(t, batch).1.len() == batch.len(),
        forall|b: int| 0 <= b < batch.len() ==> #[trigger] upsert_addresses_spec(t, batch).1[b]
            == find_identity(t, address_identity(batch[b])) + 1,
    decreases batch.len(),
{
    if batch.len() > 0 {
        assert(forall|b: int| 0 <= b < batch.len() - 1 ==> #[trigger] batch.drop_last()[b]
            == batch[b]);
        lemma_upsert_noop(t, batch.drop_last());
        let a = batch.last();
        let k = address_identity(a);
        assert(exists|j: int|
            0 <= j < t.len() && address_identity(#[trigger] t[j]) == address_identity(
                batch[batch.len() - 1],
            ) && t[j].street_address == batch[batch.len() - 1].street_address);
        let j = choose|j: int|
            0 <= j < t.len() && address_identity(#[trigger] t[j]) == k && t[j].street_address
                == a.street_address;
        lemma_find_unique(t, j);
        assert(find_identity(t, k) == j);
        assert(upserted_address(t[j], a) == t[j]);
        assert(upsert_address_once(t, a).0 =~= t);
        assert(upsert_address_once(t, a).1 == j + 1);
    }
}

proof fn lemma_upsert_streets(s0: Seq<Address>, batch: Seq<Address>)
    requires
        addr_rows_wf(s0),
        distinct_identities(batch),
        s0.len() + batch.len() < 0x7fff_ffff,
    ensures
        forall|b: int| 0 <= b < batch.len() ==> upsert_addresses_spec(s0, batch).0[
            #[trigger] upsert_addresses_spec(s0, batch).1[b] - 1].street_address == batch[b]
            .street_address,
    decreases batch.len(),
{
    if batch.len() > 0 {
        assert(forall|b1: int, b2: int| 0 <= b1 < b2 < batch.len() - 1 ==> address_identity(
            #[trigger] batch.drop_last()[b1],
        ) != address_identity(#[trigger] batch.drop_last()[b2]));
        lemma_upsert_streets(s0, batch.drop_last());
        lemma_upsert_addresses_wf(s0, batch.drop_last());
        lemma_upsert_addresses_wf(s0, batch);
        let prev = upsert_addresses_spec(s0, batch.drop_last());
        let a = batch.last();
        let k = address_identity(a);
        let idx = find_identity(prev.0, k);
        lemma_find_props(prev.0, k);
        let m = upsert_addresses_spec(s0, batch);
        assert forall|b: int| 0 <= b < batch.len() implies m.0[#[trigger] m.1[b] - 1]
            .street_address == batch[b].street_address by {
            if b < batch.len() - 1 {
                assert(m.1[b] == prev.1[b]);
                assert(batch.drop_last()[b] == batch[b]);
                assert(prev.0[prev.1[b] - 1].street_address == batch[b].street_address);
                assert(address_identity(prev.0[prev.1[b] - 1]) == address_identity(batch[b]));
                if idx >= 0 {
                    if idx == prev.1[b] - 1 {
                        assert(address_identity(batch[b]) != address_identity(
                            batch[batch.len() - 1],
                        ));
                        assert(address_identity(prev.0[idx]) == k);
                    }
                    assert(m.0[prev.1[b] - 1] == prev.0[prev.1[b] - 1]);
                } else {
                    assert(m.0[prev.1[b] - 1] == prev.0[prev.1[b] - 1]);
                }
            } else {
                if idx >= 0 {
                    assert(m.0[idx] == upserted_address(prev.0[idx], a));
                } else {
                    assert(m.1[b] == prev.0.len() + 1);
                }
            }
        }
    }
}

/// Repeating a whole deduplicated address batch is safe: the second
/// upsert leaves the table exactly as the first left it and returns
/// the same surrogate keys — what makes re-running a load after a
/// crash harmless.
pub proof fn lemma_upsert_batch_idempotent(s0: Seq<Address>, batch: Seq<Address>)
    requires
        addr_rows_wf(s0),
        distinct_identities(batch),
        s0.len() + batch.len() < 0x7fff_ffff,
    ensures
        ({
            let first = upsert_addresses_spec(s0, batch);
            let second = upsert_addresses_spec(first.0, batch);
            second.0 == first.0 && second.1 == first.1
        }),
{
    let first = upsert_addresses_spec(s0, batch);
    lemma_upsert_addresses_wf(s0, batch);
    lemma_upsert_streets(s0, batch);
    assert forall|b: int| 0 <= b < batch.len() implies exists|j: int|
        0 <= j < first.0.len() && address_identity(#[trigger] first.0[j]) == address_identity(
            #[trigger] batch[b],
        ) && first.0[j].street_address == batch[b].street_address by {
        assert(address_identity(first.0[first.1[b] - 1]) == address_identity(batch[b]));
        assert(first.0[first.1[b] - 1].street_address == batch[b].street_address);
    }
    lemma_upsert_noop(first.0, batch);
    let second = upsert_addresses_spec(first.0, batch);
    assert forall|b: int| 0 <= b < batch.len() implies #[trigger] second.1[b] == first.1[b] by {
        lemma_find_unique(first.0, first.1[b] - 1);
    }
    assert(second.1 =~= first.1);
}

} // verus!
