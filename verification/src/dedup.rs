//! The dedup pipeline: one pass over the decoded rows, emitting every
//! provider, each distinct address once in first-seen order, and a
//! parallel index sequence linking each provider to its address.

use vstd::prelude::*;

use crate::model::{
    address_identity, address_of_row, provider_of_row, row_identity, same_identity, Address,
    Provider, ProviderOfServiceRow,
};

verus! {

/// What one pipeline pass produces: the mapped providers in row order,
/// the distinct addresses in first-seen order, and for each row the
/// index of its address in the address sequence.
#[derive(Debug)]
pub struct DedupOutput {
    pub providers: Vec<Provider>,
    pub addresses: Vec<Address>,
    pub link: Vec<usize>,
}

/// The mathematical counterpart of `DedupOutput`.
pub struct DedupModel {
    pub providers: Seq<Provider>,
    pub addresses: Seq<Address>,
    pub link: Seq<int>,
}

/// Index of the first address carrying identity `k`, or -1 when none
/// does.
pub open spec fn find_identity(
    addrs: Seq<Address>,
    k: (Seq<char>, Seq<char>, Seq<char>, Seq<char>),
) -> int
    decreases addrs.len(),
{
    if addrs.len() == 0 {
        -1
    } else if address_identity(addrs[0]) == k {
        0
    } else {
        let r = find_identity(addrs.drop_first(), k);
        if r < 0 {
            -1
        } else {
            r + 1
        }
    }
}

/// The pipeline as a fold over the input rows: a row whose identity was
/// seen before reuses that address's index; a fresh identity appends a
/// new address at the next index.
pub open spec fn spec_dedup(rows: Seq<ProviderOfServiceRow>) -> DedupModel
    decreases rows.len(),
{
    if rows.len() == 0 {
        DedupModel { providers: Seq::empty(), addresses: Seq::empty(), link: Seq::empty() }
    } else {
        let prev = spec_dedup(rows.drop_last());
        let r = rows.last();
        let idx = find_identity(prev.addresses, row_identity(r));
        if idx >= 0 {
            DedupModel {
                providers: prev.providers.push(provider_of_row(r)),
                addresses: prev.addresses,
                link: prev.link.push(idx),
            }
        } else {
            DedupModel {
                providers: prev.providers.push(provider_of_row(r)),
                addresses: prev.addresses.push(address_of_row(r)),
                link: prev.link.push(prev.addresses.len() as int),
            }
        }
    }
}

pub(crate) proof fn lemma_find_props(addrs: Seq<Address>, k: (Seq<char>, Seq<char>, Seq<char>, Seq<char>))
    ensures
        find_identity(addrs, k) < 0 ==> forall|j: int|
            0 <= j < addrs.len() ==> address_identity(#[trigger] addrs[j]) != k,
        find_identity(addrs, k) >= 0 ==> find_identity(addrs, k) < addrs.len()
            && address_identity(addrs[find_identity(addrs, k)]) == k && (forall|j: int|
            0 <= j < find_identity(addrs, k) ==> address_identity(#[trigger] addrs[j]) != k),
    decreases addrs.len(),
{
    if addrs.len() > 0 {
        if address_identity(addrs[0]) != k {
            lemma_find_props(addrs.drop_first(), k);
            assert(forall|j: int|
                1 <= j < addrs.len() ==> #[trigger] addrs[j] == addrs.drop_first()[j - 1]);
        }
    }
}

pub(crate) proof fn lemma_find_skip(
    addrs: Seq<Address>,
    k: (Seq<char>, Seq<char>, Seq<char>, Seq<char>),
    i: int,
)
    requires
        0 <= i <= addrs.len(),
        forall|j: int| 0 <= j < i ==> address_identity(#[trigger] addrs[j]) != k,
    ensures
        find_identity(addrs, k) == if find_identity(addrs.skip(i), k) < 0 {
            -1
        } else {
            i + find_identity(addrs.skip(i), k)
        },
    decreases i,
{
    if i > 0 {
        lemma_find_skip(addrs.drop_first(), k, i - 1);
        assert(addrs.drop_first().skip(i - 1) =~= addrs.skip(i));
        assert(address_identity(addrs[0]) != k);
    } else {
        assert(addrs.skip(0) =~= addrs);
    }
}

/// Linear scan for an address already carrying this row's identity.
fn find_addr(addresses: &Vec<Address>, r: &ProviderOfServiceRow) -> (res: Option<usize>)
    ensures
        match res {
            Some(j) => j < addresses@.len() && find_identity(addresses@, row_identity(*r))
                == j as int,
            None => find_identity(addresses@, row_identity(*r)) < 0,
        },
{
    let ghost k = row_identity(*r);
    let n = addresses.len();
    let mut i: usize = 0;
    while i < n
        invariant
            n == addresses@.len(),
            i <= n,
            k == row_identity(*r),
            forall|j: int| 0 <= j < i ==> address_identity(#[trigger] addresses@[j]) != k,
        decreases n - i,
    {
        if same_identity(&addresses[i], r) {
            proof {
                lemma_find_skip(addresses@, k, i as int);
                assert(addresses@.skip(i as int)[0] == addresses@[i as int]);
            }
            return Some(i);
        }
        proof {
            assert(addresses@.skip(i as int)[0] == addresses@[i as int]);
        }
        i = i + 1;
    }
    proof {
        lemma_find_skip(addresses@, k, i as int);
        assert(addresses@.skip(i as int) =~= Seq::empty());
    }
    None
}

/// Runs the dedup pipeline over the decoded rows in one pass. An
/// all-empty identity is deduplicated like any other: every row
/// without address data shares the single empty-address entry, which
/// is exactly how the store's coerced uniqueness constraint treats
/// such rows.
pub fn dedup_rows(rows: &Vec<ProviderOfServiceRow>) -> (out: DedupOutput)
    ensures
        out.providers@ == spec_dedup(rows@).providers,
        out.addresses@ == spec_dedup(rows@).addresses,
        out.link@.map_values(|u: usize| u as int) == spec_dedup(rows@).link,
{
    let mut providers: Vec<Provider> = Vec::new();
    let mut addresses: Vec<Address> = Vec::new();
    let mut link: Vec<usize> = Vec::new();
    let n = rows.len();
    let mut i: usize = 0;
    proof {
        assert(rows@.take(0) =~= Seq::empty());
        assert(link@.map_values(|u: usize| u as int) =~= Seq::<int>::empty());
    }
    while i < n
        invariant
            n == rows@.len(),
            i <= n,
            providers@ == spec_dedup(rows@.take(i as int)).providers,
            addresses@ == spec_dedup(rows@.take(i as int)).addresses,
            link@.map_values(|u: usize| u as int) == spec_dedup(rows@.take(i as int)).link,
            addresses@.len() <= i,
        decreases n - i,
    {
        let ghost m_prev = spec_dedup(rows@.take(i as int));
        proof {
            assert(rows@.take(i + 1).drop_last() =~= rows@.take(i as int));
            assert(rows@.take(i + 1).last() == rows@[i as int]);
        }
        let row = &rows[i];
        let provider = Provider::from(row.duplicate());
        match find_addr(&addresses, row) {
            Some(j) => {
                providers.push(provider);
                link.push(j);
            },
            None => {
                let j = addresses.len();
                addresses.push(Address::from(row.duplicate()));
                providers.push(provider);
                link.push(j);
            },
        }
        proof {
            let m = spec_dedup(rows@.take(i + 1));
            assert(link@.map_values(|u: usize| u as int) =~= m.link);
        }
        i = i + 1;
    }
    proof {
        assert(rows@.take(n as int) =~= rows@);
    }
    DedupOutput { providers, addresses, link }
}

/// Some input row is linked to address index `j`.
pub open spec fn some_row_links_to(rows: Seq<ProviderOfServiceRow>, j: int) -> bool {
    exists|i: int| 0 <= i < rows.len() && #[trigger] spec_dedup(rows).link[i] == j
}

/// Structural facts that hold of every pipeline run: one provider and
/// one link per row, every link in bounds and pointing at an address
/// with the row's own identity, no identity stored twice, and no
/// address that no row links to.
pub proof fn lemma_dedup_wf(rows: Seq<ProviderOfServiceRow>)
    ensures
        spec_dedup(rows).providers.len() == rows.len(),
        spec_dedup(rows).link.len() == rows.len(),
        spec_dedup(rows).addresses.len() <= rows.len(),
        forall|i: int| 0 <= i < rows.len() ==> 0 <= #[trigger] spec_dedup(rows).link[i]
            < spec_dedup(rows).addresses.len(),
        forall|i: int| 0 <= i < rows.len() ==> address_identity(
            spec_dedup(rows).addresses[#[trigger] spec_dedup(rows).link[i]],
        ) == row_identity(rows[i]),
        forall|i: int| 0 <= i < rows.len() ==> #[trigger] spec_dedup(rows).providers[i]
            == provider_of_row(rows[i]),
        forall|j1: int, j2: int| 0 <= j1 < j2 < spec_dedup(rows).addresses.len()
            ==> address_identity(#[trigger] spec_dedup(rows).addresses[j1]) != address_identity(
            #[trigger] spec_dedup(rows).addresses[j2]),
        forall|j: int| 0 <= j < spec_dedup(rows).addresses.len() ==> #[trigger] some_row_links_to(
            rows,
            j,
        ),
    decreases rows.len(),
{
    if rows.len() > 0 {
        lemma_dedup_wf(rows.drop_last());
        let prev = spec_dedup(rows.drop_last());
        let r = rows.last();
        let k = row_identity(r);
        let idx = find_identity(prev.addresses, k);
        lemma_find_props(prev.addresses, k);
        let m = spec_dedup(rows);
        assert(rows.drop_last().len() == rows.len() - 1);
        assert(forall|i: int| 0 <= i < rows.len() - 1 ==> #[trigger] rows.drop_last()[i]
            == rows[i]);
        if idx >= 0 {
            assert(m.link[rows.len() - 1] == idx);
            assert(address_identity(m.addresses[idx]) == k);
        } else {
            assert(address_identity(address_of_row(r)) == k);
            assert(forall|j: int| 0 <= j < prev.addresses.len() ==> #[trigger] m.addresses[j]
                == prev.addresses[j]);
            assert(m.link[rows.len() - 1] == prev.addresses.len());
        }
        assert forall|j: int| 0 <= j < spec_dedup(rows).addresses.len() implies
            #[trigger] some_row_links_to(rows, j) by {
            if j < prev.addresses.len() {
                assert(some_row_links_to(rows.drop_last(), j));
                let i0 = choose|i: int|
                    0 <= i < rows.drop_last().len() && #[trigger] spec_dedup(
                        rows.drop_last(),
                    ).link[i] == j;
                assert(prev.link.len() == rows.len() - 1);
                assert(spec_dedup(rows).link[i0] == prev.link[i0]);
                assert(spec_dedup(rows).link[i0] == j);
            } else {
                assert(spec_dedup(rows).link[rows.len() - 1] == j);
            }
        }
    }
}

/// Distinct identities in their first-seen order: the fold that keeps
/// each identity only at its first occurrence.
pub open spec fn identity_firsts(
    ks: Seq<(Seq<char>, Seq<char>, Seq<char>, Seq<char>)>,
) -> Seq<(Seq<char>, Seq<char>, Seq<char>, Seq<char>)>
    decreases ks.len(),
{
    if ks.len() == 0 {
        Seq::empty()
    } else {
        let p = identity_firsts(ks.drop_last());
        if p.contains(ks.last()) {
            p
        } else {
            p.push(ks.last())
        }
    }
}

/// Order preservation: the identities of the unique-address output are
/// exactly the distinct input identities, in first-seen order.
pub proof fn lemma_dedup_order(rows: Seq<ProviderOfServiceRow>)
    ensures
        spec_dedup(rows).addresses.map_values(|a: Address| address_identity(a)) == identity_firsts(
            rows.map_values(|r: ProviderOfServiceRow| row_identity(r)),
        ),
    decreases rows.len(),
{
    let ks = rows.map_values(|r: ProviderOfServiceRow| row_identity(r));
    if rows.len() == 0 {
        assert(spec_dedup(rows).addresses.map_values(|a: Address| address_identity(a))
            =~= identity_firsts(ks));
    } else {
        lemma_dedup_order(rows.drop_last());
        let prev = spec_dedup(rows.drop_last());
        let r = rows.last();
        let k = row_identity(r);
        let idx = find_identity(prev.addresses, k);
        lemma_find_props(prev.addresses, k);
        let pm = prev.addresses.map_values(|a: Address| address_identity(a));
        assert(rows.drop_last().map_values(|rr: ProviderOfServiceRow| row_identity(rr))
            =~= ks.drop_last());
        assert(ks.last() == k);
        if idx >= 0 {
            assert(pm[idx] == k);
            assert(pm.contains(k));
            assert(spec_dedup(rows).addresses.map_values(|a: Address| address_identity(a)) == pm);
            assert(identity_firsts(ks) == pm);
        } else {
            assert forall|j: int| 0 <= j < pm.len() implies pm[j] != k by {
                assert(address_identity(prev.addresses[j]) != k);
            }
            assert(!pm.contains(k));
            assert(spec_dedup(rows).addresses.map_values(|a: Address| address_identity(a))
                =~= pm.push(k));
            assert(identity_firsts(ks) == pm.push(k));
        }
    }
}

/// Dedup correctness: two rows with the same coerced identity are
/// linked to the same address index.
pub proof fn lemma_dedup_same_identity(rows: Seq<ProviderOfServiceRow>, i: int, j: int)
    requires
        0 <= i < rows.len(),
        0 <= j < rows.len(),
        row_identity(rows[i]) == row_identity(rows[j]),
    ensures
        spec_dedup(rows).link[i] == spec_dedup(rows).link[j],
{
    lemma_dedup_wf(rows);
    let m = spec_dedup(rows);
    assert(address_identity(m.addresses[m.link[i]]) == address_identity(m.addresses[m.link[j]]));
    if m.link[i] != m.link[j] {
        if m.link[i] < m.link[j] {
            assert(address_identity(m.addresses[m.link[i]]) != address_identity(
                m.addresses[m.link[j]],
            ));
        } else {
            assert(address_identity(m.addresses[m.link[j]]) != address_identity(
                m.addresses[m.link[i]],
            ));
        }
    }
}


/// The first-seen fold keeps exactly the distinct values: nothing is
/// kept twice, and a value is kept if and only if it occurs in the
/// input.
pub proof fn lemma_identity_firsts_distinct(ks: Seq<(Seq<char>, Seq<char>, Seq<char>, Seq<char>)>)
    ensures
        forall|j1: int, j2: int| 0 <= j1 < j2 < identity_firsts(ks).len()
            ==> identity_firsts(ks)[j1] != identity_firsts(ks)[j2],
        forall|k: (Seq<char>, Seq<char>, Seq<char>, Seq<char>)|
            #![trigger identity_firsts(ks).contains(k)]
            identity_firsts(ks).contains(k) <==> ks.contains(k),
    decreases ks.len(),
{
    if ks.len() > 0 {
        lemma_identity_firsts_distinct(ks.drop_last());
        let p = identity_firsts(ks.drop_last());
        let f = identity_firsts(ks);
        assert forall|k: (Seq<char>, Seq<char>, Seq<char>, Seq<char>)| f.contains(k) <==> ks
            .contains(k) by {
            if f.contains(k) {
                let j = choose|j: int| 0 <= j < f.len() && f[j] == k;
                if j < p.len() {
                    assert(p.contains(k));
                    assert(ks.drop_last().contains(k));
                    let i = choose|i: int| 0 <= i < ks.drop_last().len() && ks.drop_last()[i] == k;
                    assert(ks[i] == k);
                } else {
                    assert(ks[ks.len() - 1] == k);
                }
            }
            if ks.contains(k) {
                let i = choose|i: int| 0 <= i < ks.len() && ks[i] == k;
                if i < ks.len() - 1 {
                    assert(ks.drop_last()[i] == k);
                    assert(p.contains(k));
                    let j = choose|j: int| 0 <= j < p.len() && p[j] == k;
                    assert(f[j] == k);
                } else {
                    if p.contains(ks.last()) {
                        let j = choose|j: int| 0 <= j < p.len() && p[j] == ks.last();
                        assert(f[j] == k);
                    } else {
                        assert(f[f.len() - 1] == k);
                    }
                }
            }
        }
        if !p.contains(ks.last()) {
            assert forall|j1: int, j2: int| 0 <= j1 < j2 < f.len() implies f[j1] != f[j2] by {
                if j2 == f.len() - 1 {
                    assert(p[j1] == f[j1]);
                    assert(!p.contains(f[j2]));
                }
            }
        }
    }
}

/// The identities of the unique-address output, in output order.
pub open spec fn dedup_identities(rows: Seq<ProviderOfServiceRow>) -> Seq<
    (Seq<char>, Seq<char>, Seq<char>, Seq<char>),
> {
    spec_dedup(rows).addresses.map_values(|a: Address| address_identity(a))
}

/// The identities of the input rows, in input order.
pub open spec fn row_identities(rows: Seq<ProviderOfServiceRow>) -> Seq<
    (Seq<char>, Seq<char>, Seq<char>, Seq<char>),
> {
    rows.map_values(|r: ProviderOfServiceRow| row_identity(r))
}

/// Dedup correctness, counting side: the stored identities are exactly
/// the distinct input identities — no identity twice, none missing,
/// none invented.
pub proof fn lemma_dedup_identity_sets(rows: Seq<ProviderOfServiceRow>)
    ensures
        forall|j1: int, j2: int| 0 <= j1 < j2 < spec_dedup(rows).addresses.len()
            ==> address_identity(#[trigger] spec_dedup(rows).addresses[j1]) != address_identity(
            #[trigger] spec_dedup(rows).addresses[j2]),
        forall|k: (Seq<char>, Seq<char>, Seq<char>, Seq<char>)|
            #![trigger dedup_identities(rows).contains(k)]
            dedup_identities(rows).contains(k) <==> row_identities(rows).contains(k),
{
    lemma_dedup_wf(rows);
    lemma_dedup_order(rows);
    lemma_identity_firsts_distinct(rows.map_values(|r: ProviderOfServiceRow| row_identity(r)));
}

} // verus!
