//! The provider-of-services dataset loader: selects the tabular entry
//! of the source archive, decodes and maps its rows, deduplicates the
//! addresses, and persists both entity batches with their foreign-key
//! linkage.

use vstd::prelude::*;

use crate::archive::{
    archive_entry, archive_entry_bytes, archive_entry_names, archive_listing, csv_rows, csv_table,
    first_qualifying, select_entry, table_view,
};
use crate::dedup::{dedup_rows, spec_dedup, DedupOutput};
use crate::model::{
    fields_view, map_row, row_matches_fields, spec_lookup, LoadError, ProviderOfServiceRow,
};
use crate::store::{
    addr_rows_wf, bulk_insert_addresses, bulk_insert_providers, distinct_identities,
    lemma_upsert_batch_idempotent, link_providers, spec_link, upsert_addresses_spec,
    upsert_providers_spec, MemoryStore,
};

verus! {

/// A row's named fields: header names paired with the row's texts,
/// position by position, up to the shorter of the two.
pub open spec fn zip_fields(header: Seq<Seq<char>>, row: Seq<Seq<char>>) -> Seq<
    (Seq<char>, Seq<char>),
> {
    Seq::new(
        if header.len() <= row.len() {
            header.len()
        } else {
            row.len()
        },
        |j: int| (header[j], row[j]),
    )
}

/// Pairs one decoded row's fields with the header's column names.
pub fn named_fields(header: &Vec<String>, row: &Vec<String>) -> (fields: Vec<(String, String)>)
    ensures
        fields_view(fields@) == zip_fields(
            header@.map_values(|s: String| s@),
            row@.map_values(|s: String| s@),
        ),
{
    let n = if header.len() <= row.len() {
        header.len()
    } else {
        row.len()
    };
    let mut fields: Vec<(String, String)> = Vec::new();
    let mut j: usize = 0;
    while j < n
        invariant
            n <= header@.len(),
            n <= row@.len(),
            n == if header@.len() <= row@.len() {
                header@.len()
            } else {
                row@.len()
            },
            j <= n,
            fields@.len() == j,
            forall|m: int| 0 <= m < j ==> #[trigger] fields@[m].0@ == header@[m]@
                && fields@[m].1@ == row@[m]@,
        decreases n - j,
    {
        fields.push((header[j].clone(), row[j].clone()));
        j = j + 1;
    }
    proof {
        assert(fields_view(fields@) =~= zip_fields(
            header@.map_values(|s: String| s@),
            row@.map_values(|s: String| s@),
        ));
    }
    fields
}

/// Every data row of the table carries its required natural-key
/// column.
pub open spec fn table_has_all_keys(t: Seq<Seq<Seq<char>>>) -> bool {
    forall|i: int| 1 <= i < t.len() ==> spec_lookup(
        #[trigger] zip_fields(t[0], t[i]),
        "prvdr_num"@,
    ) is Some
}

/// The decoded rows agree with the table: one typed record per data
/// row, each field normalized from its named column.
pub open spec fn rows_match_table(
    mapped: Seq<ProviderOfServiceRow>,
    t: Seq<Seq<Seq<char>>>,
) -> bool {
    &&& mapped.len() == if t.len() == 0 {
        0
    } else {
        t.len() - 1
    }
    &&& forall|i: int| 0 <= i < mapped.len() ==> row_matches_fields(
        #[trigger] mapped[i],
        zip_fields(t[0], t[i + 1]),
    )
}

/// Maps every data row of a decoded table through the record mapper;
/// the first row is the header. Fails if and only if some data row
/// lacks the natural-key column, aborting the whole file.
pub fn map_table(rows: &Vec<Vec<String>>) -> (r: Result<Vec<ProviderOfServiceRow>, LoadError>)
    ensures
        match r {
            Ok(mapped) => rows_match_table(mapped@, table_view(rows@)) && table_has_all_keys(
                table_view(rows@),
            ),
            Err(e) => e == LoadError::MalformedRow && !table_has_all_keys(table_view(rows@)),
        },
{
    let ghost t = table_view(rows@);
    let mut mapped: Vec<ProviderOfServiceRow> = Vec::new();
    if rows.len() == 0 {
        return Ok(mapped);
    }
    let n = rows.len();
    let mut i: usize = 1;
    while i < n
        invariant
            n == rows@.len(),
            1 <= i <= n,
            t == table_view(rows@),
            t.len() == n,
            mapped@.len() == i - 1,
            forall|m: int| 0 <= m < i - 1 ==> row_matches_fields(
                #[trigger] mapped@[m],
                zip_fields(t[0], t[m + 1]),
            ),
            forall|m: int| 1 <= m < i ==> spec_lookup(
                #[trigger] zip_fields(t[0], t[m]),
                "prvdr_num"@,
            ) is Some,
        decreases n - i,
    {
        let fields = named_fields(&rows[0], &rows[i]);
        proof {
            assert(t[0] == rows@[0]@.map_values(|s: String| s@));
            assert(t[i as int] == rows@[i as int]@.map_values(|s: String| s@));
        }
        match map_row(&fields) {
            Ok(row) => {
                mapped.push(row);
            },
            Err(e) => {
                return Err(e);
            },
        }
        i = i + 1;
    }
    Ok(mapped)
}

/// The tabular entry the loader works on: the first qualifying entry
/// name of the archive, when the archive can be listed and one
/// qualifies.
pub open spec fn spec_selected_name(zip: Seq<u8>) -> Option<Seq<char>> {
    match archive_listing(zip) {
        None => None,
        Some(names) => {
            let i = first_qualifying(names);
            if i < 0 {
                None
            } else {
                Some(names[i])
            }
        },
    }
}

/// The bytes of the selected tabular entry, when it can be read.
pub open spec fn spec_entry_data(zip: Seq<u8>) -> Option<Seq<u8>> {
    match spec_selected_name(zip) {
        None => None,
        Some(n) => archive_entry(zip, n),
    }
}

/// The decoded table of the selected entry, when it decodes.
pub open spec fn spec_table(zip: Seq<u8>) -> Option<Seq<Seq<Seq<char>>>> {
    match spec_entry_data(zip) {
        None => None,
        Some(d) => csv_table(d),
    }
}

/// The loader for the provider-of-services dataset.
pub struct ProviderOfServicesLoader;

impl ProviderOfServicesLoader {
    /// The stable key this loader's run state is recorded under.
    pub fn key(&self) -> (r: &'static str)
        ensures
            r@ == "pos_iqies"@,
    {
        "pos_iqies"
    }

    /// The source URL of the dataset archive.
    pub fn url(&self) -> (r: &'static str)
        ensures
            r@
                == "https://data.cms.gov/sites/default/files/dataset_zips/741d954b3c14b2299052175b44e895f4/Provider%20of%20Services%20File%20-%20Internet%20Quality%20Improvement%20and%20Evaluation%20System.zip"@,
    {
        "https://data.cms.gov/sites/default/files/dataset_zips/741d954b3c14b2299052175b44e895f4/Provider%20of%20Services%20File%20-%20Internet%20Quality%20Improvement%20and%20Evaluation%20System.zip"
    }

    /// The loader's logic version; bumping it forces a reload even on
    /// unchanged source bytes.
    pub fn version(&self) -> (v: usize)
        ensures
            v == 2,
    {
        2
    }

    /// Extracts the dataset from the archive bytes: selects the
    /// tabular entry, decodes it, maps every data row, and runs the
    /// dedup pipeline. Succeeds if and only if the archive lists, one
    /// entry qualifies, the entry reads and decodes, and every data
    /// row carries its natural key.
    pub fn extract(&self, zip_bytes: &Vec<u8>) -> (r: Result<DedupOutput, LoadError>)
        ensures
            match r {
                Ok(out) => spec_table(zip_bytes@) matches Some(t) && table_has_all_keys(t)
                    && (exists|mapped: Seq<ProviderOfServiceRow>|
                    {
                        &&& #[trigger] rows_match_table(mapped, t)
                        &&& out.providers@ == spec_dedup(mapped).providers
                        &&& out.addresses@ == spec_dedup(mapped).addresses
                        &&& out.link@.map_values(|u: usize| u as int) == spec_dedup(mapped).link
                    }),
                Err(e) => match e {
                    LoadError::Archive => archive_listing(zip_bytes@) is None || (
                    spec_selected_name(zip_bytes@) is Some && spec_entry_data(zip_bytes@) is None),
                    LoadError::NoMatchingEntry => archive_listing(zip_bytes@) matches Some(names)
                        && first_qualifying(names) < 0,
                    LoadError::Csv => spec_entry_data(zip_bytes@) is Some && spec_table(
                        zip_bytes@,
                    ) is None,
                    LoadError::MalformedRow => spec_table(zip_bytes@) matches Some(t)
                        && !table_has_all_keys(t),
                    LoadError::Store => false,
                },
            },
    {
        let names = match archive_entry_names(zip_bytes) {
            Ok(names) => names,
            Err(e) => {
                return Err(e);
            },
        };
        let idx = match select_entry(&names) {
            Some(idx) => idx,
            None => {
                return Err(LoadError::NoMatchingEntry);
            },
        };
        let data = match archive_entry_bytes(zip_bytes, names[idx].as_str()) {
            Ok(data) => data,
            Err(e) => {
                return Err(e);
            },
        };
        let rows = match csv_rows(&data) {
            Ok(rows) => rows,
            Err(e) => {
                return Err(e);
            },
        };
        let mapped = match map_table(&rows) {
            Ok(mapped) => mapped,
            Err(e) => {
                return Err(e);
            },
        };
        let out = dedup_rows(&mapped);
        proof {
            assert(rows_match_table(mapped@, table_view(rows@)));
        }
        Ok(out)
    }
}

/// Persists one extraction: upserts the deduplicated addresses, links
/// every provider to its returned surrogate key, then upserts the
/// providers — in that order, as the linkage requires. A run with no
/// addresses writes nothing at all.
pub fn persist_output(out: DedupOutput, store: &mut MemoryStore)
    requires
        old(store).addresses@.len() + out.addresses@.len() < 0x7fff_ffff,
        out.providers@.len() == out.link@.len(),
    ensures
        out.addresses@.len() == 0 ==> *final(store) == *old(store),
        out.addresses@.len() > 0 ==> {
            &&& final(store).addresses@ == upsert_addresses_spec(
                old(store).addresses@,
                out.addresses@,
            ).0
            &&& final(store).providers@ == upsert_providers_spec(
                old(store).providers@,
                spec_link(
                    out.providers@,
                    out.link@.map_values(|u: usize| u as int),
                    upsert_addresses_spec(
                        old(store).addresses@,
                        out.addresses@,
                    ).1.map_values(|n: int| n as i32),
                ),
            )
        },
{
    let DedupOutput { providers, addresses, link } = out;
    let mut providers = providers;
    if addresses.len() == 0 {
        return;
    }
    let ids = bulk_insert_addresses(store, &addresses);
    proof {
        assert(ids@ =~= upsert_addresses_spec(old(store).addresses@, addresses@).1.map_values(
            |n: int| n as i32,
        ));
    }
    link_providers(&mut providers, &link, &ids);
    bulk_insert_providers(store, providers);
}

/// How one persisted extraction leaves the store: untouched when the
/// pipeline produced no addresses, else with the address batch
/// upserted and the linked provider batch upserted after it.
pub open spec fn stored_after(
    pre: MemoryStore,
    m: crate::dedup::DedupModel,
    post: MemoryStore,
) -> bool {
    if m.addresses.len() == 0 {
        post == pre
    } else {
        let up = upsert_addresses_spec(pre.addresses@, m.addresses);
        &&& post.addresses@ == up.0
        &&& post.providers@ == upsert_providers_spec(
            pre.providers@,
            spec_link(m.providers, m.link, up.1.map_values(|n: int| n as i32)),
        )
    }
}

impl ProviderOfServicesLoader {
    /// Runs the whole load against a store: extract, upsert the
    /// address batch, link, upsert the provider batch. On any error
    /// the store is left untouched; a store at capacity reports a
    /// store failure.
    pub fn load(&self, zip_bytes: &Vec<u8>, store: &mut MemoryStore) -> (r: Result<
        (),
        LoadError,
    >)
        ensures
            match r {
                Ok(_) => spec_table(zip_bytes@) matches Some(t) && table_has_all_keys(t) && (
                exists|mapped: Seq<ProviderOfServiceRow>|
                    #[trigger] rows_match_table(mapped, t) && stored_after(
                        *old(store),
                        spec_dedup(mapped),
                        *final(store),
                    )),
                Err(e) => match e {
                    LoadError::Store => *final(store) == *old(store) && (spec_table(
                        zip_bytes@,
                    ) matches Some(t) && table_has_all_keys(t) && (exists|
                        mapped: Seq<ProviderOfServiceRow>,
                    |
                        #[trigger] rows_match_table(mapped, t) && old(store).addresses@.len()
                            + spec_dedup(mapped).addresses.len() >= 0x7fff_ffff)),
                    LoadError::Archive => *final(store) == *old(store) && (archive_listing(
                        zip_bytes@,
                    ) is None || (spec_selected_name(zip_bytes@) is Some && spec_entry_data(
                        zip_bytes@,
                    ) is None)),
                    LoadError::NoMatchingEntry => *final(store) == *old(store) && (
                    archive_listing(zip_bytes@) matches Some(names) && first_qualifying(names)
                        < 0),
                    LoadError::Csv => *final(store) == *old(store) && spec_entry_data(
                        zip_bytes@,
                    ) is Some && spec_table(zip_bytes@) is None,
                    LoadError::MalformedRow => *final(store) == *old(store) && (spec_table(
                        zip_bytes@,
                    ) matches Some(t) && !table_has_all_keys(t)),
                },
            },
    {
        let out = match self.extract(zip_bytes) {
            Ok(out) => out,
            Err(e) => {
                return Err(e);
            },
        };
        let ghost t = match spec_table(zip_bytes@) {
            Some(t0) => t0,
            None => Seq::empty(),
        };
        let ghost mapped = choose|mapped: Seq<ProviderOfServiceRow>|
            {
                &&& #[trigger] rows_match_table(mapped, t)
                &&& out.providers@ == spec_dedup(mapped).providers
                &&& out.addresses@ == spec_dedup(mapped).addresses
                &&& out.link@.map_values(|u: usize| u as int) == spec_dedup(mapped).link
            };
        proof {
            crate::dedup::lemma_dedup_wf(mapped);
        }
        if store.addresses.len() >= 0x7fff_ffff || out.addresses.len() >= 0x7fff_ffff
            - store.addresses.len() {
            return Err(LoadError::Store);
        }
        persist_output(out, store);
        Ok(())
    }
}

/// Re-running a load is safe: the unique-address batch one extraction
/// produces has pairwise distinct identities, so upserting it a second
/// time against any well-formed address table leaves the table as the
/// first upsert left it and returns the same surrogate keys.
pub proof fn lemma_reload_addresses_idempotent(
    rows: Seq<ProviderOfServiceRow>,
    table: Seq<crate::model::Address>,
)
    requires
        addr_rows_wf(table),
        table.len() + spec_dedup(rows).addresses.len() < 0x7fff_ffff,
    ensures
        ({
            let batch = spec_dedup(rows).addresses;
            let first = upsert_addresses_spec(table, batch);
            let second = upsert_addresses_spec(first.0, batch);
            second.0 == first.0 && second.1 == first.1
        }),
{
    crate::dedup::lemma_dedup_identity_sets(rows);
    assert(distinct_identities(spec_dedup(rows).addresses));
    lemma_upsert_batch_idempotent(table, spec_dedup(rows).addresses);
}

} // verus!
