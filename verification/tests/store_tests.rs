use cms_loader::model::{Address, Provider};
use cms_loader::store::{
    batch_sizes, bulk_insert_addresses, bulk_insert_providers, link_providers, MemoryStore,
    BATCH_SIZE,
};

fn addr(street: &str, city: &str, state: &str, zip: &str) -> Address {
    Address {
        id: None,
        street_address: if street.is_empty() { None } else { Some(street.to_string()) },
        city: if city.is_empty() { None } else { Some(city.to_string()) },
        state_code: if state.is_empty() { None } else { Some(state.to_string()) },
        zip_code: if zip.is_empty() { None } else { Some(zip.to_string()) },
        ssa_county_code: None,
        ssa_state_code: None,
        state_region_code: None,
        region_code: None,
        fips_state_code: None,
        fips_county_code: None,
        cbsa_code: None,
        cbsa_urban_rural_indicator: None,
    }
}

fn prov(cert: &str, name: Option<&str>) -> Provider {
    Provider {
        cms_certification_number: cert.to_string(),
        address_id: None,
        name: name.map(|s| s.to_string()),
        provider_subtype_id: None,
        medicaid_vendor_number: None,
        provider_type_id: None,
        original_participation_date: None,
        certification_date: None,
        termination_expiration_date: None,
        change_of_ownership_date: None,
        asc_begin_service_date: None,
        processing_date: None,
        phone_number: None,
        fax_number: None,
        accreditation_type_code: None,
        intermediary_carrier_code: None,
        acceptable_poc_switch: None,
        fiscal_year_end_date: None,
        compliance_status_code: None,
        certification_action_type_code: None,
        bed_count: None,
        certified_bed_count: None,
        hospice_bed_count: None,
        aids_bed_count: None,
        alzheimer_bed_count: None,
        dialysis_bed_count: None,
        disabled_children_bed_count: None,
        head_trauma_bed_count: None,
        huntington_disease_bed_count: None,
        medicare_medicaid_snf_bed_count: None,
        medicare_snf_bed_count: None,
        rehab_bed_count: None,
        ventilator_bed_count: None,
        lpn_lvn_count: None,
        rn_count: None,
        employee_count: None,
        change_of_ownership_switch: None,
        hospital_based_switch: None,
        multi_owned_facility_switch: None,
        clia_lab_number: None,
        facility_category_code: None,
        ownership_type_code: None,
    }
}

#[test]
fn upserting_the_same_address_twice_returns_the_same_key() {
    let mut store = MemoryStore::new();
    let a = addr("1 Main St", "Springfield", "IL", "62701");
    let first = bulk_insert_addresses(&mut store, &vec![a]);
    let b = addr("1 Main St", "Springfield", "IL", "62701");
    let second = bulk_insert_addresses(&mut store, &vec![b]);
    assert_eq!(first, vec![1]);
    assert_eq!(second, vec![1]);
    assert_eq!(store.addresses.len(), 1);
}

#[test]
fn upsert_returns_keys_for_existing_rows_too() {
    let mut store = MemoryStore::new();
    let batch = vec![
        addr("S1", "C", "ST", "1"),
        addr("S2", "C", "ST", "2"),
    ];
    let first = bulk_insert_addresses(&mut store, &batch);
    assert_eq!(first, vec![1, 2]);
    let batch2 = vec![
        addr("S2", "C", "ST", "2"),
        addr("S3", "C", "ST", "3"),
        addr("S1", "C", "ST", "1"),
    ];
    let second = bulk_insert_addresses(&mut store, &batch2);
    assert_eq!(second, vec![2, 3, 1]);
    assert_eq!(store.addresses.len(), 3);
}

#[test]
fn empty_string_and_absent_identity_collide_in_store() {
    let mut store = MemoryStore::new();
    let mut a = addr("", "", "", "");
    a.street_address = Some(String::new());
    let first = bulk_insert_addresses(&mut store, &vec![a]);
    let second = bulk_insert_addresses(&mut store, &vec![addr("", "", "", "")]);
    assert_eq!(first, vec![1]);
    assert_eq!(second, vec![1]);
}

#[test]
fn batch_boundary_sizes() {
    let n = 2 * BATCH_SIZE + 1;
    let sizes = batch_sizes(n, BATCH_SIZE);
    assert_eq!(sizes, vec![BATCH_SIZE, BATCH_SIZE, 1]);
    assert_eq!(batch_sizes(BATCH_SIZE, BATCH_SIZE), vec![BATCH_SIZE]);
    assert_eq!(batch_sizes(0, BATCH_SIZE), Vec::<usize>::new());
    assert_eq!(batch_sizes(999, BATCH_SIZE), vec![999]);
}

#[test]
fn batch_boundary_upsert_returns_all_keys_in_order() {
    let n = 2 * BATCH_SIZE + 1;
    let mut batch = Vec::new();
    for i in 0..n {
        batch.push(addr(&format!("{} Main St", i), "Springfield", "IL", &format!("{:05}", i)));
    }
    let mut store = MemoryStore::new();
    let ids = bulk_insert_addresses(&mut store, &batch);
    assert_eq!(ids.len(), n);
    for (i, id) in ids.iter().enumerate() {
        assert_eq!(*id, (i + 1) as i32);
    }
    assert_eq!(store.addresses.len(), n);
}

#[test]
fn provider_upsert_overwrites_on_conflicting_key() {
    let mut store = MemoryStore::new();
    bulk_insert_providers(&mut store, vec![prov("001", Some("Alpha")), prov("002", None)]);
    assert_eq!(store.providers.len(), 2);
    bulk_insert_providers(&mut store, vec![prov("001", Some("Beta"))]);
    assert_eq!(store.providers.len(), 2);
    assert_eq!(store.providers[0].name.as_deref(), Some("Beta"));
    assert_eq!(store.providers[1].cms_certification_number, "002");
}

#[test]
fn conflicting_address_upsert_keeps_stored_geo_codes() {
    let mut store = MemoryStore::new();
    let mut a = addr("1 Main St", "Springfield", "IL", "62701");
    a.ssa_county_code = Some("123".to_string());
    bulk_insert_addresses(&mut store, &vec![a]);
    let b = addr("1 Main St", "Springfield", "IL", "62701");
    bulk_insert_addresses(&mut store, &vec![b]);
    assert_eq!(store.addresses[0].ssa_county_code.as_deref(), Some("123"));
}

#[test]
fn linking_resolves_surrogate_keys_through_indices() {
    let mut providers = vec![prov("a", None), prov("b", None), prov("c", None)];
    let link = vec![0usize, 1, 0];
    let ids = vec![10i32, 20];
    link_providers(&mut providers, &link, &ids);
    assert_eq!(providers[0].address_id, Some(10));
    assert_eq!(providers[1].address_id, Some(20));
    assert_eq!(providers[2].address_id, Some(10));
}

#[test]
fn linking_leaves_out_of_range_indices_unresolved() {
    let mut providers = vec![prov("a", None), prov("b", None)];
    let link = vec![0usize, 5];
    let ids = vec![10i32];
    link_providers(&mut providers, &link, &ids);
    assert_eq!(providers[0].address_id, Some(10));
    assert_eq!(providers[1].address_id, None);
}
