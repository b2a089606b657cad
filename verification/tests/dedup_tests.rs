use cms_loader::dedup::dedup_rows;
use cms_loader::model::ProviderOfServiceRow;

fn row(cert: &str, street: &str, city: &str, state: &str, zip: &str) -> ProviderOfServiceRow {
    ProviderOfServiceRow {
        cms_certification_number: cert.to_string(),
        street_address: if street.is_empty() { None } else { Some(street.to_string()) },
        city: if city.is_empty() { None } else { Some(city.to_string()) },
        state_code: if state.is_empty() { None } else { Some(state.to_string()) },
        zip_code: if zip.is_empty() { None } else { Some(zip.to_string()) },
        ssa_county_code: None,
        ssa_state_code: None,
        state_region_code: None,
        region_code: None,
        fips_state_code: None,
        fips_county_code: None,
        cbsa_code: None,
        cbsa_urban_rural_indicator: None,
        name: None,
        provider_subtype_id: None,
        medicaid_vendor_number: None,
        provider_type_id: None,
        original_participation_date: None,
        certification_date: None,
        termination_expiration_date: None,
        change_of_ownership_date: None,
        asc_begin_service_date: None,
        processing_date: None,
        phone_number: None,
        fax_number: None,
        accreditation_type_code: None,
        intermediary_carrier_code: None,
        acceptable_poc_switch: None,
        fiscal_year_end_date: None,
        compliance_status_code: None,
        certification_action_type_code: None,
        bed_count: None,
        certified_bed_count: None,
        hospice_bed_count: None,
        aids_bed_count: None,
        alzheimer_bed_count: None,
        dialysis_bed_count: None,
        disabled_children_bed_count: None,
        head_trauma_bed_count: None,
        huntington_disease_bed_count: None,
        medicare_medicaid_snf_bed_count: None,
        medicare_snf_bed_count: None,
        rehab_bed_count: None,
        ventilator_bed_count: None,
        lpn_lvn_count: None,
        rn_count: None,
        employee_count: None,
        change_of_ownership_switch: None,
        hospital_based_switch: None,
        multi_owned_facility_switch: None,
        clia_lab_number: None,
        facility_category_code: None,
        ownership_type_code: None,
    }
}

#[test]
fn identical_identities_share_one_index() {
    let rows = vec![
        row("001", "1 Main St", "Springfield", "IL", "62701"),
        row("002", "9 Elm Rd", "Shelbyville", "IL", "62565"),
        row("003", "1 Main St", "Springfield", "IL", "62701"),
    ];
    let out = dedup_rows(&rows);
    assert_eq!(out.providers.len(), 3);
    assert_eq!(out.addresses.len(), 2);
    assert_eq!(out.link, vec![0, 1, 0]);
}

#[test]
fn first_seen_order_is_preserved() {
    let rows = vec![
        row("a", "S3", "C", "ST", "3"),
        row("b", "S1", "C", "ST", "1"),
        row("c", "S3", "C", "ST", "3"),
        row("d", "S2", "C", "ST", "2"),
        row("e", "S1", "C", "ST", "1"),
    ];
    let out = dedup_rows(&rows);
    assert_eq!(out.addresses.len(), 3);
    assert_eq!(out.addresses[0].street_address.as_deref(), Some("S3"));
    assert_eq!(out.addresses[1].street_address.as_deref(), Some("S1"));
    assert_eq!(out.addresses[2].street_address.as_deref(), Some("S2"));
    assert_eq!(out.link, vec![0, 1, 0, 2, 1]);
}

#[test]
fn absent_and_empty_identity_fields_coerce_alike() {
    let rows = vec![
        row("001", "", "", "", ""),
        row("002", "", "", "", ""),
    ];
    let out = dedup_rows(&rows);
    assert_eq!(out.addresses.len(), 1);
    assert_eq!(out.link, vec![0, 0]);
}

#[test]
fn distinct_identities_get_distinct_addresses() {
    let rows = vec![
        row("001", "1 Main St", "Springfield", "IL", "62701"),
        row("002", "1 Main St", "Springfield", "IL", "62702"),
        row("003", "1 Main St", "Springfield", "MO", "62701"),
    ];
    let out = dedup_rows(&rows);
    assert_eq!(out.addresses.len(), 3);
    assert_eq!(out.link, vec![0, 1, 2]);
}

#[test]
fn providers_keep_row_order_and_fields() {
    let rows = vec![
        row("z9", "1 Main St", "Springfield", "IL", "62701"),
        row("a1", "9 Elm Rd", "Shelbyville", "IL", "62565"),
    ];
    let out = dedup_rows(&rows);
    assert_eq!(out.providers[0].cms_certification_number, "z9");
    assert_eq!(out.providers[1].cms_certification_number, "a1");
    assert_eq!(out.providers[0].address_id, None);
}
