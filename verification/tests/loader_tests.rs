use std::io::Write;

use cms_loader::fingerprint::fingerprint_hex;
use cms_loader::mapper::Date;
use cms_loader::model::LoadError;
use cms_loader::pos::{persist_output, ProviderOfServicesLoader};
use cms_loader::store::MemoryStore;

fn zip_with_entries(entries: &[(&str, &str)]) -> Vec<u8> {
    let mut buf = std::io::Cursor::new(Vec::new());
    {
        let mut zw = zip::write::ZipWriter::new(&mut buf);
        for (name, content) in entries {
            zw.start_file(name.to_string(), zip::write::SimpleFileOptions::default()).unwrap();
            zw.write_all(content.as_bytes()).unwrap();
        }
        zw.finish().unwrap();
    }
    buf.into_inner()
}

const HEADER: &str = "prvdr_num,fac_name,st_adr,city_name,state_cd,zip_cd,bed_cnt,crtfctn_dt,hosp_bsd_sw\n";

#[test]
fn end_to_end_three_rows_two_addresses() {
    let csv = format!(
        "{}{}{}{}",
        HEADER,
        "001,Alpha Home,1 Main St,Springfield,IL,62701,12,2023-01-15,Yes\n",
        "002,Beta Home,9 Elm Rd,Shelbyville,IL,62565,Not Applicable,20230115,No\n",
        "003,Gamma Home,1 Main St,Springfield,IL,62701,30,bogus,maybe\n",
    );
    let bytes = zip_with_entries(&[
        ("readme.txt", "hello"),
        ("POS_File_2023.csv", &csv),
    ]);
    let loader = ProviderOfServicesLoader;
    let mut store = MemoryStore::new();
    loader.load(&bytes, &mut store).unwrap();

    assert_eq!(store.addresses.len(), 2);
    assert_eq!(store.providers.len(), 3);
    assert_eq!(store.addresses[0].id, Some(1));
    assert_eq!(store.addresses[1].id, Some(2));
    assert_eq!(store.providers[0].address_id, Some(1));
    assert_eq!(store.providers[1].address_id, Some(2));
    assert_eq!(store.providers[2].address_id, Some(1));

    assert_eq!(store.providers[0].name.as_deref(), Some("Alpha Home"));
    assert_eq!(store.providers[0].bed_count, Some(12));
    assert_eq!(
        store.providers[0].certification_date,
        Some(Date { year: 2023, month: 1, day: 15 })
    );
    assert_eq!(store.providers[0].hospital_based_switch, Some(true));
    assert_eq!(store.providers[1].bed_count, None);
    assert_eq!(
        store.providers[1].certification_date,
        Some(Date { year: 2023, month: 1, day: 15 })
    );
    assert_eq!(store.providers[1].hospital_based_switch, Some(false));
    assert_eq!(store.providers[2].certification_date, None);
    assert_eq!(store.providers[2].hospital_based_switch, None);
}

#[test]
fn reloading_the_same_file_is_idempotent() {
    let csv = format!(
        "{}{}{}",
        HEADER,
        "001,Alpha Home,1 Main St,Springfield,IL,62701,12,2023-01-15,Yes\n",
        "002,Beta Home,9 Elm Rd,Shelbyville,IL,62565,8,2022-06-01,No\n",
    );
    let bytes = zip_with_entries(&[("POS_File_2023.csv", &csv)]);
    let loader = ProviderOfServicesLoader;
    let mut store = MemoryStore::new();
    loader.load(&bytes, &mut store).unwrap();
    loader.load(&bytes, &mut store).unwrap();
    assert_eq!(store.addresses.len(), 2);
    assert_eq!(store.providers.len(), 2);
    assert_eq!(store.providers[0].address_id, Some(1));
    assert_eq!(store.providers[1].address_id, Some(2));
}

#[test]
fn extract_keeps_first_seen_address_order() {
    let csv = format!(
        "{}{}{}{}",
        HEADER,
        "001,A,Z Street,Town,IL,1,1,2023-01-15,Yes\n",
        "002,B,A Street,Town,IL,2,1,2023-01-15,Yes\n",
        "003,C,Z Street,Town,IL,1,1,2023-01-15,Yes\n",
    );
    let bytes = zip_with_entries(&[("POS_File_x.csv", &csv)]);
    let out = ProviderOfServicesLoader.extract(&bytes).unwrap();
    assert_eq!(out.addresses.len(), 2);
    assert_eq!(out.addresses[0].street_address.as_deref(), Some("Z Street"));
    assert_eq!(out.addresses[1].street_address.as_deref(), Some("A Street"));
    assert_eq!(out.link, vec![0, 1, 0]);
}

#[test]
fn archive_without_qualifying_entry_is_rejected() {
    let bytes = zip_with_entries(&[
        ("readme.txt", "hello"),
        ("other.csv", "a,b\n1,2\n"),
        ("POS_File_notes.txt", "not tabular"),
    ]);
    let r = ProviderOfServicesLoader.extract(&bytes);
    assert_eq!(r.unwrap_err(), LoadError::NoMatchingEntry);
}

#[test]
fn first_qualifying_entry_wins() {
    let csv1 = format!("{}{}", HEADER, "001,A,S1,C,IL,1,1,2023-01-15,Yes\n");
    let csv2 = format!("{}{}", HEADER, "002,B,S2,C,IL,2,1,2023-01-15,Yes\n");
    let bytes = zip_with_entries(&[
        ("POS_File_a.csv", &csv1),
        ("POS_File_b.csv", &csv2),
    ]);
    let out = ProviderOfServicesLoader.extract(&bytes).unwrap();
    assert_eq!(out.providers.len(), 1);
    assert_eq!(out.providers[0].cms_certification_number, "001");
}

#[test]
fn garbage_bytes_are_not_an_archive() {
    let bytes = vec![1u8, 2, 3, 4, 5];
    let r = ProviderOfServicesLoader.extract(&bytes);
    assert_eq!(r.unwrap_err(), LoadError::Archive);
}

#[test]
fn missing_natural_key_column_fails_the_whole_file() {
    let csv = "fac_name,st_adr,city_name,state_cd,zip_cd\nAlpha,1 Main St,Springfield,IL,62701\n";
    let bytes = zip_with_entries(&[("POS_File_x.csv", csv)]);
    let r = ProviderOfServicesLoader.extract(&bytes);
    assert_eq!(r.unwrap_err(), LoadError::MalformedRow);
}

#[test]
fn header_only_file_loads_nothing() {
    let bytes = zip_with_entries(&[("POS_File_x.csv", HEADER)]);
    let loader = ProviderOfServicesLoader;
    let mut store = MemoryStore::new();
    loader.load(&bytes, &mut store).unwrap();
    assert_eq!(store.addresses.len(), 0);
    assert_eq!(store.providers.len(), 0);
}

#[test]
fn column_order_does_not_matter() {
    let csv = "st_adr,prvdr_num,fac_name\n1 Main St,001,Alpha\n";
    let bytes = zip_with_entries(&[("POS_File_x.csv", csv)]);
    let out = ProviderOfServicesLoader.extract(&bytes).unwrap();
    assert_eq!(out.providers[0].cms_certification_number, "001");
    assert_eq!(out.providers[0].name.as_deref(), Some("Alpha"));
    assert_eq!(out.addresses[0].street_address.as_deref(), Some("1 Main St"));
}

#[test]
fn persist_output_with_no_addresses_writes_nothing() {
    let out = ProviderOfServicesLoader
        .extract(&zip_with_entries(&[("POS_File_x.csv", HEADER)]))
        .unwrap();
    let mut store = MemoryStore::new();
    persist_output(out, &mut store);
    assert_eq!(store.addresses.len(), 0);
    assert_eq!(store.providers.len(), 0);
}

#[test]
fn loader_identity_is_stable() {
    let loader = ProviderOfServicesLoader;
    assert_eq!(loader.key(), "pos_iqies");
    assert_eq!(loader.version(), 2);
    assert!(loader.url().starts_with("https://data.cms.gov/"));
}

#[test]
fn fingerprint_matches_known_sha256_vectors() {
    assert_eq!(
        fingerprint_hex(&Vec::new()),
        "e3b0c44298fc1c149afbf4c8996fb92427ae41e4649b934ca495991b7852b855"
    );
    assert_eq!(
        fingerprint_hex(&b"abc".to_vec()),
        "ba7816bf8f01cfea414140de5dae2223b00361a396177a9cb410ff61f20015ad"
    );
}

#[test]
fn fingerprint_distinguishes_contents() {
    let a = fingerprint_hex(&b"one".to_vec());
    let b = fingerprint_hex(&b"two".to_vec());
    assert_ne!(a, b);
    assert_eq!(a.len(), 64);
}
