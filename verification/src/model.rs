//! The data model: raw rows decoded by header name, the address
//! sub-entity deduplicated against its composite identity, and the
//! provider main entity that links to it.

use vstd::prelude::*;

use crate::mapper::{
    opt_str_view, spec_normalize_string, spec_parse_optional_date, spec_parse_optional_i32,
    spec_parse_yes_no, normalize_string, parse_optional_date, parse_optional_i32, parse_yes_no,
    Date,
};
use crate::text::str_eq;

verus! {

/// The error taxonomy of a dataset load. Any of these is fatal to the
/// loader run it arises in, except where the engine says otherwise.
#[derive(Clone, Copy, Debug, PartialEq, Eq, Structural)]
pub enum LoadError {
    /// The archive holds no qualifying tabular entry.
    NoMatchingEntry,
    /// A row lacks its required natural-key field.
    MalformedRow,
    /// The archive could not be read.
    Archive,
    /// The tabular entry could not be decoded.
    Csv,
    /// A batch upsert could not be applied.
    Store,
}

/// A deduplicated street address with its government geographic codes.
/// All fields are optional; sentinel values were suppressed by the
/// record mapper. `id` is the store-assigned surrogate key, absent
/// until the row is persisted.
#[derive(Debug)]
pub struct Address {
    pub id: Option<i32>,
    pub street_address: Option<String>,
    pub city: Option<String>,
    pub state_code: Option<String>,
    pub zip_code: Option<String>,
    pub ssa_county_code: Option<String>,
    pub ssa_state_code: Option<String>,
    pub state_region_code: Option<String>,
    pub region_code: Option<String>,
    pub fips_state_code: Option<String>,
    pub fips_county_code: Option<String>,
    pub cbsa_code: Option<String>,
    pub cbsa_urban_rural_indicator: Option<String>,
}

/// A provider record keyed by its certification number. Staffing
/// counts keep the raw field text after sentinel suppression, for the
/// store edge to interpret numerically.
#[derive(Debug)]
pub struct Provider {
    pub cms_certification_number: String,
    /// Store-assigned address surrogate key, absent until linked.
    pub address_id: Option<i32>,
    pub name: Option<String>,
    pub provider_subtype_id: Option<i32>,
    pub medicaid_vendor_number: Option<String>,
    pub provider_type_id: Option<i32>,
    pub original_participation_date: Option<Date>,
    pub certification_date: Option<Date>,
    pub termination_expiration_date: Option<Date>,
    pub change_of_ownership_date: Option<Date>,
    pub asc_begin_service_date: Option<Date>,
    pub processing_date: Option<Date>,
    pub phone_number: Option<String>,
    pub fax_number: Option<String>,
    pub accreditation_type_code: Option<String>,
    pub intermediary_carrier_code: Option<String>,
    pub acceptable_poc_switch: Option<bool>,
    pub fiscal_year_end_date: Option<String>,
    pub compliance_status_code: Option<String>,
    pub certification_action_type_code: Option<String>,
    pub bed_count: Option<i32>,
    pub certified_bed_count: Option<i32>,
    pub hospice_bed_count: Option<i32>,
    pub aids_bed_count: Option<i32>,
    pub alzheimer_bed_count: Option<i32>,
    pub dialysis_bed_count: Option<i32>,
    pub disabled_children_bed_count: Option<i32>,
    pub head_trauma_bed_count: Option<i32>,
    pub huntington_disease_bed_count: Option<i32>,
    pub medicare_medicaid_snf_bed_count: Option<i32>,
    pub medicare_snf_bed_count: Option<i32>,
    pub rehab_bed_count: Option<i32>,
    pub ventilator_bed_count: Option<i32>,
    pub lpn_lvn_count: Option<String>,
    pub rn_count: Option<String>,
    pub employee_count: Option<String>,
    pub change_of_ownership_switch: Option<bool>,
    pub hospital_based_switch: Option<bool>,
    pub multi_owned_facility_switch: Option<bool>,
    pub clia_lab_number: Option<String>,
    pub facility_category_code: Option<String>,
    pub ownership_type_code: Option<String>,
}

/// One decoded row of the provider-of-services table, before it is
/// split into its address and provider parts.
#[derive(Debug)]
pub struct ProviderOfServiceRow {
    pub cms_certification_number: String,
    pub street_address: Option<String>,
    pub city: Option<String>,
    pub state_code: Option<String>,
    pub zip_code: Option<String>,
    pub ssa_county_code: Option<String>,
    pub ssa_state_code: Option<String>,
    pub state_region_code: Option<String>,
    pub region_code: Option<String>,
    pub fips_state_code: Option<String>,
    pub fips_county_code: Option<String>,
    pub cbsa_code: Option<String>,
    pub cbsa_urban_rural_indicator: Option<String>,
    pub name: Option<String>,
    pub provider_subtype_id: Option<i32>,
    pub medicaid_vendor_number: Option<String>,
    pub provider_type_id: Option<i32>,
    pub original_participation_date: Option<Date>,
    pub certification_date: Option<Date>,
    pub termination_expiration_date: Option<Date>,
    pub change_of_ownership_date: Option<Date>,
    pub asc_begin_service_date: Option<Date>,
    pub processing_date: Option<Date>,
    pub phone_number: Option<String>,
    pub fax_number: Option<String>,
    pub accreditation_type_code: Option<String>,
    pub intermediary_carrier_code: Option<String>,
    pub acceptable_poc_switch: Option<bool>,
    pub fiscal_year_end_date: Option<String>,
    pub compliance_status_code: Option<String>,
    pub certification_action_type_code: Option<String>,
    pub bed_count: Option<i32>,
    pub certified_bed_count: Option<i32>,
    pub hospice_bed_count: Option<i32>,
    pub aids_bed_count: Option<i32>,
    pub alzheimer_bed_count: Option<i32>,
    pub dialysis_bed_count: Option<i32>,
    pub disabled_children_bed_count: Option<i32>,
    pub head_trauma_bed_count: Option<i32>,
    pub huntington_disease_bed_count: Option<i32>,
    pub medicare_medicaid_snf_bed_count: Option<i32>,
    pub medicare_snf_bed_count: Option<i32>,
    pub rehab_bed_count: Option<i32>,
    pub ventilator_bed_count: Option<i32>,
    pub lpn_lvn_count: Option<String>,
    pub rn_count: Option<String>,
    pub employee_count: Option<String>,
    pub change_of_ownership_switch: Option<bool>,
    pub hospital_based_switch: Option<bool>,
    pub multi_owned_facility_switch: Option<bool>,
    pub clia_lab_number: Option<String>,
    pub facility_category_code: Option<String>,
    pub ownership_type_code: Option<String>,
}

/// The address part of a decoded row, with its surrogate key absent.
pub open spec fn address_of_row(row: ProviderOfServiceRow) -> Address {
    Address {
        id: None,
        street_address: row.street_address,
        city: row.city,
        state_code: row.state_code,
        zip_code: row.zip_code,
        ssa_county_code: row.ssa_county_code,
        ssa_state_code: row.ssa_state_code,
        state_region_code: row.state_region_code,
        region_code: row.region_code,
        fips_state_code: row.fips_state_code,
        fips_county_code: row.fips_county_code,
        cbsa_code: row.cbsa_code,
        cbsa_urban_rural_indicator: row.cbsa_urban_rural_indicator,
    }
}

/// The provider part of a decoded row, with its address reference
/// unresolved.
pub open spec fn provider_of_row(row: ProviderOfServiceRow) -> Provider {
    Provider {
        cms_certification_number: row.cms_certification_number,
        address_id: None,
        name: row.name,
        provider_subtype_id: row.provider_subtype_id,
        medicaid_vendor_number: row.medicaid_vendor_number,
        provider_type_id: row.provider_type_id,
        original_participation_date: row.original_participation_date,
        certification_date: row.certification_date,
        termination_expiration_date: row.termination_expiration_date,
        change_of_ownership_date: row.change_of_ownership_date,
        asc_begin_service_date: row.asc_begin_service_date,
        processing_date: row.processing_date,
        phone_number: row.phone_number,
        fax_number: row.fax_number,
        accreditation_type_code: row.accreditation_type_code,
        intermediary_carrier_code: row.intermediary_carrier_code,
        acceptable_poc_switch: row.acceptable_poc_switch,
        fiscal_year_end_date: row.fiscal_year_end_date,
        compliance_status_code: row.compliance_status_code,
        certification_action_type_code: row.certification_action_type_code,
        bed_count: row.bed_count,
        certified_bed_count: row.certified_bed_count,
        hospice_bed_count: row.hospice_bed_count,
        aids_bed_count: row.aids_bed_count,
        alzheimer_bed_count: row.alzheimer_bed_count,
        dialysis_bed_count: row.dialysis_bed_count,
        disabled_children_bed_count: row.disabled_children_bed_count,
        head_trauma_bed_count: row.head_trauma_bed_count,
        huntington_disease_bed_count: row.huntington_disease_bed_count,
        medicare_medicaid_snf_bed_count: row.medicare_medicaid_snf_bed_count,
        medicare_snf_bed_count: row.medicare_snf_bed_count,
        rehab_bed_count: row.rehab_bed_count,
        ventilator_bed_count: row.ventilator_bed_count,
        lpn_lvn_count: row.lpn_lvn_count,
        rn_count: row.rn_count,
        employee_count: row.employee_count,
        change_of_ownership_switch: row.change_of_ownership_switch,
        hospital_based_switch: row.hospital_based_switch,
        multi_owned_facility_switch: row.multi_owned_facility_switch,
        clia_lab_number: row.clia_lab_number,
        facility_category_code: row.facility_category_code,
        ownership_type_code: row.ownership_type_code,
    }
}

impl From<ProviderOfServiceRow> for Address {
    /// Splits the address part out of a decoded row; the surrogate key
    /// starts absent.
    fn from(row: ProviderOfServiceRow) -> (a: Address) {
        Address {
            id: None,
            street_address: row.street_address,
            city: row.city,
            state_code: row.state_code,
            zip_code: row.zip_code,
            ssa_county_code: row.ssa_county_code,
            ssa_state_code: row.ssa_state_code,
            state_region_code: row.state_region_code,
            region_code: row.region_code,
            fips_state_code: row.fips_state_code,
            fips_county_code: row.fips_county_code,
            cbsa_code: row.cbsa_code,
            cbsa_urban_rural_indicator: row.cbsa_urban_rural_indicator,
        }
    }
}

impl vstd::std_specs::convert::FromSpecImpl<ProviderOfServiceRow> for Address {
    open spec fn obeys_from_spec() -> bool {
        true
    }

    open spec fn from_spec(row: ProviderOfServiceRow) -> Address {
        address_of_row(row)
    }
}

impl From<ProviderOfServiceRow> for Provider {
    /// Splits the provider part out of a decoded row; the address
    /// reference stays unresolved until surrogate keys come back from
    /// the store.
    fn from(row: ProviderOfServiceRow) -> (p: Provider) {
        Provider {
            cms_certification_number: row.cms_certification_number,
            address_id: None,
            name: row.name,
            provider_subtype_id: row.provider_subtype_id,
            medicaid_vendor_number: row.medicaid_vendor_number,
            provider_type_id: row.provider_type_id,
            original_participation_date: row.original_participation_date,
            certification_date: row.certification_date,
            termination_expiration_date: row.termination_expiration_date,
            change_of_ownership_date: row.change_of_ownership_date,
            asc_begin_service_date: row.asc_begin_service_date,
            processing_date: row.processing_date,
            phone_number: row.phone_number,
            fax_number: row.fax_number,
            accreditation_type_code: row.accreditation_type_code,
            intermediary_carrier_code: row.intermediary_carrier_code,
            acceptable_poc_switch: row.acceptable_poc_switch,
            fiscal_year_end_date: row.fiscal_year_end_date,
            compliance_status_code: row.compliance_status_code,
            certification_action_type_code: row.certification_action_type_code,
            bed_count: row.bed_count,
            certified_bed_count: row.certified_bed_count,
            hospice_bed_count: row.hospice_bed_count,
            aids_bed_count: row.aids_bed_count,
            alzheimer_bed_count: row.alzheimer_bed_count,
            dialysis_bed_count: row.dialysis_bed_count,
            disabled_children_bed_count: row.disabled_children_bed_count,
            head_trauma_bed_count: row.head_trauma_bed_count,
            huntington_disease_bed_count: row.huntington_disease_bed_count,
            medicare_medicaid_snf_bed_count: row.medicare_medicaid_snf_bed_count,
            medicare_snf_bed_count: row.medicare_snf_bed_count,
            rehab_bed_count: row.rehab_bed_count,
            ventilator_bed_count: row.ventilator_bed_count,
            lpn_lvn_count: row.lpn_lvn_count,
            rn_count: row.rn_count,
            employee_count: row.employee_count,
            change_of_ownership_switch: row.change_of_ownership_switch,
            hospital_based_switch: row.hospital_based_switch,
            multi_owned_facility_switch: row.multi_owned_facility_switch,
            clia_lab_number: row.clia_lab_number,
            facility_category_code: row.facility_category_code,
            ownership_type_code: row.ownership_type_code,
        }
    }
}

impl vstd::std_specs::convert::FromSpecImpl<ProviderOfServiceRow> for Provider {
    open spec fn obeys_from_spec() -> bool {
        true
    }

    open spec fn from_spec(row: ProviderOfServiceRow) -> Provider {
        provider_of_row(row)
    }
}

/// The empty-string coercion the store's uniqueness constraint applies
/// to each identity column.
pub open spec fn coerced(o: Option<String>) -> Seq<char> {
    match o {
        Some(s) => s@,
        None => Seq::empty(),
    }
}

/// The composite dedup identity of a decoded row: its four coerced
/// address columns. This must agree bit for bit with the store's
/// uniqueness constraint.
pub open spec fn row_identity(r: ProviderOfServiceRow) -> (Seq<char>, Seq<char>, Seq<char>, Seq<char>) {
    (coerced(r.street_address), coerced(r.city), coerced(r.state_code), coerced(r.zip_code))
}

/// The same composite identity, read off a materialized address.
pub open spec fn address_identity(a: Address) -> (Seq<char>, Seq<char>, Seq<char>, Seq<char>) {
    (coerced(a.street_address), coerced(a.city), coerced(a.state_code), coerced(a.zip_code))
}

fn opt_eq_coerced(a: &Option<String>, b: &Option<String>) -> (r: bool)
    ensures
        r == (coerced(*a) == coerced(*b)),
{
    match (a, b) {
        (Some(x), Some(y)) => str_eq(x.as_str(), y.as_str()),
        (Some(x), None) => {
            let e = x.as_str().is_empty();
            proof {
                if x@.len() == 0 {
                    assert(x@ =~= Seq::<char>::empty());
                }
            }
            e
        },
        (None, Some(y)) => {
            let e = y.as_str().is_empty();
            proof {
                if y@.len() == 0 {
                    assert(y@ =~= Seq::<char>::empty());
                }
            }
            e
        },
        (None, None) => true,
    }
}

/// Compares two materialized addresses under the coerced composite
/// identity, exactly as the store's uniqueness constraint does.
pub fn addresses_same_identity(a: &Address, b: &Address) -> (eq: bool)
    ensures
        eq == (address_identity(*a) == address_identity(*b)),
{
    let s = opt_eq_coerced(&a.street_address, &b.street_address);
    let c = opt_eq_coerced(&a.city, &b.city);
    let st = opt_eq_coerced(&a.state_code, &b.state_code);
    let z = opt_eq_coerced(&a.zip_code, &b.zip_code);
    s && c && st && z
}

/// Compares an address on file with a fresh row under the coerced
/// composite identity.
pub fn same_identity(a: &Address, r: &ProviderOfServiceRow) -> (eq: bool)
    ensures
        eq == (address_identity(*a) == row_identity(*r)),
{
    let s = opt_eq_coerced(&a.street_address, &r.street_address);
    let c = opt_eq_coerced(&a.city, &r.city);
    let st = opt_eq_coerced(&a.state_code, &r.state_code);
    let z = opt_eq_coerced(&a.zip_code, &r.zip_code);
    s && c && st && z
}

pub(crate) fn clone_opt_string(o: &Option<String>) -> (r: Option<String>)
    ensures
        r == *o,
{
    match o {
        Some(s) => Some(s.clone()),
        None => None,
    }
}

impl ProviderOfServiceRow {
    /// An exact copy of the row, so the one decoded row can feed both
    /// the address split and the provider split.
    pub fn duplicate(&self) -> (r: ProviderOfServiceRow)
        ensures
            r == *self,
    {
        ProviderOfServiceRow {
            cms_certification_number: self.cms_certification_number.clone(),
            street_address: clone_opt_string(&self.street_address),
            city: clone_opt_string(&self.city),
            state_code: clone_opt_string(&self.state_code),
            zip_code: clone_opt_string(&self.zip_code),
            ssa_county_code: clone_opt_string(&self.ssa_county_code),
            ssa_state_code: clone_opt_string(&self.ssa_state_code),
            state_region_code: clone_opt_string(&self.state_region_code),
            region_code: clone_opt_string(&self.region_code),
            fips_state_code: clone_opt_string(&self.fips_state_code),
            fips_county_code: clone_opt_string(&self.fips_county_code),
            cbsa_code: clone_opt_string(&self.cbsa_code),
            cbsa_urban_rural_indicator: clone_opt_string(&self.cbsa_urban_rural_indicator),
            name: clone_opt_string(&self.name),
            provider_subtype_id: self.provider_subtype_id,
            medicaid_vendor_number: clone_opt_string(&self.medicaid_vendor_number),
            provider_type_id: self.provider_type_id,
            original_participation_date: self.original_participation_date,
            certification_date: self.certification_date,
            termination_expiration_date: self.termination_expiration_date,
            change_of_ownership_date: self.change_of_ownership_date,
            asc_begin_service_date: self.asc_begin_service_date,
            processing_date: self.processing_date,
            phone_number: clone_opt_string(&self.phone_number),
            fax_number: clone_opt_string(&self.fax_number),
            accreditation_type_code: clone_opt_string(&self.accreditation_type_code),
            intermediary_carrier_code: clone_opt_string(&self.intermediary_carrier_code),
            acceptable_poc_switch: self.acceptable_poc_switch,
            fiscal_year_end_date: clone_opt_string(&self.fiscal_year_end_date),
            compliance_status_code: clone_opt_string(&self.compliance_status_code),
            certification_action_type_code: clone_opt_string(&self.certification_action_type_code),
            bed_count: self.bed_count,
            certified_bed_count: self.certified_bed_count,
            hospice_bed_count: self.hospice_bed_count,
            aids_bed_count: self.aids_bed_count,
            alzheimer_bed_count: self.alzheimer_bed_count,
            dialysis_bed_count: self.dialysis_bed_count,
            disabled_children_bed_count: self.disabled_children_bed_count,
            head_trauma_bed_count: self.head_trauma_bed_count,
            huntington_disease_bed_count: self.huntington_disease_bed_count,
            medicare_medicaid_snf_bed_count: self.medicare_medicaid_snf_bed_count,
            medicare_snf_bed_count: self.medicare_snf_bed_count,
            rehab_bed_count: self.rehab_bed_count,
            ventilator_bed_count: self.ventilator_bed_count,
            lpn_lvn_count: clone_opt_string(&self.lpn_lvn_count),
            rn_count: clone_opt_string(&self.rn_count),
            employee_count: clone_opt_string(&self.employee_count),
            change_of_ownership_switch: self.change_of_ownership_switch,
            hospital_based_switch: self.hospital_based_switch,
            multi_owned_facility_switch: self.multi_owned_facility_switch,
            clia_lab_number: clone_opt_string(&self.clia_lab_number),
            facility_category_code: clone_opt_string(&self.facility_category_code),
            ownership_type_code: clone_opt_string(&self.ownership_type_code),
        }
    }
}

/// The view of a named-field row: each pair is a column name and the
/// raw text under it.
pub open spec fn fields_view(fields: Seq<(String, String)>) -> Seq<(Seq<char>, Seq<char>)> {
    fields.map_values(|p: (String, String)| (p.0@, p.1@))
}

/// First-match lookup of a column by name, as header-addressed decoding
/// requires: tolerant of column order, blind to position.
pub open spec fn spec_lookup(fv: Seq<(Seq<char>, Seq<char>)>, name: Seq<char>) -> Option<Seq<char>>
    decreases fv.len(),
{
    if fv.len() == 0 {
        None
    } else if fv[0].0 == name {
        Some(fv[0].1)
    } else {
        spec_lookup(fv.drop_first(), name)
    }
}

/// A text field: looked up by column name, then sentinel-suppressed.
pub open spec fn spec_str_field(fv: Seq<(Seq<char>, Seq<char>)>, name: Seq<char>) -> Option<Seq<char>> {
    match spec_lookup(fv, name) {
        Some(v) => spec_normalize_string(v),
        None => None,
    }
}

/// An integer field: looked up, sentinel-suppressed, then parsed;
/// parse failure degrades to absent.
pub open spec fn spec_i32_field(fv: Seq<(Seq<char>, Seq<char>)>, name: Seq<char>) -> Option<i32> {
    match spec_lookup(fv, name) {
        Some(v) => spec_parse_optional_i32(v),
        None => None,
    }
}

/// A boolean switch field under the "Yes"/"No" coding.
pub open spec fn spec_bool_field(fv: Seq<(Seq<char>, Seq<char>)>, name: Seq<char>) -> Option<bool> {
    match spec_lookup(fv, name) {
        Some(v) => spec_parse_yes_no(v),
        None => None,
    }
}

/// A date field under the two-format date coding.
pub open spec fn spec_date_field(fv: Seq<(Seq<char>, Seq<char>)>, name: Seq<char>) -> Option<Date> {
    match spec_lookup(fv, name) {
        Some(v) => spec_parse_optional_date(v),
        None => None,
    }
}

proof fn lemma_lookup_skip(fv: Seq<(Seq<char>, Seq<char>)>, name: Seq<char>, i: int)
    requires
        0 <= i <= fv.len(),
        forall|j: int| 0 <= j < i ==> (#[trigger] fv[j]).0 != name,
    ensures
        spec_lookup(fv, name) == spec_lookup(fv.skip(i), name),
    decreases i,
{
    if i > 0 {
        lemma_lookup_skip(fv.drop_first(), name, i - 1);
        assert(fv.drop_first().skip(i - 1) =~= fv.skip(i));
        assert(fv[0].0 != name);
    } else {
        assert(fv.skip(0) =~= fv);
    }
}

/// Finds the raw text under a column name, cloning it out of the row.
pub fn lookup_field(fields: &Vec<(String, String)>, name: &str) -> (r: Option<String>)
    ensures
        opt_str_view(r) == spec_lookup(fields_view(fields@), name@),
{
    let ghost fv = fields_view(fields@);
    let n = fields.len();
    let mut i: usize = 0;
    while i < n
        invariant
            n == fields@.len(),
            i <= n,
            fv == fields_view(fields@),
            forall|j: int| 0 <= j < i ==> (#[trigger] fv[j]).0 != name@,
        decreases n - i,
    {
        if str_eq(fields[i].0.as_str(), name) {
            proof {
                lemma_lookup_skip(fv, name@, i as int);
                assert(fv.skip(i as int)[0] == fv[i as int]);
            }
            return Some(fields[i].1.clone());
        }
        proof {
            assert(fv.skip(i as int)[0] == fv[i as int]);
        }
        i = i + 1;
    }
    proof {
        lemma_lookup_skip(fv, name@, i as int);
        assert(fv.skip(i as int) =~= Seq::empty());
    }
    None
}

fn str_field(fields: &Vec<(String, String)>, name: &str) -> (r: Option<String>)
    ensures
        opt_str_view(r) == spec_str_field(fields_view(fields@), name@),
{
    match lookup_field(fields, name) {
        Some(v) => normalize_string(v.as_str()),
        None => None,
    }
}

fn i32_field(fields: &Vec<(String, String)>, name: &str) -> (r: Option<i32>)
    ensures
        r == spec_i32_field(fields_view(fields@), name@),
{
    match lookup_field(fields, name) {
        Some(v) => parse_optional_i32(v.as_str()),
        None => None,
    }
}

fn bool_field(fields: &Vec<(String, String)>, name: &str) -> (r: Option<bool>)
    ensures
        r == spec_bool_field(fields_view(fields@), name@),
{
    match lookup_field(fields, name) {
        Some(v) => parse_yes_no(v.as_str()),
        None => None,
    }
}

fn date_field(fields: &Vec<(String, String)>, name: &str) -> (r: Option<Date>)
    ensures
        r == spec_date_field(fields_view(fields@), name@),
{
    match lookup_field(fields, name) {
        Some(v) => parse_optional_date(v.as_str()),
        None => None,
    }
}

/// What the record mapper owes for every decoded row: each field of the
/// typed record is its column's raw text run through that field's
/// normalization rule.
pub open spec fn row_matches_fields(row: ProviderOfServiceRow, fv: Seq<(Seq<char>, Seq<char>)>) -> bool {
    &&& Some(row.cms_certification_number@) == spec_lookup(fv, "prvdr_num"@)
    &&& opt_str_view(row.street_address) == spec_str_field(fv, "st_adr"@)
    &&& opt_str_view(row.city) == spec_str_field(fv, "city_name"@)
    &&& opt_str_view(row.state_code) == spec_str_field(fv, "state_cd"@)
    &&& opt_str_view(row.zip_code) == spec_str_field(fv, "zip_cd"@)
    &&& opt_str_view(row.ssa_county_code) == spec_str_field(fv, "ssa_cnty_cd"@)
    &&& opt_str_view(row.ssa_state_code) == spec_str_field(fv, "ssa_state_cd"@)
    &&& opt_str_view(row.state_region_code) == spec_str_field(fv, "state_rgn_cd"@)
    &&& opt_str_view(row.region_code) == spec_str_field(fv, "rgn_cd"@)
    &&& opt_str_view(row.fips_state_code) == spec_str_field(fv, "fips_state_cd"@)
    &&& opt_str_view(row.fips_county_code) == spec_str_field(fv, "fips_cnty_cd"@)
    &&& opt_str_view(row.cbsa_code) == spec_str_field(fv, "cbsa_cd"@)
    &&& opt_str_view(row.cbsa_urban_rural_indicator) == spec_str_field(fv, "cbsa_urbn_rrl_ind"@)
    &&& opt_str_view(row.name) == spec_str_field(fv, "fac_name"@)
    &&& row.provider_subtype_id == spec_i32_field(fv, "prvdr_sbtyp_id"@)
    &&& opt_str_view(row.medicaid_vendor_number) == spec_str_field(fv, "mdcd_vndr_num"@)
    &&& row.provider_type_id == spec_i32_field(fv, "prvdr_type_id"@)
    &&& row.original_participation_date == spec_date_field(fv, "orgnl_prtcptn_dt"@)
    &&& row.certification_date == spec_date_field(fv, "crtfctn_dt"@)
    &&& row.termination_expiration_date == spec_date_field(fv, "trmntn_exprtn_dt"@)
    &&& row.change_of_ownership_date == spec_date_field(fv, "chow_dt"@)
    &&& row.asc_begin_service_date == spec_date_field(fv, "asc_bgn_srvc_dt"@)
    &&& row.processing_date == spec_date_field(fv, "processing_date"@)
    &&& opt_str_view(row.phone_number) == spec_str_field(fv, "phne_num"@)
    &&& opt_str_view(row.fax_number) == spec_str_field(fv, "fax_phne_num"@)
    &&& opt_str_view(row.accreditation_type_code) == spec_str_field(fv, "acrdtn_type_cd"@)
    &&& opt_str_view(row.intermediary_carrier_code) == spec_str_field(fv, "intrmdry_carr_cd"@)
    &&& row.acceptable_poc_switch == spec_bool_field(fv, "acptbl_poc_sw"@)
    &&& opt_str_view(row.fiscal_year_end_date) == spec_str_field(fv, "fy_end_mo_day_cd"@)
    &&& opt_str_view(row.compliance_status_code) == spec_str_field(fv, "cmplnc_stus_cd"@)
    &&& opt_str_view(row.certification_action_type_code) == spec_str_field(fv, "crtfctn_actn_type_cd"@)
    &&& row.bed_count == spec_i32_field(fv, "bed_cnt"@)
    &&& row.certified_bed_count == spec_i32_field(fv, "crtfd_bed_cnt"@)
    &&& row.hospice_bed_count == spec_i32_field(fv, "hospc_bed_cnt"@)
    &&& row.aids_bed_count == spec_i32_field(fv, "aids_bed_cnt"@)
    &&& row.alzheimer_bed_count == spec_i32_field(fv, "alzhmr_bed_cnt"@)
    &&& row.dialysis_bed_count == spec_i32_field(fv, "dlys_bed_cnt"@)
    &&& row.disabled_children_bed_count == spec_i32_field(fv, "dsbl_chldrn_bed_cnt"@)
    &&& row.head_trauma_bed_count == spec_i32_field(fv, "head_trma_bed_cnt"@)
    &&& row.huntington_disease_bed_count == spec_i32_field(fv, "hntgtn_dease_bed_cnt"@)
    &&& row.medicare_medicaid_snf_bed_count == spec_i32_field(fv, "mdcr_mdcd_snf_bed_cnt"@)
    &&& row.medicare_snf_bed_count == spec_i32_field(fv, "mdcr_snf_bed_cnt"@)
    &&& row.rehab_bed_count == spec_i32_field(fv, "rehab_bed_cnt"@)
    &&& row.ventilator_bed_count == spec_i32_field(fv, "vntltr_bed_cnt"@)
    &&& opt_str_view(row.lpn_lvn_count) == spec_str_field(fv, "lpn_lvn_cnt"@)
    &&& opt_str_view(row.rn_count) == spec_str_field(fv, "rn_cnt"@)
    &&& opt_str_view(row.employee_count) == spec_str_field(fv, "emplee_cnt"@)
    &&& row.change_of_ownership_switch == spec_bool_field(fv, "chow_sw"@)
    &&& row.hospital_based_switch == spec_bool_field(fv, "hosp_bsd_sw"@)
    &&& row.multi_owned_facility_switch == spec_bool_field(fv, "mlt_ownd_fac_org_sw"@)
    &&& opt_str_view(row.clia_lab_number) == spec_str_field(fv, "clia_lb_nb"@)
    &&& opt_str_view(row.facility_category_code) == spec_str_field(fv, "gnrl_fac_type_cd"@)
    &&& opt_str_view(row.ownership_type_code) == spec_str_field(fv, "control_type"@)
}

/// The record mapper: decodes one row of named string fields into a
/// typed record, or fails when the required natural-key column is
/// structurally missing. All other fields degrade to absent under
/// their normalization rules; none of them can fail the row.
pub fn map_row(fields: &Vec<(String, String)>) -> (r: Result<ProviderOfServiceRow, LoadError>)
    ensures
        match r {
            Ok(row) => spec_lookup(fields_view(fields@), "prvdr_num"@) is Some
                && row_matches_fields(row, fields_view(fields@)),
            Err(e) => e == LoadError::MalformedRow
                && spec_lookup(fields_view(fields@), "prvdr_num"@) is None,
        },
{
    let key = match lookup_field(fields, "prvdr_num") {
        Some(v) => v,
        None => {
            return Err(LoadError::MalformedRow);
        },
    };
    Ok(ProviderOfServiceRow {
        cms_certification_number: key,
        street_address: str_field(fields, "st_adr"),
        city: str_field(fields, "city_name"),
        state_code: str_field(fields, "state_cd"),
        zip_code: str_field(fields, "zip_cd"),
        ssa_county_code: str_field(fields, "ssa_cnty_cd"),
        ssa_state_code: str_field(fields, "ssa_state_cd"),
        state_region_code: str_field(fields, "state_rgn_cd"),
        region_code: str_field(fields, "rgn_cd"),
        fips_state_code: str_field(fields, "fips_state_cd"),
        fips_county_code: str_field(fields, "fips_cnty_cd"),
        cbsa_code: str_field(fields, "cbsa_cd"),
        cbsa_urban_rural_indicator: str_field(fields, "cbsa_urbn_rrl_ind"),
        name: str_field(fields, "fac_name"),
        provider_subtype_id: i32_field(fields, "prvdr_sbtyp_id"),
        medicaid_vendor_number: str_field(fields, "mdcd_vndr_num"),
        provider_type_id: i32_field(fields, "prvdr_type_id"),
        original_participation_date: date_field(fields, "orgnl_prtcptn_dt"),
        certification_date: date_field(fields, "crtfctn_dt"),
        termination_expiration_date: date_field(fields, "trmntn_exprtn_dt"),
        change_of_ownership_date: date_field(fields, "chow_dt"),
        asc_begin_service_date: date_field(fields, "asc_bgn_srvc_dt"),
        processing_date: date_field(fields, "processing_date"),
        phone_number: str_field(fields, "phne_num"),
        fax_number: str_field(fields, "fax_phne_num"),
        accreditation_type_code: str_field(fields, "acrdtn_type_cd"),
        intermediary_carrier_code: str_field(fields, "intrmdry_carr_cd"),
        acceptable_poc_switch: bool_field(fields, "acptbl_poc_sw"),
        fiscal_year_end_date: str_field(fields, "fy_end_mo_day_cd"),
        compliance_status_code: str_field(fields, "cmplnc_stus_cd"),
        certification_action_type_code: str_field(fields, "crtfctn_actn_type_cd"),
        bed_count: i32_field(fields, "bed_cnt"),
        certified_bed_count: i32_field(fields, "crtfd_bed_cnt"),
        hospice_bed_count: i32_field(fields, "hospc_bed_cnt"),
        aids_bed_count: i32_field(fields, "aids_bed_cnt"),
        alzheimer_bed_count: i32_field(fields, "alzhmr_bed_cnt"),
        dialysis_bed_count: i32_field(fields, "dlys_bed_cnt"),
        disabled_children_bed_count: i32_field(fields, "dsbl_chldrn_bed_cnt"),
        head_trauma_bed_count: i32_field(fields, "head_trma_bed_cnt"),
        huntington_disease_bed_count: i32_field(fields, "hntgtn_dease_bed_cnt"),
        medicare_medicaid_snf_bed_count: i32_field(fields, "mdcr_mdcd_snf_bed_cnt"),
        medicare_snf_bed_count: i32_field(fields, "mdcr_snf_bed_cnt"),
        rehab_bed_count: i32_field(fields, "rehab_bed_cnt"),
        ventilator_bed_count: i32_field(fields, "vntltr_bed_cnt"),
        lpn_lvn_count: str_field(fields, "lpn_lvn_cnt"),
        rn_count: str_field(fields, "rn_cnt"),
        employee_count: str_field(fields, "emplee_cnt"),
        change_of_ownership_switch: bool_field(fields, "chow_sw"),
        hospital_based_switch: bool_field(fields, "hosp_bsd_sw"),
        multi_owned_facility_switch: bool_field(fields, "mlt_ownd_fac_org_sw"),
        clia_lab_number: str_field(fields, "clia_lb_nb"),
        facility_category_code: str_field(fields, "gnrl_fac_type_cd"),
        ownership_type_code: str_field(fields, "control_type"),
    })
}

} // verus!
