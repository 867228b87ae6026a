use vstd::prelude::*;
use vstd::string::StringSliceAdditionalSpecFns;
use crate::text::{dec_digits, format_u32_dec, slice_eq};

verus! {

/// An Autonomous System Number: an opaque 32-bit identifier of an
/// independently routed network.
#[derive(Debug, Clone, Copy, PartialEq, Eq, Hash, Structural)]
pub struct Asn(pub u32);

impl Asn {
    /// The canonical rendering of an AS number: `AS` followed by its
    /// decimal digits.
    pub fn code(&self) -> (v: Vec<u8>)
        ensures
            v@ == seq![65u8, 83u8] + dec_digits(self.0 as int),
    {
        let mut v: Vec<u8> = Vec::new();
        v.push(65);
        v.push(83);
        let digits = format_u32_dec(self.0);
        let n = digits.len();
        proof {
            assert(v@ =~= seq![65u8, 83u8] + digits@.subrange(0, 0));
        }
        let mut i: usize = 0;
        while i < n
            invariant
                n == digits@.len(),
                0 <= i <= n,
                v@ == seq![65u8, 83u8] + digits@.subrange(0, i as int),
            decreases n - i,
        {
            v.push(digits[i]);
            proof {
                assert(v@ =~= seq![65u8, 83u8] + digits@.subrange(0, i as int + 1));
            }
            i += 1;
        }
        proof {
            assert(digits@.subrange(0, n as int) =~= digits@);
        }
        v
    }
}

/// A PeeringDB organization record.
#[derive(Debug, Clone, PartialEq, Eq)]
pub struct Organization {
    pub id: usize,
    pub name: String,
    pub url: String,
}

/// The geographic scope of a network, as recorded by PeeringDB.
#[derive(Debug, Clone, Copy, PartialEq, Eq, Structural)]
pub enum GeographicScope {
    Regional,
    NorthAmerica,
    AsiaPacific,
    Europe,
    SouthAmerica,
    Africa,
    Australia,
    MiddleEast,
    Global,
    Other,
}

pub open spec fn scope_from_peeringdb_spec(s: Seq<u8>) -> GeographicScope {
    if s == "Regional".spec_bytes() {
        GeographicScope::Regional
    } else if s == "North America".spec_bytes() {
        GeographicScope::NorthAmerica
    } else if s == "Asia Pacific".spec_bytes() {
        GeographicScope::AsiaPacific
    } else if s == "Europe".spec_bytes() {
        GeographicScope::Europe
    } else if s == "South America".spec_bytes() {
        GeographicScope::SouthAmerica
    } else if s == "Africa".spec_bytes() {
        GeographicScope::Africa
    } else if s == "Australia".spec_bytes() {
        GeographicScope::Australia
    } else if s == "Middle East".spec_bytes() {
        GeographicScope::MiddleEast
    } else if s == "Global".spec_bytes() {
        GeographicScope::Global
    } else {
        GeographicScope::Other
    }
}

pub open spec fn country_is_north_america(s: Seq<u8>) -> bool {
    ||| s == "CA".spec_bytes()
    ||| s == "US".spec_bytes()
    ||| s == "MX".spec_bytes()
    ||| s == "BZ".spec_bytes()
    ||| s == "CR".spec_bytes()
    ||| s == "SV".spec_bytes()
    ||| s == "GT".spec_bytes()
    ||| s == "HN".spec_bytes()
    ||| s == "NI".spec_bytes()
    ||| s == "PA".spec_bytes()
    ||| s == "AI".spec_bytes()
    ||| s == "AG".spec_bytes()
    ||| s == "AW".spec_bytes()
    ||| s == "BS".spec_bytes()
    ||| s == "BB".spec_bytes()
    ||| s == "BM".spec_bytes()
    ||| s == "VG".spec_bytes()
    ||| s == "KY".spec_bytes()
    ||| s == "CU".spec_bytes()
    ||| s == "CW".spec_bytes()
    ||| s == "DM".spec_bytes()
    ||| s == "DO".spec_bytes()
    ||| s == "GD".spec_bytes()
    ||| s == "GP".spec_bytes()
    ||| s == "HT".spec_bytes()
    ||| s == "JM".spec_bytes()
    ||| s == "MQ".spec_bytes()
    ||| s == "MS".spec_bytes()
    ||| s == "PR".spec_bytes()
    ||| s == "BL".spec_bytes()
    ||| s == "KN".spec_bytes()
    ||| s == "LC".spec_bytes()
    ||| s == "MF".spec_bytes()
    ||| s == "PM".spec_bytes()
    ||| s == "VC".spec_bytes()
    ||| s == "SX".spec_bytes()
    ||| s == "TT".spec_bytes()
    ||| s == "TC".spec_bytes()
    ||| s == "VI".spec_bytes()
    ||| s == "GL".spec_bytes()
}

pub open spec fn country_is_south_america(s: Seq<u8>) -> bool {
    ||| s == "AR".spec_bytes()
    ||| s == "BO".spec_bytes()
    ||| s == "BR".spec_bytes()
    ||| s == "CL".spec_bytes()
    ||| s == "CO".spec_bytes()
    ||| s == "EC".spec_bytes()
    ||| s == "FK".spec_bytes()
    ||| s == "GF".spec_bytes()
    ||| s == "GY".spec_bytes()
    ||| s == "PY".spec_bytes()
    ||| s == "PE".spec_bytes()
    ||| s == "SR".spec_bytes()
    ||| s == "UY".spec_bytes()
    ||| s == "VE".spec_bytes()
}

pub open spec fn country_is_europe(s: Seq<u8>) -> bool {
    ||| s == "AL".spec_bytes()
    ||| s == "AD".spec_bytes()
    ||| s == "AM".spec_bytes()
    ||| s == "AT".spec_bytes()
    ||| s == "AZ".spec_bytes()
    ||| s == "BY".spec_bytes()
    ||| s == "BE".spec_bytes()
    ||| s == "BA".spec_bytes()
    ||| s == "BG".spec_bytes()
    ||| s == "HR".spec_bytes()
    ||| s == "CY".spec_bytes()
    ||| s == "CZ".spec_bytes()
    ||| s == "DK".spec_bytes()
    ||| s == "EE".spec_bytes()
    ||| s == "FI".spec_bytes()
    ||| s == "FR".spec_bytes()
    ||| s == "GE".spec_bytes()
    ||| s == "DE".spec_bytes()
    ||| s == "GR".spec_bytes()
    ||| s == "HU".spec_bytes()
    ||| s == "IS".spec_bytes()
    ||| s == "IE".spec_bytes()
    ||| s == "IT".spec_bytes()
    ||| s == "XK".spec_bytes()
    ||| s == "LV".spec_bytes()
    ||| s == "LI".spec_bytes()
    ||| s == "LT".spec_bytes()
    ||| s == "LU".spec_bytes()
    ||| s == "MK".spec_bytes()
    ||| s == "MT".spec_bytes()
    ||| s == "MD".spec_bytes()
    ||| s == "MC".spec_bytes()
    ||| s == "ME".spec_bytes()
    ||| s == "NL".spec_bytes()
    ||| s == "NO".spec_bytes()
    ||| s == "PL".spec_bytes()
    ||| s == "PT".spec_bytes()
    ||| s == "RO".spec_bytes()
    ||| s == "RU".spec_bytes()
    ||| s == "SM".spec_bytes()
    ||| s == "RS".spec_bytes()
    ||| s == "SK".spec_bytes()
    ||| s == "SI".spec_bytes()
    ||| s == "ES".spec_bytes()
    ||| s == "SE".spec_bytes()
    ||| s == "CH".spec_bytes()
    ||| s == "TR".spec_bytes()
    ||| s == "UA".spec_bytes()
    ||| s == "GB".spec_bytes()
    ||| s == "VA".spec_bytes()
    ||| s == "AX".spec_bytes()
    ||| s == "GG".spec_bytes()
    ||| s == "JE".spec_bytes()
    ||| s == "IM".spec_bytes()
    ||| s == "FO".spec_bytes()
    ||| s == "GI".spec_bytes()
    ||| s == "SJ".spec_bytes()
}

pub open spec fn country_is_middle_east(s: Seq<u8>) -> bool {
    ||| s == "BH".spec_bytes()
    ||| s == "EG".spec_bytes()
    ||| s == "IR".spec_bytes()
    ||| s == "IQ".spec_bytes()
    ||| s == "IL".spec_bytes()
    ||| s == "JO".spec_bytes()
    ||| s == "KW".spec_bytes()
    ||| s == "LB".spec_bytes()
    ||| s == "OM".spec_bytes()
    ||| s == "PS".spec_bytes()
    ||| s == "QA".spec_bytes()
    ||| s == "SA".spec_bytes()
    ||| s == "SY".spec_bytes()
    ||| s == "AE".spec_bytes()
    ||| s == "YE".spec_bytes()
}

pub open spec fn country_is_africa(s: Seq<u8>) -> bool {
    ||| s == "DZ".spec_bytes()
    ||| s == "AO".spec_bytes()
    ||| s == "BJ".spec_bytes()
    ||| s == "BW".spec_bytes()
    ||| s == "BF".spec_bytes()
    ||| s == "BI".spec_bytes()
    ||| s == "CM".spec_bytes()
    ||| s == "CV".spec_bytes()
    ||| s == "CF".spec_bytes()
    ||| s == "TD".spec_bytes()
    ||| s == "KM".spec_bytes()
    ||| s == "CG".spec_bytes()
    ||| s == "CD".spec_bytes()
    ||| s == "CI".spec_bytes()
    ||| s == "DJ".spec_bytes()
    ||| s == "GQ".spec_bytes()
    ||| s == "ER".spec_bytes()
    ||| s == "SZ".spec_bytes()
    ||| s == "ET".spec_bytes()
    ||| s == "GA".spec_bytes()
    ||| s == "GM".spec_bytes()
    ||| s == "GH".spec_bytes()
    ||| s == "GN".spec_bytes()
    ||| s == "GW".spec_bytes()
    ||| s == "KE".spec_bytes()
    ||| s == "LS".spec_bytes()
    ||| s == "LR".spec_bytes()
    ||| s == "LY".spec_bytes()
    ||| s == "MG".spec_bytes()
    ||| s == "MW".spec_bytes()
    ||| s == "ML".spec_bytes()
    ||| s == "MR".spec_bytes()
    ||| s == "MU".spec_bytes()
    ||| s == "YT".spec_bytes()
    ||| s == "MA".spec_bytes()
    ||| s == "MZ".spec_bytes()
    ||| s == "NA".spec_bytes()
    ||| s == "NE".spec_bytes()
    ||| s == "NG".spec_bytes()
    ||| s == "RE".spec_bytes()
    ||| s == "RW".spec_bytes()
    ||| s == "ST".spec_bytes()
    ||| s == "SN".spec_bytes()
    ||| s == "SC".spec_bytes()
    ||| s == "SL".spec_bytes()
    ||| s == "SO".spec_bytes()
    ||| s == "ZA".spec_bytes()
    ||| s == "SS".spec_bytes()
    ||| s == "SD".spec_bytes()
    ||| s == "TZ".spec_bytes()
    ||| s == "TG".spec_bytes()
    ||| s == "TN".spec_bytes()
    ||| s == "UG".spec_bytes()
    ||| s == "EH".spec_bytes()
    ||| s == "ZM".spec_bytes()
    ||| s == "ZW".spec_bytes()
    ||| s == "SH".spec_bytes()
}

pub open spec fn country_is_australia(s: Seq<u8>) -> bool {
    ||| s == "AU".spec_bytes()
    ||| s == "NZ".spec_bytes()
    ||| s == "FJ".spec_bytes()
    ||| s == "NC".spec_bytes()
    ||| s == "PG".spec_bytes()
    ||| s == "SB".spec_bytes()
    ||| s == "VU".spec_bytes()
    ||| s == "GU".spec_bytes()
    ||| s == "KI".spec_bytes()
    ||| s == "MH".spec_bytes()
    ||| s == "FM".spec_bytes()
    ||| s == "NR".spec_bytes()
    ||| s == "MP".spec_bytes()
    ||| s == "PW".spec_bytes()
    ||| s == "WS".spec_bytes()
    ||| s == "AS".spec_bytes()
    ||| s == "CK".spec_bytes()
    ||| s == "PF".spec_bytes()
    ||| s == "NU".spec_bytes()
    ||| s == "PN".spec_bytes()
    ||| s == "TK".spec_bytes()
    ||| s == "TO".spec_bytes()
    ||| s == "TV".spec_bytes()
    ||| s == "WF".spec_bytes()
    ||| s == "NF".spec_bytes()
    ||| s == "CX".spec_bytes()
    ||| s == "CC".spec_bytes()
    ||| s == "HM".spec_bytes()
    ||| s == "TF".spec_bytes()
    ||| s == "GS".spec_bytes()
    ||| s == "AQ".spec_bytes()
    ||| s == "BV".spec_bytes()
}

pub open spec fn country_is_asia_pacific(s: Seq<u8>) -> bool {
    ||| s == "AF".spec_bytes()
    ||| s == "BD".spec_bytes()
    ||| s == "BT".spec_bytes()
    ||| s == "BN".spec_bytes()
    ||| s == "KH".spec_bytes()
    ||| s == "CN".spec_bytes()
    ||| s == "HK".spec_bytes()
    ||| s == "IN".spec_bytes()
    ||| s == "ID".spec_bytes()
    ||| s == "JP".spec_bytes()
    ||| s == "KZ".spec_bytes()
    ||| s == "KP".spec_bytes()
    ||| s == "KR".spec_bytes()
    ||| s == "KG".spec_bytes()
    ||| s == "LA".spec_bytes()
    ||| s == "MO".spec_bytes()
    ||| s == "MY".spec_bytes()
    ||| s == "MV".spec_bytes()
    ||| s == "MN".spec_bytes()
    ||| s == "MM".spec_bytes()
    ||| s == "NP".spec_bytes()
    ||| s == "PK".spec_bytes()
    ||| s == "PH".spec_bytes()
    ||| s == "SG".spec_bytes()
    ||| s == "LK".spec_bytes()
    ||| s == "TW".spec_bytes()
    ||| s == "TJ".spec_bytes()
    ||| s == "TH".spec_bytes()
    ||| s == "TL".spec_bytes()
    ||| s == "TM".spec_bytes()
    ||| s == "UZ".spec_bytes()
    ||| s == "VN".spec_bytes()
    ||| s == "IO".spec_bytes()
}

/// The fixed partition of ISO country codes into regions. Antarctica codes
/// are grouped with Australia/Oceania; unrecognized codes map to `Other`.
pub open spec fn scope_from_country_spec(s: Seq<u8>) -> GeographicScope {
    if country_is_north_america(s) {
        GeographicScope::NorthAmerica
    } else if country_is_south_america(s) {
        GeographicScope::SouthAmerica
    } else if country_is_europe(s) {
        GeographicScope::Europe
    } else if country_is_middle_east(s) {
        GeographicScope::MiddleEast
    } else if country_is_africa(s) {
        GeographicScope::Africa
    } else if country_is_australia(s) {
        GeographicScope::Australia
    } else if country_is_asia_pacific(s) {
        GeographicScope::AsiaPacific
    } else {
        GeographicScope::Other
    }
}

impl GeographicScope {
    /// Decodes PeeringDB's `info_scope` column; unknown strings are `Other`.
    pub fn from_peeringdb_str(s: &str) -> (r: Self)
        ensures
            r == scope_from_peeringdb_spec(s.spec_bytes()),
    {
        let b = s.as_bytes();
        if slice_eq(b, "Regional".as_bytes()) {
            Self::Regional
        } else if slice_eq(b, "North America".as_bytes()) {
            Self::NorthAmerica
        } else if slice_eq(b, "Asia Pacific".as_bytes()) {
            Self::AsiaPacific
        } else if slice_eq(b, "Europe".as_bytes()) {
            Self::Europe
        } else if slice_eq(b, "South America".as_bytes()) {
            Self::SouthAmerica
        } else if slice_eq(b, "Africa".as_bytes()) {
            Self::Africa
        } else if slice_eq(b, "Australia".as_bytes()) {
            Self::Australia
        } else if slice_eq(b, "Middle East".as_bytes()) {
            Self::MiddleEast
        } else if slice_eq(b, "Global".as_bytes()) {
            Self::Global
        } else {
            Self::Other
        }
    }

    /// Infers a geographic scope from an ISO country code, using a fixed
    /// partition of codes into eight regions.
    pub fn from_country_code(c: &str) -> (r: Self)
        ensures
            r == scope_from_country_spec(c.spec_bytes()),
    {
        let b = c.as_bytes();
        if in_north_america(b) {
            Self::NorthAmerica
        } else if in_south_america(b) {
            Self::SouthAmerica
        } else if in_europe(b) {
            Self::Europe
        } else if in_middle_east(b) {
            Self::MiddleEast
        } else if in_africa(b) {
            Self::Africa
        } else if in_australia(b) {
            Self::Australia
        } else if in_asia_pacific(b) {
            Self::AsiaPacific
        } else {
            Self::Other
        }
    }
}

fn in_north_america(b: &[u8]) -> (r: bool)
    ensures
        r == country_is_north_america(b@),
{
    slice_eq(b, "CA".as_bytes()) || slice_eq(b, "US".as_bytes()) || slice_eq(b, "MX".as_bytes())
        || slice_eq(b, "BZ".as_bytes()) || slice_eq(b, "CR".as_bytes()) || slice_eq(
        b,
        "SV".as_bytes(),
    ) || slice_eq(b, "GT".as_bytes()) || slice_eq(b, "HN".as_bytes()) || slice_eq(
        b,
        "NI".as_bytes(),
    ) || slice_eq(b, "PA".as_bytes()) || slice_eq(b, "AI".as_bytes()) || slice_eq(
        b,
        "AG".as_bytes(),
    ) || slice_eq(b, "AW".as_bytes()) || slice_eq(b, "BS".as_bytes()) || slice_eq(
        b,
        "BB".as_bytes(),
    ) || slice_eq(b, "BM".as_bytes()) || slice_eq(b, "VG".as_bytes()) || slice_eq(
        b,
        "KY".as_bytes(),
    ) || slice_eq(b, "CU".as_bytes()) || slice_eq(b, "CW".as_bytes()) || slice_eq(
        b,
        "DM".as_bytes(),
    ) || slice_eq(b, "DO".as_bytes()) || slice_eq(b, "GD".as_bytes()) || slice_eq(
        b,
        "GP".as_bytes(),
    ) || slice_eq(b, "HT".as_bytes()) || slice_eq(b, "JM".as_bytes()) || slice_eq(
        b,
        "MQ".as_bytes(),
    ) || slice_eq(b, "MS".as_bytes()) || slice_eq(b, "PR".as_bytes()) || slice_eq(
        b,
        "BL".as_bytes(),
    ) || slice_eq(b, "KN".as_bytes()) || slice_eq(b, "LC".as_bytes()) || slice_eq(
        b,
        "MF".as_bytes(),
    ) || slice_eq(b, "PM".as_bytes()) || slice_eq(b, "VC".as_bytes()) || slice_eq(
        b,
        "SX".as_bytes(),
    ) || slice_eq(b, "TT".as_bytes()) || slice_eq(b, "TC".as_bytes()) || slice_eq(
        b,
        "VI".as_bytes(),
    ) || slice_eq(b, "GL".as_bytes())
}

fn in_south_america(b: &[u8]) -> (r: bool)
    ensures
        r == country_is_south_america(b@),
{
    slice_eq(b, "AR".as_bytes()) || slice_eq(b, "BO".as_bytes()) || slice_eq(b, "BR".as_bytes())
        || slice_eq(b, "CL".as_bytes()) || slice_eq(b, "CO".as_bytes()) || slice_eq(
        b,
        "EC".as_bytes(),
    ) || slice_eq(b, "FK".as_bytes()) || slice_eq(b, "GF".as_bytes()) || slice_eq(
        b,
        "GY".as_bytes(),
    ) || slice_eq(b, "PY".as_bytes()) || slice_eq(b, "PE".as_bytes()) || slice_eq(
        b,
        "SR".as_bytes(),
    ) || slice_eq(b, "UY".as_bytes()) || slice_eq(b, "VE".as_bytes())
}

fn in_europe(b: &[u8]) -> (r: bool)
    ensures
        r == country_is_europe(b@),
{
    slice_eq(b, "AL".as_bytes()) || slice_eq(b, "AD".as_bytes()) || slice_eq(b, "AM".as_bytes())
        || slice_eq(b, "AT".as_bytes()) || slice_eq(b, "AZ".as_bytes()) || slice_eq(
        b,
        "BY".as_bytes(),
    ) || slice_eq(b, "BE".as_bytes()) || slice_eq(b, "BA".as_bytes()) || slice_eq(
        b,
        "BG".as_bytes(),
    ) || slice_eq(b, "HR".as_bytes()) || slice_eq(b, "CY".as_bytes()) || slice_eq(
        b,
        "CZ".as_bytes(),
    ) || slice_eq(b, "DK".as_bytes()) || slice_eq(b, "EE".as_bytes()) || slice_eq(
        b,
        "FI".as_bytes(),
    ) || slice_eq(b, "FR".as_bytes()) || slice_eq(b, "GE".as_bytes()) || slice_eq(
        b,
        "DE".as_bytes(),
    ) || slice_eq(b, "GR".as_bytes()) || slice_eq(b, "HU".as_bytes()) || slice_eq(
        b,
        "IS".as_bytes(),
    ) || slice_eq(b, "IE".as_bytes()) || slice_eq(b, "IT".as_bytes()) || slice_eq(
        b,
        "XK".as_bytes(),
    ) || slice_eq(b, "LV".as_bytes()) || slice_eq(b, "LI".as_bytes()) || slice_eq(
        b,
        "LT".as_bytes(),
    ) || slice_eq(b, "LU".as_bytes()) || slice_eq(b, "MK".as_bytes()) || slice_eq(
        b,
        "MT".as_bytes(),
    ) || slice_eq(b, "MD".as_bytes()) || slice_eq(b, "MC".as_bytes()) || slice_eq(
        b,
        "ME".as_bytes(),
    ) || slice_eq(b, "NL".as_bytes()) || slice_eq(b, "NO".as_bytes()) || slice_eq(
        b,
        "PL".as_bytes(),
    ) || slice_eq(b, "PT".as_bytes()) || slice_eq(b, "RO".as_bytes()) || slice_eq(
        b,
        "RU".as_bytes(),
    ) || slice_eq(b, "SM".as_bytes()) || slice_eq(b, "RS".as_bytes()) || slice_eq(
        b,
        "SK".as_bytes(),
    ) || slice_eq(b, "SI".as_bytes()) || slice_eq(b, "ES".as_bytes()) || slice_eq(
        b,
        "SE".as_bytes(),
    ) || slice_eq(b, "CH".as_bytes()) || slice_eq(b, "TR".as_bytes()) || slice_eq(
        b,
        "UA".as_bytes(),
    ) || slice_eq(b, "GB".as_bytes()) || slice_eq(b, "VA".as_bytes()) || slice_eq(
        b,
        "AX".as_bytes(),
    ) || slice_eq(b, "GG".as_bytes()) || slice_eq(b, "JE".as_bytes()) || slice_eq(
        b,
        "IM".as_bytes(),
    ) || slice_eq(b, "FO".as_bytes()) || slice_eq(b, "GI".as_bytes()) || slice_eq(
        b,
        "SJ".as_bytes(),
    )
}

fn in_middle_east(b: &[u8]) -> (r: bool)
    ensures
        r == country_is_middle_east(b@),
{
    slice_eq(b, "BH".as_bytes()) || slice_eq(b, "EG".as_bytes()) || slice_eq(b, "IR".as_bytes())
        || slice_eq(b, "IQ".as_bytes()) || slice_eq(b, "IL".as_bytes()) || slice_eq(
        b,
        "JO".as_bytes(),
    ) || slice_eq(b, "KW".as_bytes()) || slice_eq(b, "LB".as_bytes()) || slice_eq(
        b,
        "OM".as_bytes(),
    ) || slice_eq(b, "PS".as_bytes()) || slice_eq(b, "QA".as_bytes()) || slice_eq(
        b,
        "SA".as_bytes(),
    ) || slice_eq(b, "SY".as_bytes()) || slice_eq(b, "AE".as_bytes()) || slice_eq(
        b,
        "YE".as_bytes(),
    )
}

fn in_africa(b: &[u8]) -> (r: bool)
    ensures
        r == country_is_africa(b@),
{
    slice_eq(b, "DZ".as_bytes()) || slice_eq(b, "AO".as_bytes()) || slice_eq(b, "BJ".as_bytes())
        || slice_eq(b, "BW".as_bytes()) || slice_eq(b, "BF".as_bytes()) || slice_eq(
        b,
        "BI".as_bytes(),
    ) || slice_eq(b, "CM".as_bytes()) || slice_eq(b, "CV".as_bytes()) || slice_eq(
        b,
        "CF".as_bytes(),
    ) || slice_eq(b, "TD".as_bytes()) || slice_eq(b, "KM".as_bytes()) || slice_eq(
        b,
        "CG".as_bytes(),
    ) || slice_eq(b, "CD".as_bytes()) || slice_eq(b, "CI".as_bytes()) || slice_eq(
        b,
        "DJ".as_bytes(),
    ) || slice_eq(b, "GQ".as_bytes()) || slice_eq(b, "ER".as_bytes()) || slice_eq(
        b,
        "SZ".as_bytes(),
    ) || slice_eq(b, "ET".as_bytes()) || slice_eq(b, "GA".as_bytes()) || slice_eq(
        b,
        "GM".as_bytes(),
    ) || slice_eq(b, "GH".as_bytes()) || slice_eq(b, "GN".as_bytes()) || slice_eq(
        b,
        "GW".as_bytes(),
    ) || slice_eq(b, "KE".as_bytes()) || slice_eq(b, "LS".as_bytes()) || slice_eq(
        b,
        "LR".as_bytes(),
    ) || slice_eq(b, "LY".as_bytes()) || slice_eq(b, "MG".as_bytes()) || slice_eq(
        b,
        "MW".as_bytes(),
    ) || slice_eq(b, "ML".as_bytes()) || slice_eq(b, "MR".as_bytes()) || slice_eq(
        b,
        "MU".as_bytes(),
    ) || slice_eq(b, "YT".as_bytes()) || slice_eq(b, "MA".as_bytes()) || slice_eq(
        b,
        "MZ".as_bytes(),
    ) || slice_eq(b, "NA".as_bytes()) || slice_eq(b, "NE".as_bytes()) || slice_eq(
        b,
        "NG".as_bytes(),
    ) || slice_eq(b, "RE".as_bytes()) || slice_eq(b, "RW".as_bytes()) || slice_eq(
        b,
        "ST".as_bytes(),
    ) || slice_eq(b, "SN".as_bytes()) || slice_eq(b, "SC".as_bytes()) || slice_eq(
        b,
        "SL".as_bytes(),
    ) || slice_eq(b, "SO".as_bytes()) || slice_eq(b, "ZA".as_bytes()) || slice_eq(
        b,
        "SS".as_bytes(),
    ) || slice_eq(b, "SD".as_bytes()) || slice_eq(b, "TZ".as_bytes()) || slice_eq(
        b,
        "TG".as_bytes(),
    ) || slice_eq(b, "TN".as_bytes()) || slice_eq(b, "UG".as_bytes()) || slice_eq(
        b,
        "EH".as_bytes(),
    ) || slice_eq(b, "ZM".as_bytes()) || slice_eq(b, "ZW".as_bytes()) || slice_eq(
        b,
        "SH".as_bytes(),
    )
}

fn in_australia(b: &[u8]) -> (r: bool)
    ensures
        r == country_is_australia(b@),
{
    slice_eq(b, "AU".as_bytes()) || slice_eq(b, "NZ".as_bytes()) || slice_eq(b, "FJ".as_bytes())
        || slice_eq(b, "NC".as_bytes()) || slice_eq(b, "PG".as_bytes()) || slice_eq(
        b,
        "SB".as_bytes(),
    ) || slice_eq(b, "VU".as_bytes()) || slice_eq(b, "GU".as_bytes()) || slice_eq(
        b,
        "KI".as_bytes(),
    ) || slice_eq(b, "MH".as_bytes()) || slice_eq(b, "FM".as_bytes()) || slice_eq(
        b,
        "NR".as_bytes(),
    ) || slice_eq(b, "MP".as_bytes()) || slice_eq(b, "PW".as_bytes()) || slice_eq(
        b,
        "WS".as_bytes(),
    ) || slice_eq(b, "AS".as_bytes()) || slice_eq(b, "CK".as_bytes()) || slice_eq(
        b,
        "PF".as_bytes(),
    ) || slice_eq(b, "NU".as_bytes()) || slice_eq(b, "PN".as_bytes()) || slice_eq(
        b,
        "TK".as_bytes(),
    ) || slice_eq(b, "TO".as_bytes()) || slice_eq(b, "TV".as_bytes()) || slice_eq(
        b,
        "WF".as_bytes(),
    ) || slice_eq(b, "NF".as_bytes()) || slice_eq(b, "CX".as_bytes()) || slice_eq(
        b,
        "CC".as_bytes(),
    ) || slice_eq(b, "HM".as_bytes()) || slice_eq(b, "TF".as_bytes()) || slice_eq(
        b,
        "GS".as_bytes(),
    ) || slice_eq(b, "AQ".as_bytes()) || slice_eq(b, "BV".as_bytes())
}

fn in_asia_pacific(b: &[u8]) -> (r: bool)
    ensures
        r == country_is_asia_pacific(b@),
{
    slice_eq(b, "AF".as_bytes()) || slice_eq(b, "BD".as_bytes()) || slice_eq(b, "BT".as_bytes())
        || slice_eq(b, "BN".as_bytes()) || slice_eq(b, "KH".as_bytes()) || slice_eq(
        b,
        "CN".as_bytes(),
    ) || slice_eq(b, "HK".as_bytes()) || slice_eq(b, "IN".as_bytes()) || slice_eq(
        b,
        "ID".as_bytes(),
    ) || slice_eq(b, "JP".as_bytes()) || slice_eq(b, "KZ".as_bytes()) || slice_eq(
        b,
        "KP".as_bytes(),
    ) || slice_eq(b, "KR".as_bytes()) || slice_eq(b, "KG".as_bytes()) || slice_eq(
        b,
        "LA".as_bytes(),
    ) || slice_eq(b, "MO".as_bytes()) || slice_eq(b, "MY".as_bytes()) || slice_eq(
        b,
        "MV".as_bytes(),
    ) || slice_eq(b, "MN".as_bytes()) || slice_eq(b, "MM".as_bytes()) || slice_eq(
        b,
        "NP".as_bytes(),
    ) || slice_eq(b, "PK".as_bytes()) || slice_eq(b, "PH".as_bytes()) || slice_eq(
        b,
        "SG".as_bytes(),
    ) || slice_eq(b, "LK".as_bytes()) || slice_eq(b, "TW".as_bytes()) || slice_eq(
        b,
        "TJ".as_bytes(),
    ) || slice_eq(b, "TH".as_bytes()) || slice_eq(b, "TL".as_bytes()) || slice_eq(
        b,
        "TM".as_bytes(),
    ) || slice_eq(b, "UZ".as_bytes()) || slice_eq(b, "VN".as_bytes()) || slice_eq(
        b,
        "IO".as_bytes(),
    )
}

/// The declared type of a network, as recorded by PeeringDB or bgp.tools.
#[derive(Debug, Clone, Copy, PartialEq, Eq, Structural)]
pub enum NetworkType {
    Nsp,
    Content,
    Isp,
    NspOrIsp,
    Enterprise,
    Educational,
    NonProfit,
    RouteServer,
    NetworkServices,
    RouteCollector,
    Government,
    Other,
}

pub open spec fn network_type_from_peeringdb_spec(s: Seq<u8>) -> NetworkType {
    if s == "NSP".spec_bytes() {
        NetworkType::Nsp
    } else if s == "Content".spec_bytes() {
        NetworkType::Content
    } else if s == "Cable/DSL/ISP".spec_bytes() {
        NetworkType::Isp
    } else if s == "Enterprise".spec_bytes() {
        NetworkType::Enterprise
    } else if s == "Educational/Research".spec_bytes() {
        NetworkType::Educational
    } else if s == "Non-Profit".spec_bytes() {
        NetworkType::NonProfit
    } else if s == "Route Server".spec_bytes() {
        NetworkType::RouteServer
    } else if s == "Network Services".spec_bytes() {
        NetworkType::NetworkServices
    } else if s == "Route Collector".spec_bytes() {
        NetworkType::RouteCollector
    } else if s == "Government".spec_bytes() {
        NetworkType::Government
    } else {
        NetworkType::Other
    }
}

pub open spec fn network_type_from_bgptools_spec(s: Seq<u8>) -> NetworkType {
    if s == "Unknown".spec_bytes() {
        NetworkType::Other
    } else if s == "Eyeball".spec_bytes() {
        NetworkType::NspOrIsp
    } else if s == "Content".spec_bytes() {
        NetworkType::Content
    } else if s == "Carrier".spec_bytes() {
        NetworkType::Isp
    } else if s == "T1".spec_bytes() {
        NetworkType::NspOrIsp
    } else {
        NetworkType::Other
    }
}

impl NetworkType {
    /// Decodes PeeringDB's `info_type` column; unknown strings are `Other`.
    pub fn from_peeringdb_str(s: &str) -> (r: Self)
        ensures
            r == network_type_from_peeringdb_spec(s.spec_bytes()),
    {
        let b = s.as_bytes();
        if slice_eq(b, "NSP".as_bytes()) {
            Self::Nsp
        } else if slice_eq(b, "Content".as_bytes()) {
            Self::Content
        } else if slice_eq(b, "Cable/DSL/ISP".as_bytes()) {
            Self::Isp
        } else if slice_eq(b, "Enterprise".as_bytes()) {
            Self::Enterprise
        } else if slice_eq(b, "Educational/Research".as_bytes()) {
            Self::Educational
        } else if slice_eq(b, "Non-Profit".as_bytes()) {
            Self::NonProfit
        } else if slice_eq(b, "Route Server".as_bytes()) {
            Self::RouteServer
        } else if slice_eq(b, "Network Services".as_bytes()) {
            Self::NetworkServices
        } else if slice_eq(b, "Route Collector".as_bytes()) {
            Self::RouteCollector
        } else if slice_eq(b, "Government".as_bytes()) {
            Self::Government
        } else {
            Self::Other
        }
    }

    /// Decodes the network classes used by bgp.tools.
    pub fn from_bgptools_str(s: &str) -> (r: Self)
        ensures
            r == network_type_from_bgptools_spec(s.spec_bytes()),
    {
        let b = s.as_bytes();
        if slice_eq(b, "Unknown".as_bytes()) {
            Self::Other
        } else if slice_eq(b, "Eyeball".as_bytes()) {
            Self::NspOrIsp
        } else if slice_eq(b, "Content".as_bytes()) {
            Self::Content
        } else if slice_eq(b, "Carrier".as_bytes()) {
            Self::Isp
        } else if slice_eq(b, "T1".as_bytes()) {
            Self::NspOrIsp
        } else {
            Self::Other
        }
    }
}

/// The protocol capabilities a network declares in PeeringDB.
#[derive(Debug, Clone, Copy, PartialEq, Eq, Structural)]
pub struct NetworkProtocols {
    pub unicast_ipv4: bool,
    pub multicast: bool,
    pub ipv6: bool,
    pub never_via_route_servers: bool,
}

/// A PeeringDB network record with its nested organization.
#[derive(Debug, Clone, PartialEq, Eq)]
pub struct Network {
    pub id: usize,
    pub name: String,
    pub organization: Organization,
    pub url: String,
    pub geographic_scope: GeographicScope,
    pub asn: Asn,
    pub network_type: NetworkType,
    pub protocols: Option<NetworkProtocols>,
}

} // verus!
