//! DNS query results: the uniform record shape and the error a query
//! reports.

use vstd::prelude::*;

verus! {

/// One DNS answer.
#[derive(Debug, Clone)]
pub struct DnsRecord {
    pub record_type: String,
    pub value: String,
    pub ttl: u32,
}

/// The error a DNS query reports: the most recent lookup error, but only
/// when no record was found at all.
pub open spec fn dns_error_spec(records_found: nat, errors: Seq<String>) -> Option<String> {
    if records_found == 0 && errors.len() > 0 {
        Some(errors.last())
    } else {
        None
    }
}

pub fn dns_error(records_found: usize, errors: &Vec<String>) -> (r: Option<String>)
    ensures
        match (r, dns_error_spec(records_found as nat, errors@)) {
            (Some(a), Some(b)) => a@ == b@,
            (None, None) => true,
            _ => false,
        },
{
    if records_found == 0 && errors.len() > 0 {
        let last = &errors[errors.len() - 1];
        Some(last.clone())
    } else {
        None
    }
}

} // verus!
