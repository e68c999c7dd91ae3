//! The customer-photo record written to the archive on each recognition.
use crate::registry::now_micros;
use vstd::prelude::*;

verus! {

/// A photo of a recognized customer, for the archive.
pub struct CustomerPhoto {
    /// Name of the recognized customer.
    pub customer_name: String,
    /// The encoded photo.
    pub photo_data: Vec<u8>,
    /// Creation time, in microseconds since the Unix epoch (UTC).
    pub created_at: i64,
}

impl CustomerPhoto {
    /// A record of the photo, stamped with the current time.
    pub fn new(customer_name: String, photo_data: Vec<u8>) -> (r: CustomerPhoto)
        ensures
            r.customer_name == customer_name,
            r.photo_data == photo_data,
            r.created_at >= 0,
    {
        let created_at = now_micros();
        CustomerPhoto { customer_name, photo_data, created_at }
    }
}

} // verus!
