//! The uniform `{code, data}` envelope of every administrative reply.

use vstd::prelude::*;
use vstd::string::StringExecFns;

verus! {

/// The code of a reply that reports success.
pub const CODE_OK: u64 = 0;

/// The code of a reply that reports a failure; its data is a message.
pub const CODE_FAILED: u64 = 100;

/// The status with which every envelope travels over HTTP.
pub const HTTP_STATUS_OK: u16 = 200;

/// A reply of the administrative surface: a code and a payload.
///
/// A code of zero means success. Any other code means failure, and the
/// payload of such a reply is a message for a human reader.
#[derive(Clone, Debug, PartialEq, Eq)]
pub struct AdminServerResponse<T> {
    code: u64,
    data: T,
}

impl<T> AdminServerResponse<T> {
    /// The code of this reply, for contracts.
    pub closed spec fn spec_code(&self) -> u64 {
        self.code
    }

    /// The payload of this reply, for contracts.
    pub closed spec fn spec_data(&self) -> T {
        self.data
    }

    /// Whether this reply reports success, for contracts.
    pub open spec fn spec_is_ok(&self) -> bool {
        self.spec_code() == CODE_OK
    }

    /// A reply with the given code and payload.
    pub fn new(code: u64, data: T) -> (r: Self)
        ensures
            r.spec_code() == code,
            r.spec_data() == data,
    {
        AdminServerResponse { code, data }
    }

    /// A successful reply that carries `data`.
    pub fn ok(data: T) -> (r: Self)
        ensures
            r.spec_code() == CODE_OK,
            r.spec_data() == data,
    {
        Self::new(CODE_OK, data)
    }

    /// A failed reply that carries `data`, by convention a message.
    pub fn err(data: T) -> (r: Self)
        ensures
            r.spec_code() == CODE_FAILED,
            r.spec_data() == data,
    {
        Self::new(CODE_FAILED, data)
    }

    /// The code of this reply.
    pub fn code(&self) -> (c: u64)
        ensures
            c == self.spec_code(),
    {
        self.code
    }

    /// Gives up the envelope for its payload.
    pub fn data(self) -> (d: T)
        ensures
            d == self.spec_data(),
    {
        self.data
    }

    /// Whether this reply reports success.
    pub fn is_ok(&self) -> (b: bool)
        ensures
            b == self.spec_is_ok(),
    {
        self.code == CODE_OK
    }

    /// The HTTP status under which this reply is sent: always 200, since a
    /// failure is told by the code inside the envelope and not by the
    /// transport.
    pub fn http_status(&self) -> (status: u16)
        ensures
            status == HTTP_STATUS_OK,
    {
        HTTP_STATUS_OK
    }
}

impl AdminServerResponse<String> {
    /// The reply of a mutation that went through and has nothing to show:
    /// code zero and the word `success`.
    pub fn success() -> (r: Self)
        ensures
            r.spec_code() == CODE_OK,
            r.spec_data()@ == "success"@,
    {
        Self::new(CODE_OK, String::from_str("success"))
    }
}

/// One page of a listing, with the number of records that the listing
/// holds over all its pages.
#[derive(Clone, Debug, PartialEq, Eq)]
pub struct PageReplyData<T> {
    /// The records on the page.
    pub data: T,
    /// The number of records that passed the filter, on whatever page.
    pub total_count: usize,
}

} // verus!
