use vstd::prelude::*;
use vstd::string::StringExecFns;

verus! {

/// Failures reported by the persistence, transport and web collaborators.
#[derive(Debug)]
pub enum Error {
    DatabaseError(String),
    MqttError(String),
    WebError(String),
    ExcelError(String),
}

/// The text that prefixes the detail of each kind of error.
pub open spec fn error_prefix(e: Error) -> Seq<char> {
    match e {
        Error::DatabaseError(_) => "database error "@,
        Error::MqttError(_) => "mqtt error "@,
        Error::WebError(_) => "web error "@,
        Error::ExcelError(_) => "excel error "@,
    }
}

/// The detail message carried by an error.
pub open spec fn error_detail(e: Error) -> Seq<char> {
    match e {
        Error::DatabaseError(s) => s@,
        Error::MqttError(s) => s@,
        Error::WebError(s) => s@,
        Error::ExcelError(s) => s@,
    }
}

impl Error {
    /// Human-readable message: the kind of error followed by its detail.
    pub fn to_string(&self) -> (r: String)
        ensures
            r@ == error_prefix(*self) + error_detail(*self),
    {
        match self {
            Error::DatabaseError(s) => String::from_str("database error ").concat(s.as_str()),
            Error::MqttError(s) => String::from_str("mqtt error ").concat(s.as_str()),
            Error::WebError(s) => String::from_str("web error ").concat(s.as_str()),
            Error::ExcelError(s) => String::from_str("excel error ").concat(s.as_str()),
        }
    }
}

} // verus!
