//! What the HTTP routes read from their query strings and how they answer
//! a missing parameter.
use vstd::prelude::*;

use crate::text::{chars_of, string_of, trim, trim_chars};

verus! {

/// The folder that saved stock takes go to, shared with the routes.
pub struct OutputDir(pub String);

/// Parameters of `/api/search`: each filter absent means `ALL`.
pub struct SearchQuery {
    pub department: Option<String>,
    pub supplier: Option<String>,
    pub sub_department: Option<String>,
}

/// Parameter of `/api/refresh-upc`.
pub struct UpcQuery {
    pub upc: Option<String>,
}

/// Parameter of `/api/suppliers-for-dept`.
pub struct DeptQuery {
    pub department: Option<String>,
}

/// Parameter of `/api/sub-departments`.
pub struct SubDeptQuery {
    pub department: Option<String>,
}

/// Parameter of `/api/barcode-lookup`.
pub struct BarcodeQuery {
    pub barcode: String,
}

/// A filter given, or `ALL` when it is absent.
pub open spec fn filter_value(v: Option<String>) -> Seq<char> {
    match v {
        Some(s) => s@,
        None => "ALL"@,
    }
}

/// The filter value, `ALL` when absent.
pub fn filter_or_all(v: &Option<String>) -> (r: String)
    ensures
        r@ == filter_value(*v),
{
    match v {
        Some(s) => s.clone(),
        None => string_of(&chars_of("ALL")),
    }
}

impl SearchQuery {
    /// The department, supplier and sub-department filters, `ALL` when
    /// absent.
    pub fn filters(&self) -> (r: (String, String, String))
        ensures
            r.0@ == filter_value(self.department),
            r.1@ == filter_value(self.supplier),
            r.2@ == filter_value(self.sub_department),
    {
        (
            filter_or_all(&self.department),
            filter_or_all(&self.supplier),
            filter_or_all(&self.sub_department),
        )
    }
}

impl DeptQuery {
    /// The department, `ALL` when absent.
    pub fn department_or_all(&self) -> (r: String)
        ensures
            r@ == filter_value(self.department),
    {
        filter_or_all(&self.department)
    }
}

impl SubDeptQuery {
    /// The department, empty when absent.
    pub fn department_or_empty(&self) -> (r: String)
        ensures
            r@ == match self.department {
                Some(s) => s@,
                None => Seq::empty(),
            },
    {
        match &self.department {
            Some(s) => s.clone(),
            None => String::new(),
        }
    }
}

impl UpcQuery {
    /// The UPC asked for; a missing or empty one is refused with a message.
    pub fn requested_upc(&self) -> (r: Result<String, String>)
        ensures
            match self.upc {
                Some(u) => if u@.len() > 0 {
                    r matches Ok(v) && v@ == u@
                } else {
                    r matches Err(m) && m@ == "Missing upc query parameter"@
                },
                None => r matches Err(m) && m@ == "Missing upc query parameter"@,
            },
    {
        match &self.upc {
            Some(u) => {
                if u.as_str().is_empty() {
                    Err(string_of(&chars_of("Missing upc query parameter")))
                } else {
                    Ok(u.clone())
                }
            },
            None => Err(string_of(&chars_of("Missing upc query parameter"))),
        }
    }
}

impl BarcodeQuery {
    /// The barcode asked for, trimmed; an empty one is refused with a
    /// message.
    pub fn requested_barcode(&self) -> (r: Result<String, String>)
        ensures
            trim(self.barcode@).len() > 0 ==> (r matches Ok(v) && v@ == trim(self.barcode@)),
            trim(self.barcode@).len() == 0 ==> (r matches Err(m) && m@
                == "Missing barcode query parameter"@),
    {
        let t = trim_chars(&chars_of(self.barcode.as_str()));
        if t.len() == 0 {
            Err(string_of(&chars_of("Missing barcode query parameter")))
        } else {
            Ok(string_of(&t))
        }
    }
}

} // verus!
