//! Refined identifier types. A car identifier starts with `C` and is at
//! least five bytes long; a warehouse identifier starts with `W` and is at
//! least four bytes long. Both are checked at parse time; an invalid
//! identifier is a client validation failure and is never stored.

use crate::errors::AppError;
use crate::errors::ValidationIssues;
use vstd::prelude::*;

verus! {

use vstd::utf8::encode_utf8;

/// A well-formed car identifier.
pub open spec fn valid_car_id(s: Seq<char>) -> bool {
    s.len() >= 1 && s[0] == 'C' && encode_utf8(s).len() >= 5
}

/// A well-formed warehouse identifier.
pub open spec fn valid_warehouse_id(s: Seq<char>) -> bool {
    s.len() >= 1 && s[0] == 'W' && encode_utf8(s).len() >= 4
}

/// A parsed car identifier; its text always satisfies `valid_car_id`.
#[derive(Debug)]
pub struct CarId(String);

impl View for CarId {
    type V = Seq<char>;

    closed spec fn view(&self) -> Seq<char> {
        self.0@
    }
}

impl PartialEq for CarId {
    fn eq(&self, other: &Self) -> bool {
        self.0 == other.0
    }
}

impl vstd::std_specs::cmp::PartialEqSpecImpl for CarId {
    open spec fn obeys_eq_spec() -> bool {
        true
    }

    open spec fn eq_spec(&self, other: &Self) -> bool {
        self@ == other@
    }
}

impl Eq for CarId {

}

impl CarId {
    /// Parses an identifier, accepting exactly the well-formed ones. An
    /// ill-formed identifier is a client validation failure, reported on
    /// the `car_id` field.
    pub fn new(id: String) -> (r: Result<CarId, AppError>)
        ensures
            match r {
                Ok(c) => valid_car_id(id@) && c@ == id@,
                Err(e) => !valid_car_id(id@) && (e matches AppError::ValidationError(v)
                    && v.entries@.len() == 1 && v.entries@[0].field@ == "car_id"@
                    && v.entries@[0].message@ == "Invalid CarId format: "@ + id@),
            },
    {
        let b = id.as_str().as_bytes();
        proof {
            if id@.len() == 0 {
                assert(encode_utf8(id@).len() == 0);
            }
        }
        if b.len() >= 5 && id.as_str().get_char(0) == 'C' {
            Ok(CarId(id))
        } else {
            let mut m = String::from_str("Invalid CarId format: ");
            m.append(id.as_str());
            let mut v = ValidationIssues::new();
            v.add("car_id", m.as_str());
            Err(AppError::ValidationError(v))
        }
    }

    /// The identifier's text.
    pub fn as_str(&self) -> (r: &str)
        ensures
            r@ == self@,
    {
        self.0.as_str()
    }

    /// A copy of this identifier.
    pub fn duplicate(&self) -> (r: CarId)
        ensures
            r == *self,
    {
        CarId(self.0.clone())
    }
}

/// A parsed warehouse identifier; its text always satisfies
/// `valid_warehouse_id`.
#[derive(Debug)]
pub struct WarehouseId(String);

impl View for WarehouseId {
    type V = Seq<char>;

    closed spec fn view(&self) -> Seq<char> {
        self.0@
    }
}

impl PartialEq for WarehouseId {
    fn eq(&self, other: &Self) -> bool {
        self.0 == other.0
    }
}

impl vstd::std_specs::cmp::PartialEqSpecImpl for WarehouseId {
    open spec fn obeys_eq_spec() -> bool {
        true
    }

    open spec fn eq_spec(&self, other: &Self) -> bool {
        self@ == other@
    }
}

impl Eq for WarehouseId {

}

impl WarehouseId {
    /// Parses an identifier, accepting exactly the well-formed ones. An
    /// ill-formed identifier is a client validation failure, reported on
    /// the `warehouse_id` field.
    pub fn new(id: String) -> (r: Result<WarehouseId, AppError>)
        ensures
            match r {
                Ok(w) => valid_warehouse_id(id@) && w@ == id@,
                Err(e) => !valid_warehouse_id(id@) && (e matches AppError::ValidationError(v)
                    && v.entries@.len() == 1 && v.entries@[0].field@ == "warehouse_id"@
                    && v.entries@[0].message@ == "Invalid WarehouseId format: "@ + id@
                    + ". Must start with 'W'"@),
            },
    {
        let b = id.as_str().as_bytes();
        proof {
            if id@.len() == 0 {
                assert(encode_utf8(id@).len() == 0);
            }
        }
        if b.len() >= 4 && id.as_str().get_char(0) == 'W' {
            Ok(WarehouseId(id))
        } else {
            let mut m = String::from_str("Invalid WarehouseId format: ");
            m.append(id.as_str());
            m.append(". Must start with 'W'");
            let mut v = ValidationIssues::new();
            v.add("warehouse_id", m.as_str());
            Err(AppError::ValidationError(v))
        }
    }

    /// The identifier's text.
    pub fn as_str(&self) -> (r: &str)
        ensures
            r@ == self@,
    {
        self.0.as_str()
    }

    /// A copy of this identifier.
    pub fn duplicate(&self) -> (r: WarehouseId)
        ensures
            r == *self,
    {
        WarehouseId(self.0.clone())
    }
}

} // verus!
