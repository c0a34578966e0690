//! The vehicle aggregate and its identifiers.

use vstd::prelude::*;
use crate::ports::utc_now_string;
use crate::serial::SerialNumber;

verus! {

/// A 17-character vehicle identifier.
#[derive(Debug, Clone)]
pub struct Vin(pub String);

/// The identifier the relational store assigns to a persisted car.
#[derive(Debug, Clone, Copy, PartialEq, Eq, Hash, Structural)]
pub struct CarId(pub i32);

/// One vehicle record: parsed from a manufacturer document, persisted
/// once per serial number.  `id` is absent until the relational store
/// assigns it.
#[derive(Debug, Clone)]
pub struct Car {
    pub id: Option<CarId>,
    pub vin: Vin,
    pub ext_color: String,
    pub int_color: String,
    pub car_model: String,
    pub opt_code: String,
    pub ship_to: String,
    pub sold_to: String,
    pub created_date: String,
    pub serial_number: SerialNumber,
    pub model_year: String,
}

/// Mathematical image of a `Car`.
pub ghost struct CarView {
    pub id: Option<int>,
    pub vin: Seq<char>,
    pub ext_color: Seq<char>,
    pub int_color: Seq<char>,
    pub car_model: Seq<char>,
    pub opt_code: Seq<char>,
    pub ship_to: Seq<char>,
    pub sold_to: Seq<char>,
    pub created_date: Seq<char>,
    pub serial_number: int,
    pub model_year: Seq<char>,
}

impl View for Car {
    type V = CarView;

    open spec fn view(&self) -> CarView {
        CarView {
            id: match self.id {
                Some(cid) => Some(cid.0 as int),
                None => None,
            },
            vin: self.vin.0@,
            ext_color: self.ext_color@,
            int_color: self.int_color@,
            car_model: self.car_model@,
            opt_code: self.opt_code@,
            ship_to: self.ship_to@,
            sold_to: self.sold_to@,
            created_date: self.created_date@,
            serial_number: self.serial_number.0 as int,
            model_year: self.model_year@,
        }
    }
}

/// The view of the placeholder record synthesized for a VIN whose stored
/// document is the permanent-failure sentinel: every text field reads
/// "BROKEN" and no id is assigned.
pub open spec fn spec_broken_car(vin: Seq<char>, serial: int, created: Seq<char>) -> CarView {
    CarView {
        id: None,
        vin: vin,
        ext_color: "BROKEN"@,
        int_color: "BROKEN"@,
        car_model: "BROKEN"@,
        opt_code: "BROKEN"@,
        ship_to: "BROKEN"@,
        sold_to: "BROKEN"@,
        created_date: created,
        serial_number: serial,
        model_year: "BROKEN"@,
    }
}

impl Car {
    /// An in-memory record with the given fields, no id, and the given
    /// creation timestamp.
    pub fn new_at(
        vin: Vin,
        ext_color: String,
        int_color: String,
        car_model: String,
        opt_code: String,
        ship_to: String,
        sold_to: String,
        created_date: String,
        serial_number: SerialNumber,
        model_year: String,
    ) -> (r: Car)
        ensures
            r@ == (CarView {
                id: None,
                vin: vin.0@,
                ext_color: ext_color@,
                int_color: int_color@,
                car_model: car_model@,
                opt_code: opt_code@,
                ship_to: ship_to@,
                sold_to: sold_to@,
                created_date: created_date@,
                serial_number: serial_number.0 as int,
                model_year: model_year@,
            }),
    {
        Car {
            id: None,
            vin,
            ext_color,
            int_color,
            car_model,
            opt_code,
            ship_to,
            sold_to,
            created_date,
            serial_number,
            model_year,
        }
    }

    /// An in-memory record stamped with the current time; every other
    /// field is fixed by the arguments.
    pub fn new(
        vin: Vin,
        ext_color: String,
        int_color: String,
        car_model: String,
        opt_code: String,
        ship_to: String,
        sold_to: String,
        serial_number: SerialNumber,
        model_year: String,
    ) -> (r: Car)
        ensures
            r@ == (CarView {
                id: None,
                vin: vin.0@,
                ext_color: ext_color@,
                int_color: int_color@,
                car_model: car_model@,
                opt_code: opt_code@,
                ship_to: ship_to@,
                sold_to: sold_to@,
                created_date: r@.created_date,
                serial_number: serial_number.0 as int,
                model_year: model_year@,
            }),
    {
        let created_date = utc_now_string();
        Car::new_at(
            vin,
            ext_color,
            int_color,
            car_model,
            opt_code,
            ship_to,
            sold_to,
            created_date,
            serial_number,
            model_year,
        )
    }

    /// The placeholder record for a VIN whose stored document is the
    /// permanent-failure sentinel.
    pub fn broken(vin: Vin, serial_number: SerialNumber, created_date: String) -> (r: Car)
        ensures
            r@ == spec_broken_car(vin.0@, serial_number.0 as int, created_date@),
    {
        let b = broken_string();
        let r = Car::new_at(
            vin,
            b.clone(),
            b.clone(),
            b.clone(),
            b.clone(),
            b.clone(),
            b.clone(),
            created_date,
            serial_number,
            b,
        );
        r
    }

    /// Records the id the relational store assigned.
    pub fn set_id(&mut self, id: CarId)
        ensures
            final(self)@ == (CarView { id: Some(id.0 as int), ..old(self)@ }),
    {
        self.id = Some(id);
    }

    /// A copy of this record with the same view; contracts see through
    /// it, unlike the derived `Clone`.
    pub fn duplicate(&self) -> (r: Car)
        ensures
            r@ == self@,
    {
        Car {
            id: self.id,
            vin: Vin(self.vin.0.clone()),
            ext_color: self.ext_color.clone(),
            int_color: self.int_color.clone(),
            car_model: self.car_model.clone(),
            opt_code: self.opt_code.clone(),
            ship_to: self.ship_to.clone(),
            sold_to: self.sold_to.clone(),
            created_date: self.created_date.clone(),
            serial_number: self.serial_number,
            model_year: self.model_year.clone(),
        }
    }

    /// Whether this record's id equals the id the relational store just
    /// returned; the key-value mirror may only be written when it does.
    pub fn id_matches(&self, sql_id: CarId) -> (r: bool)
        ensures
            r == (self@.id == Some(sql_id.0 as int)),
    {
        match self.id {
            Some(own) => own.0 == sql_id.0,
            None => false,
        }
    }
}

/// The placeholder field value.
fn broken_string() -> (r: String)
    ensures
        r@ == "BROKEN"@,
{
    String::from_str("BROKEN")
}

} // verus!
