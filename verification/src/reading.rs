//! The reading model: one tagged union over the supported sensor families,
//! with variant-dispatched equality and canonical text rendering. Physical
//! quantities are held in milli-units, the integer encoding that the raw
//! reports use; floats appear only at presentation boundaries outside this
//! crate.

use vstd::prelude::*;
use vstd::string::*;
use crate::decimal::milli_decimal;
use crate::decimal::milli_fixed2;
use crate::decimal::push_milli;
use crate::decimal::push_milli_fixed2;

verus! {

/// A combined-environmental reading: temperature in milli-degrees Celsius,
/// pressure in milli-pascals, relative humidity in milli-percent, stored
/// verbatim.
#[derive(Debug, Clone, Copy, PartialEq, Eq, Structural)]
pub struct BME280 {
    pub temperature_milli: i64,
    pub pressure_milli: i64,
    pub humidity_milli: i64,
}

impl BME280 {
    /// Wraps the three measured quantities, stored unchanged.
    pub fn new(temperature_milli: i64, pressure_milli: i64, humidity_milli: i64) -> (r: Self)
        ensures
            r == (BME280 { temperature_milli, pressure_milli, humidity_milli }),
    {
        BME280 { temperature_milli, pressure_milli, humidity_milli }
    }

    /// Temperature in milli-degrees Celsius, as stored.
    pub fn temperature_milli(&self) -> (r: i64)
        ensures
            r == self.temperature_milli,
    {
        self.temperature_milli
    }

    /// Pressure in milli-pascals, as stored.
    pub fn pressure_milli(&self) -> (r: i64)
        ensures
            r == self.pressure_milli,
    {
        self.pressure_milli
    }

    /// Relative humidity in milli-percent, as stored.
    pub fn humidity_milli(&self) -> (r: i64)
        ensures
            r == self.humidity_milli,
    {
        self.humidity_milli
    }

    /// The canonical rendering: each quantity with two decimal places.
    pub open spec fn rendered(self) -> Seq<char> {
        "BME280: "@ + milli_fixed2(self.temperature_milli as int) + " °C, "@ + milli_fixed2(
            self.pressure_milli as int,
        ) + " Pa, "@ + milli_fixed2(self.humidity_milli as int) + "%"@
    }

    /// Renders the reading canonically.
    pub fn display_string(&self) -> (r: String)
        ensures
            r@ == self.rendered(),
    {
        let mut out = String::from_str("BME280: ");
        push_milli_fixed2(self.temperature_milli, &mut out);
        out.append(" °C, ");
        push_milli_fixed2(self.pressure_milli, &mut out);
        out.append(" Pa, ");
        push_milli_fixed2(self.humidity_milli, &mut out);
        out.append("%");
        proof {
            assert(out@ =~= self.rendered());
        }
        out
    }
}

/// A thermal-probe reading: the originating device's name and the raw
/// signed value in milli-degrees Celsius.
#[derive(Debug, Clone)]
pub struct DS18B20 {
    pub device_name: String,
    pub raw_reading: i32,
}

impl PartialEq for DS18B20 {
    fn eq(&self, other: &Self) -> bool {
        self.device_name == other.device_name && self.raw_reading == other.raw_reading
    }
}

impl vstd::std_specs::cmp::PartialEqSpecImpl for DS18B20 {
    open spec fn obeys_eq_spec() -> bool {
        true
    }

    open spec fn eq_spec(&self, other: &Self) -> bool {
        self.device_name@ == other.device_name@ && self.raw_reading == other.raw_reading
    }
}

impl DS18B20 {
    /// Wraps a device name and its raw milli-degree value, stored unchanged.
    pub fn new(device_name: String, raw_reading: i32) -> (r: Self)
        ensures
            r.device_name == device_name,
            r.raw_reading == raw_reading,
    {
        DS18B20 { device_name, raw_reading }
    }

    /// The name of the device the value was read from.
    pub fn device_name(&self) -> (r: &str)
        ensures
            r@ == self.device_name@,
    {
        self.device_name.as_str()
    }

    /// The raw value in milli-degrees Celsius.
    pub fn raw_reading(&self) -> (r: i32)
        ensures
            r == self.raw_reading,
    {
        self.raw_reading
    }

    /// The canonical rendering: the device name, then the temperature in
    /// degrees Celsius as the exact decimal of the milli-degree value.
    pub open spec fn rendered(self) -> Seq<char> {
        self.device_name@ + ": "@ + milli_decimal(self.raw_reading as int) + " °C"@
    }

    /// Renders the reading canonically.
    pub fn display_string(&self) -> (r: String)
        ensures
            r@ == self.rendered(),
    {
        let mut out = self.device_name.clone();
        out.append(": ");
        push_milli(self.raw_reading as i64, &mut out);
        out.append(" °C");
        proof {
            assert(out@ =~= self.rendered());
        }
        out
    }
}

/// One reading from any supported sensor family: exactly one variant is
/// active, and equality and rendering dispatch on it.
#[derive(Debug, Clone)]
pub enum Reading {
    BME280(BME280),
    DS18B20(DS18B20),
}

impl PartialEq for Reading {
    fn eq(&self, other: &Self) -> bool {
        match (self, other) {
            (Reading::BME280(a), Reading::BME280(b)) => a == b,
            (Reading::DS18B20(a), Reading::DS18B20(b)) => a == b,
            _ => false,
        }
    }
}

impl vstd::std_specs::cmp::PartialEqSpecImpl for Reading {
    open spec fn obeys_eq_spec() -> bool {
        true
    }

    open spec fn eq_spec(&self, other: &Self) -> bool {
        match (self, other) {
            (Reading::BME280(a), Reading::BME280(b)) => a == b,
            (Reading::DS18B20(a), Reading::DS18B20(b)) => a.device_name@ == b.device_name@
                && a.raw_reading == b.raw_reading,
            _ => false,
        }
    }
}

impl Reading {
    /// The canonical rendering of the active variant.
    pub open spec fn rendered(self) -> Seq<char> {
        match self {
            Reading::BME280(r) => r.rendered(),
            Reading::DS18B20(r) => r.rendered(),
        }
    }

    /// Renders the active variant canonically.
    pub fn display_string(&self) -> (r: String)
        ensures
            r@ == self.rendered(),
    {
        match self {
            Reading::BME280(r) => r.display_string(),
            Reading::DS18B20(r) => r.display_string(),
        }
    }
}

} // verus!
