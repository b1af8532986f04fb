//! Records: a reading wrapped with a fresh unique identifier and a capture
//! timestamp, immutable once assembled, with the verified wire body of the
//! commit protocol and a human-readable rendering.

use vstd::prelude::*;
use vstd::string::*;
use crate::decimal::int_literal;
use crate::decimal::milli_decimal;
use crate::decimal::push_int;
use crate::decimal::push_milli;
use crate::ident::RecordId;
use crate::ident::is_v4;
use crate::ident::uuid_rendered;
use crate::json::json_string;
use crate::json::push_json_string;
use crate::reading::Reading;
use crate::timestamp::Timestamp;
use crate::timestamp::display_rendered;
use crate::timestamp::rfc3339_rendered;

verus! {

/// The variant-tagged JSON object denoting a reading on the wire.
pub open spec fn reading_json(reading: Reading) -> Seq<char> {
    match reading {
        Reading::BME280(r) => "{\"type\":\"BME280\",\"temperature\":"@ + milli_decimal(
            r.temperature_milli as int,
        ) + ",\"pressure\":"@ + milli_decimal(r.pressure_milli as int) + ",\"humidity\":"@
            + milli_decimal(r.humidity_milli as int) + "}"@,
        Reading::DS18B20(r) => "{\"type\":\"DS18B20\",\"device_name\":"@ + json_string(
            r.device_name@,
        ) + ",\"raw_reading\":"@ + int_literal(r.raw_reading as int) + "}"@,
    }
}

/// The JSON object denoting a record on the wire: its identifier, its
/// RFC 3339 timestamp, and its variant-tagged reading.
pub open spec fn record_json(rec: Record) -> Seq<char> {
    "{\"id\":\""@ + uuid_rendered(rec.id.value) + "\",\"timestamp\":\""@ + rfc3339_rendered(
        rec.timestamp.secs as int,
        rec.timestamp.nanos as int,
    ) + "\",\"reading\":"@ + reading_json(rec.reading) + "}"@
}

/// An immutable record of one measurement: identity and capture time are
/// assigned exactly once, at assembly, and never change.
#[derive(Debug, Clone)]
pub struct Record {
    pub id: RecordId,
    pub timestamp: Timestamp,
    pub reading: Reading,
}

impl Record {
    /// Wraps an identifier, a capture timestamp and a reading, unchanged.
    pub fn new(id: RecordId, timestamp: Timestamp, reading: Reading) -> (r: Record)
        ensures
            r.id == id,
            r.timestamp == timestamp,
            r.reading == reading,
    {
        Record { id, timestamp, reading }
    }

    /// Assembles a record from a reading: a fresh random identifier and
    /// the current instant enter the system here and nowhere else.
    pub fn assemble(reading: Reading) -> (r: Record)
        ensures
            r.reading == reading,
            r.timestamp.wf(),
            is_v4(r.id.value),
    {
        let id = RecordId::fresh();
        let timestamp = Timestamp::now();
        Record { id, timestamp, reading }
    }

    /// The record's identifier.
    pub fn id(&self) -> (r: RecordId)
        ensures
            r == self.id,
    {
        self.id
    }

    /// The record's capture timestamp.
    pub fn timestamp(&self) -> (r: Timestamp)
        ensures
            r == self.timestamp,
    {
        self.timestamp
    }

    /// The record's reading.
    pub fn reading(&self) -> (r: &Reading)
        ensures
            r == self.reading,
    {
        &self.reading
    }

    /// Builds the JSON body that the commit protocol sends for this
    /// record.
    pub fn to_json(&self) -> (r: String)
        requires
            self.timestamp.wf(),
        ensures
            r@ == record_json(*self),
    {
        let mut out = String::from_str("{\"id\":\"");
        let id_text = self.id.render();
        out.append(id_text.as_str());
        out.append("\",\"timestamp\":\"");
        let ts_text = self.timestamp.to_rfc3339();
        out.append(ts_text.as_str());
        out.append("\",\"reading\":");
        match &self.reading {
            Reading::BME280(r) => {
                out.append("{\"type\":\"BME280\",\"temperature\":");
                push_milli(r.temperature_milli, &mut out);
                out.append(",\"pressure\":");
                push_milli(r.pressure_milli, &mut out);
                out.append(",\"humidity\":");
                push_milli(r.humidity_milli, &mut out);
                out.append("}");
            },
            Reading::DS18B20(r) => {
                out.append("{\"type\":\"DS18B20\",\"device_name\":");
                push_json_string(r.device_name.as_str(), &mut out);
                out.append(",\"raw_reading\":");
                push_int(r.raw_reading as i64, &mut out);
                out.append("}");
            },
        }
        out.append("}");
        proof {
            assert(out@ =~= record_json(*self));
        }
        out
    }

    /// The human-readable rendering: the timestamp in brackets, the
    /// reading, and the identifier in parentheses.
    pub open spec fn rendered(self) -> Seq<char> {
        seq!['['] + display_rendered(self.timestamp.secs as int, self.timestamp.nanos as int)
            + "] "@ + self.reading.rendered() + " ("@ + uuid_rendered(self.id.value) + seq![')']
    }

    /// Renders the record for display.
    pub fn display_string(&self) -> (r: String)
        requires
            self.timestamp.wf(),
        ensures
            r@ == self.rendered(),
    {
        let mut out = String::from_str("[");
        let ts_text = self.timestamp.display_string();
        out.append(ts_text.as_str());
        out.append("] ");
        let reading_text = self.reading.display_string();
        out.append(reading_text.as_str());
        out.append(" (");
        let id_text = self.id.render();
        out.append(id_text.as_str());
        out.append(")");
        proof {
            reveal_strlit("[");
            reveal_strlit(")");
            assert("["@ =~= seq!['[']);
            assert(")"@ =~= seq![')']);
            assert(out@ =~= self.rendered());
        }
        out
    }
}

} // verus!
