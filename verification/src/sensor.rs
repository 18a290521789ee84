//! The simulated temperature sensor: one reading per call, with a fresh
//! correlation key, the current time, the bound location label and a
//! uniformly sampled temperature.

use vstd::prelude::*;

use crate::codec::{encode_reading, json_of, lemma_decode_of_encode, parse_reading_text, JsonRecord};
use crate::trusted::{format_rfc3339, fresh_uuid_text, now_millis, rfc3339_of, sample_inclusive};

verus! {

/// Lowest temperature a reading can hold, in hundredths of a degree Celsius.
pub const TEMP_MIN_CENTI: u32 = 1200;

/// Highest temperature a reading can hold, in hundredths of a degree Celsius.
pub const TEMP_MAX_CENTI: u32 = 3000;

/// Last instant a reading's timestamp can hold: 9999-12-31T23:59:59.999Z,
/// in milliseconds since the Unix epoch.
pub const MAX_TIMESTAMP_MILLIS: i64 = 253402300799999;

/// The shape every identifier a sensor draws has: 36 characters, a hyphen
/// after each of the first four groups, and the version character `4`
/// opening the third group.
pub open spec fn uuid_v4_text_shape(s: Seq<char>) -> bool {
    &&& s.len() == 36
    &&& s[8] == '-'
    &&& s[13] == '-'
    &&& s[18] == '-'
    &&& s[23] == '-'
    &&& s[14] == '4'
}

/// One simulated measurement. Immutable once created: it is created,
/// serialized and discarded.
pub struct SensorReading {
    /// Correlation key: the hyphenated text of a fresh version-4 UUID.
    pub id: String,
    /// When the reading was taken: milliseconds since the Unix epoch, UTC.
    pub timestamp: i64,
    /// Label of the logical sensor that produced the reading.
    pub location: String,
    /// Sampled temperature, in hundredths of a degree Celsius.
    pub temperature: u32,
}

impl SensorReading {
    /// Every reading a sensor produces satisfies this: the temperature lies
    /// in the sampling interval and the timestamp is a renderable instant.
    pub open spec fn wf(&self) -> bool {
        &&& TEMP_MIN_CENTI <= self.temperature <= TEMP_MAX_CENTI
        &&& 0 <= self.timestamp <= MAX_TIMESTAMP_MILLIS
    }

    /// The reading's instant as RFC 3339 text, exactly as it appears in the
    /// serialized payload.
    pub fn timestamp_rfc3339(&self) -> (r: String)
        requires
            self.wf(),
        ensures
            r@ == rfc3339_of(self.timestamp),
    {
        format_rfc3339(self.timestamp)
    }

    /// Renders the reading as the interchange payload: one flat record with
    /// exactly the keys `id`, `timestamp`, `location` and `temperature`.
    /// Total on well-formed readings: it always succeeds; the error arm is
    /// interface symmetry alone.
    pub fn serialize(&self) -> (r: Result<String, SerializationError>)
        requires
            self.wf(),
        ensures
            r matches Ok(s) && s@ == json_of(
                self.id@,
                rfc3339_of(self.timestamp),
                self.location@,
                self.temperature,
            ),
    {
        let ts_text = format_rfc3339(self.timestamp);
        Ok(
            encode_reading(
                self.id.as_str(),
                ts_text.as_str(),
                self.location.as_str(),
                self.temperature,
            ),
        )
    }
}

/// Decoding a well-formed reading's serialized payload yields exactly the
/// reading's four fields again, the timestamp as its rendered text, the
/// temperature to the full precision the text carries.
pub proof fn lemma_reading_round_trip(rd: SensorReading)
    requires
        rd.wf(),
    ensures
        parse_reading_text(json_of(rd.id@, rfc3339_of(rd.timestamp), rd.location@, rd.temperature))
            == Some(
            JsonRecord {
                id: rd.id@,
                timestamp: rfc3339_of(rd.timestamp),
                location: rd.location@,
                temperature: rd.temperature,
            },
        ),
{
    lemma_decode_of_encode(rd.id@, rfc3339_of(rd.timestamp), rd.location@, rd.temperature);
}

/// The interchange encoder rejected a reading. Present for interface
/// symmetry: the verified encoder is total on well-formed readings, so the
/// library never produces this value.
#[derive(Clone, Copy, PartialEq, Eq, Structural, Debug)]
pub enum SerializationError {
    Unencodable,
}

/// A source of uniform samples, injected into the generator so that a test
/// can supply a deterministic one.
pub trait RandomSource {
    /// What the source says of its next sample, beyond the range: a
    /// deterministic source pins the value down here; a pseudorandom one
    /// can promise nothing more.
    spec fn sample_post(&self, lo: u32, hi: u32, r: u32) -> bool;

    /// One sample from the inclusive range `[lo, hi]`.
    fn sample_in(&mut self, lo: u32, hi: u32) -> (r: u32)
        requires
            lo <= hi,
        ensures
            lo <= r <= hi,
            old(self).sample_post(lo, hi, r),
    ;
}

/// The process-wide pseudorandom source.
pub struct ThreadRandom;

impl RandomSource for ThreadRandom {
    /// A pseudorandom draw: nothing holds of it beyond the range.
    open spec fn sample_post(&self, lo: u32, hi: u32, r: u32) -> bool {
        true
    }

    fn sample_in(&mut self, lo: u32, hi: u32) -> (r: u32)
    {
        sample_inclusive(lo, hi)
    }
}

/// A source fixed to one value, clamped into the requested range; for
/// deterministic runs.
pub struct FixedRandom {
    pub value: u32,
}

impl RandomSource for FixedRandom {
    /// The sample is exactly the held value, clamped into the range.
    open spec fn sample_post(&self, lo: u32, hi: u32, r: u32) -> bool {
        r == if self.value < lo {
            lo
        } else if self.value > hi {
            hi
        } else {
            self.value
        }
    }

    fn sample_in(&mut self, lo: u32, hi: u32) -> (r: u32)
    {
        if self.value < lo {
            lo
        } else if self.value > hi {
            hi
        } else {
            self.value
        }
    }
}

/// A generator bound permanently to one location label.
pub struct TempratureSensor {
    pub location: String,
}

impl TempratureSensor {
    /// Binds a generator to `location`. The label is not validated: any
    /// string, the empty one included, is accepted.
    pub fn new(location: String) -> (r: Self)
        ensures
            r.location == location,
    {
        Self { location }
    }

    /// Produces one reading: a fresh random identifier, the current UTC
    /// time, the bound location and a temperature sampled uniformly from
    /// the fixed inclusive interval. Never fails.
    pub fn measure(&self) -> (r: SensorReading)
        ensures
            r.wf(),
            r.location@ == self.location@,
            uuid_v4_text_shape(r.id@),
    {
        let mut source = ThreadRandom;
        self.measure_with(&mut source)
    }

    /// One reading, rendered: `measure`, then `serialize`. Always succeeds,
    /// with the payload of some well-formed reading bound to this sensor's
    /// location.
    pub fn get_measurement_json(&self) -> (r: Result<String, SerializationError>)
        ensures
            r is Ok,
            exists|rd: SensorReading|
                {
                    &&& rd.wf()
                    &&& rd.location@ == self.location@
                    &&& r->Ok_0@ == #[trigger] json_of(
                        rd.id@,
                        rfc3339_of(rd.timestamp),
                        rd.location@,
                        rd.temperature,
                    )
                },
    {
        let reading = self.measure();
        match reading.serialize() {
            Ok(s) => {
                proof {
                    assert(s@ == json_of(
                        reading.id@,
                        rfc3339_of(reading.timestamp),
                        reading.location@,
                        reading.temperature,
                    ));
                }
                Ok(s)
            },
            Err(_) => {
                proof {
                    assert(false);
                }
                Err(SerializationError::Unencodable)
            },
        }
    }

    /// `measure`, drawing the temperature from the given source: whatever
    /// that source says of its sample holds of the reading's temperature.
    pub fn measure_with<R: RandomSource>(&self, source: &mut R) -> (r: SensorReading)
        ensures
            r.wf(),
            r.location@ == self.location@,
            uuid_v4_text_shape(r.id@),
            old(source).sample_post(TEMP_MIN_CENTI, TEMP_MAX_CENTI, r.temperature),
    {
        let temperature = source.sample_in(TEMP_MIN_CENTI, TEMP_MAX_CENTI);
        let mut timestamp = now_millis();
        if timestamp < 0 {
            timestamp = 0;
        }
        if timestamp > MAX_TIMESTAMP_MILLIS {
            timestamp = MAX_TIMESTAMP_MILLIS;
        }
        SensorReading {
            id: fresh_uuid_text(),
            timestamp,
            location: self.location.clone(),
            temperature,
        }
    }
}

} // verus!
