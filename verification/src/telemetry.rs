//! The text lines of the telemetry source.
//!
//! Two kinds of line carry readings:
//!
//! ```text
//! Received:  136  -91.0  18.45  995.85  58.93  300.045200
//! RSSI_PACKET: -89.5 dBm
//! ```
//!
//! The first holds the message number, the signal strength of the
//! acknowledgement, temperature, pressure, humidity and altitude; the
//! second the signal strength of the packet. Any other line, and any field
//! that does not read as a number, yields nothing.

use crate::fixed::{saturate, saturated, ONE};
use crate::graph::data::Sample;
use crate::text::numbers::{parse_sample, parse_u64, sample_of, unsigned_of};
use crate::text::{ascii, has_prefix, split_words, starts_with, trim, trimmed, views, words};
use vstd::prelude::*;

verus! {

/// The readings of one telemetry line, each present if the line held it.
#[derive(Clone, Copy, Debug, PartialEq, Eq)]
pub struct Telemetry {
    pub msgnum: Option<u64>,
    pub rssi: Option<Sample>,
    pub temp: Option<Sample>,
    pub pres: Option<Sample>,
    pub hum: Option<Sample>,
    pub alt: Option<Sample>,
    pub rssi_packet: Option<Sample>,
}

/// The number of channels that the telemetry source feeds.
pub const CHANNELS: usize = 7;

/// The 64-bit number that a word writes, if it writes one.
pub open spec fn count_of(word: Seq<u8>) -> Option<u64> {
    match unsigned_of(word, u64::MAX as nat) {
        Some(v) => Some(v as u64),
        None => None,
    }
}

/// A message number as a sample, as far as the fixed-point range reaches.
pub open spec fn count_sample(n: u64) -> Sample {
    Sample::Finite(saturated(n * ONE) as i64)
}

/// The readings of a line that holds none.
pub open spec fn nothing() -> Telemetry {
    Telemetry {
        msgnum: None,
        rssi: None,
        temp: None,
        pres: None,
        hum: None,
        alt: None,
        rssi_packet: None,
    }
}

/// The readings that a telemetry line holds.
pub open spec fn telemetry_of(line: Seq<u8>) -> Telemetry {
    let w = words(line);
    if has_prefix(trimmed(line), ascii("Received: "@)) {
        if w.len() >= 7 {
            Telemetry {
                msgnum: count_of(w[1]),
                rssi: sample_of(w[2]),
                temp: sample_of(w[3]),
                pres: sample_of(w[4]),
                hum: sample_of(w[5]),
                alt: sample_of(w[6]),
                rssi_packet: None,
            }
        } else {
            nothing()
        }
    } else if has_prefix(trimmed(line), ascii("RSSI_PACKET:"@)) {
        if w.len() >= 2 {
            Telemetry { rssi_packet: sample_of(w[1]), ..nothing() }
        } else {
            nothing()
        }
    } else {
        nothing()
    }
}

impl Telemetry {
    /// The reading for the channel at `index`, in the order message
    /// number, acknowledged signal strength, temperature, pressure,
    /// humidity, altitude, packet signal strength.
    pub open spec fn reading(self, index: int) -> Option<Sample> {
        if index == 0 {
            match self.msgnum {
                Some(n) => Some(count_sample(n)),
                None => None,
            }
        } else if index == 1 {
            self.rssi
        } else if index == 2 {
            self.temp
        } else if index == 3 {
            self.pres
        } else if index == 4 {
            self.hum
        } else if index == 5 {
            self.alt
        } else if index == 6 {
            self.rssi_packet
        } else {
            None
        }
    }

    /// The readings by channel: one entry for each of the `CHANNELS`
    /// channels, in their order.
    pub fn readings(&self) -> (r: Vec<Option<Sample>>)
        ensures
            r@.len() == CHANNELS,
            forall|i: int| 0 <= i < CHANNELS ==> r@[i] == self.reading(i),
    {
        let first: Option<Sample> = match self.msgnum {
            Some(n) => Some(Sample::Finite(saturate((n as i128) * (ONE as i128)))),
            None => None,
        };
        let mut r: Vec<Option<Sample>> = Vec::new();
        r.push(first);
        r.push(self.rssi);
        r.push(self.temp);
        r.push(self.pres);
        r.push(self.hum);
        r.push(self.alt);
        r.push(self.rssi_packet);
        r
    }
}

/// Parse a telemetry line and extract all the readings it holds. A line
/// that is malformed or partial yields none.
pub fn parse_telemetry_line(line: &[u8]) -> (t: Telemetry)
    ensures
        t == telemetry_of(line@),
{
    let mut t = Telemetry {
        msgnum: None,
        rssi: None,
        temp: None,
        pres: None,
        hum: None,
        alt: None,
        rssi_packet: None,
    };
    let body: Vec<u8> = trim(line);
    let ws: Vec<Vec<u8>> = split_words(line);
    proof {
        reveal_strlit("Received: ");
        reveal_strlit("RSSI_PACKET:");
        vstd::string::is_ascii_spec_bytes("Received: ");
        vstd::string::is_ascii_spec_bytes("RSSI_PACKET:");
        assert forall|i: int| 0 <= i < ws@.len() implies #[trigger] views(ws@)[i] == ws@[i]@ by {}
    }
    if starts_with(body.as_slice(), "Received: ".as_bytes()) {
        if ws.len() >= 7 {
            t.msgnum = parse_u64(ws[1].as_slice());
            t.rssi = parse_sample(ws[2].as_slice());
            t.temp = parse_sample(ws[3].as_slice());
            t.pres = parse_sample(ws[4].as_slice());
            t.hum = parse_sample(ws[5].as_slice());
            t.alt = parse_sample(ws[6].as_slice());
        }
    } else if starts_with(body.as_slice(), "RSSI_PACKET:".as_bytes()) {
        if ws.len() >= 2 {
            t.rssi_packet = parse_sample(ws[1].as_slice());
        }
    }
    t
}

} // verus!
