//! Node records and their validation.
//!
//! The remote source serves a JSON array of node objects. The transport
//! layer outside the library deserializes each object permissively into
//! a `RawNodeRecord`, every field optional; `decode_batch` then checks
//! the shape the synchronizer requires and produces `RemoteNodeRecord`s,
//! or the `DecodeError` naming the first defect. A localized-name block
//! is well-formed only when it carries the default English name.

use vstd::prelude::*;

verus! {

/// Largest epoch second the library accepts in a record: the last
/// second of year 9999, the latest instant RFC 3339 text can carry with
/// a four-digit year.
pub const MAX_FIRST_SEEN: u64 = 253_402_300_799;

/// Localized names of a place, keyed by language; the English name is
/// required, the rest are optional.
pub struct NodeLocation {
    pub de: Option<String>,
    pub en: String,
    pub es: Option<String>,
    pub fr: Option<String>,
    pub ja: Option<String>,
    pub pt_br: Option<String>,
    pub ru: Option<String>,
    pub zh_cn: Option<String>,
}

/// A node record as the remote source describes it, after validation.
pub struct RemoteNodeRecord {
    /// Identity key: globally unique and immutable.
    pub public_key: String,
    /// Display alias; mutable upstream.
    pub alias: String,
    pub channels: i64,
    /// Capacity in satoshis.
    pub capacity: u64,
    /// First-seen instant in Unix epoch seconds.
    pub first_seen: u64,
    pub updated_at: i64,
    pub city: Option<NodeLocation>,
    pub country: Option<NodeLocation>,
    pub iso_code: Option<String>,
    pub subdivision: Option<String>,
}

/// A localized-name block as deserialized, before validation.
pub struct RawNodeLocation {
    pub de: Option<String>,
    pub en: Option<String>,
    pub es: Option<String>,
    pub fr: Option<String>,
    pub ja: Option<String>,
    pub pt_br: Option<String>,
    pub ru: Option<String>,
    pub zh_cn: Option<String>,
}

/// A node object as deserialized, before validation: every field that
/// the source may omit or malform is optional.
pub struct RawNodeRecord {
    pub public_key: Option<String>,
    pub alias: Option<String>,
    pub channels: Option<i64>,
    pub capacity: Option<u64>,
    pub first_seen: Option<u64>,
    pub updated_at: Option<i64>,
    pub city: Option<RawNodeLocation>,
    pub country: Option<RawNodeLocation>,
    pub iso_code: Option<String>,
    pub subdivision: Option<String>,
}

/// Why a fetched payload was rejected.
#[derive(Clone, Copy, PartialEq, Eq, Structural, Debug)]
pub enum DecodeError {
    /// The body was not a JSON array of node objects at all; raised by
    /// the transport layer before the records reach `decode_batch`.
    MalformedPayload,
    MissingPublicKey,
    MissingAlias,
    MissingChannels,
    MissingCapacity,
    MissingFirstSeen,
    MissingUpdatedAt,
    MissingCityName,
    MissingCountryName,
    FirstSeenOutOfRange,
}

/// Why one sync cycle's fetch failed.
pub enum FetchError {
    /// The outbound request did not complete.
    Transport { message: String },
    /// The response body did not have the expected shape.
    Decode { error: DecodeError },
}

/// Why the store rejected a write.
pub struct PersistError {
    pub message: String,
}

pub open spec fn location_ok(raw: RawNodeLocation) -> bool {
    raw.en is Some
}

pub open spec fn record_ok(raw: RawNodeRecord) -> bool {
    &&& raw.public_key is Some
    &&& raw.alias is Some
    &&& raw.channels is Some
    &&& raw.capacity is Some
    &&& raw.first_seen is Some
    &&& raw.first_seen->0 <= MAX_FIRST_SEEN
    &&& raw.updated_at is Some
    &&& (raw.city is Some ==> location_ok(raw.city->0))
    &&& (raw.country is Some ==> location_ok(raw.country->0))
}

/// The error that a malformed record is rejected with: the first check
/// that fails, in field order.
pub open spec fn record_error(raw: RawNodeRecord) -> DecodeError {
    if raw.public_key is None {
        DecodeError::MissingPublicKey
    } else if raw.alias is None {
        DecodeError::MissingAlias
    } else if raw.channels is None {
        DecodeError::MissingChannels
    } else if raw.capacity is None {
        DecodeError::MissingCapacity
    } else if raw.first_seen is None {
        DecodeError::MissingFirstSeen
    } else if raw.updated_at is None {
        DecodeError::MissingUpdatedAt
    } else if raw.city is Some && !location_ok(raw.city->0) {
        DecodeError::MissingCityName
    } else if raw.country is Some && !location_ok(raw.country->0) {
        DecodeError::MissingCountryName
    } else {
        DecodeError::FirstSeenOutOfRange
    }
}

pub open spec fn decoded_location(raw: RawNodeLocation) -> NodeLocation {
    NodeLocation {
        de: raw.de,
        en: raw.en->0,
        es: raw.es,
        fr: raw.fr,
        ja: raw.ja,
        pt_br: raw.pt_br,
        ru: raw.ru,
        zh_cn: raw.zh_cn,
    }
}

pub open spec fn decoded_record(raw: RawNodeRecord) -> RemoteNodeRecord {
    RemoteNodeRecord {
        public_key: raw.public_key->0,
        alias: raw.alias->0,
        channels: raw.channels->0,
        capacity: raw.capacity->0,
        first_seen: raw.first_seen->0,
        updated_at: raw.updated_at->0,
        city: if raw.city is Some {
            Some(decoded_location(raw.city->0))
        } else {
            None
        },
        country: if raw.country is Some {
            Some(decoded_location(raw.country->0))
        } else {
            None
        },
        iso_code: raw.iso_code,
        subdivision: raw.subdivision,
    }
}

fn decode_location(raw: RawNodeLocation) -> (r: Option<NodeLocation>)
    ensures
        location_ok(raw) ==> (r matches Some(loc) && loc == decoded_location(raw)),
        !location_ok(raw) ==> r is None,
{
    match raw.en {
        Some(en) => Some(
            NodeLocation {
                de: raw.de,
                en,
                es: raw.es,
                fr: raw.fr,
                ja: raw.ja,
                pt_br: raw.pt_br,
                ru: raw.ru,
                zh_cn: raw.zh_cn,
            },
        ),
        None => None,
    }
}

/// Validates one deserialized node object. Succeeds exactly on records
/// that carry every required field, a default English name in each
/// localized block present, and a first-seen instant RFC 3339 text can
/// name.
pub fn decode_record(raw: RawNodeRecord) -> (r: Result<RemoteNodeRecord, DecodeError>)
    ensures
        record_ok(raw) ==> (r matches Ok(rec) && rec == decoded_record(raw)),
        !record_ok(raw) ==> (r matches Err(e) && e == record_error(raw)),
{
    let RawNodeRecord {
        public_key,
        alias,
        channels,
        capacity,
        first_seen,
        updated_at,
        city,
        country,
        iso_code,
        subdivision,
    } = raw;
    let public_key = match public_key {
        Some(v) => v,
        None => {
            return Err(DecodeError::MissingPublicKey);
        },
    };
    let alias = match alias {
        Some(v) => v,
        None => {
            return Err(DecodeError::MissingAlias);
        },
    };
    let channels = match channels {
        Some(v) => v,
        None => {
            return Err(DecodeError::MissingChannels);
        },
    };
    let capacity = match capacity {
        Some(v) => v,
        None => {
            return Err(DecodeError::MissingCapacity);
        },
    };
    let first_seen = match first_seen {
        Some(v) => v,
        None => {
            return Err(DecodeError::MissingFirstSeen);
        },
    };
    let updated_at = match updated_at {
        Some(v) => v,
        None => {
            return Err(DecodeError::MissingUpdatedAt);
        },
    };
    let city = match city {
        Some(loc) => match decode_location(loc) {
            Some(loc) => Some(loc),
            None => {
                return Err(DecodeError::MissingCityName);
            },
        },
        None => None,
    };
    let country = match country {
        Some(loc) => match decode_location(loc) {
            Some(loc) => Some(loc),
            None => {
                return Err(DecodeError::MissingCountryName);
            },
        },
        None => None,
    };
    if first_seen > MAX_FIRST_SEEN {
        return Err(DecodeError::FirstSeenOutOfRange);
    }
    Ok(
        RemoteNodeRecord {
            public_key,
            alias,
            channels,
            capacity,
            first_seen,
            updated_at,
            city,
            country,
            iso_code,
            subdivision,
        },
    )
}

/// Whether every record of a deserialized batch is well-formed.
pub open spec fn batch_ok(raws: Seq<RawNodeRecord>) -> bool {
    forall|i: int| 0 <= i < raws.len() ==> record_ok(#[trigger] raws[i])
}

/// The batch after validation, record by record.
pub open spec fn decoded_batch(raws: Seq<RawNodeRecord>) -> Seq<RemoteNodeRecord> {
    raws.map_values(|raw: RawNodeRecord| decoded_record(raw))
}

/// Validates a deserialized batch. Succeeds exactly when every record
/// is well-formed; otherwise rejects the whole payload with the first
/// defective record's error, and the cycle's reconciliation never sees
/// any of it.
pub fn decode_batch(raws: Vec<RawNodeRecord>) -> (r: Result<Vec<RemoteNodeRecord>, DecodeError>)
    ensures
        batch_ok(raws@) ==> (r matches Ok(recs) && recs@ == decoded_batch(raws@)),
        !batch_ok(raws@) ==> (r matches Err(e) && exists|i: int|
            0 <= i < raws@.len() && !record_ok(raws@[i]) && e == record_error(raws@[i]) && (forall|
                j: int,
            |
                0 <= j < i ==> record_ok(#[trigger] raws@[j]))),
{
    let ghost raws_seq = raws@;
    let mut rest = raws;
    let mut out: Vec<RemoteNodeRecord> = Vec::new();
    while rest.len() > 0
        invariant
            raws_seq == raws@,
            out@.len() + rest@.len() == raws_seq.len(),
            rest@ =~= raws_seq.skip(out@.len() as int),
            forall|i: int|
                0 <= i < out@.len() ==> record_ok(#[trigger] raws_seq[i]) && out@[i]
                    == decoded_record(raws_seq[i]),
        decreases rest.len(),
    {
        let ghost k = out@.len() as int;
        let raw = rest.remove(0);
        proof {
            assert(raw == raws_seq[k]);
            assert(rest@ =~= raws_seq.skip(k + 1));
        }
        match decode_record(raw) {
            Ok(rec) => {
                out.push(rec);
            },
            Err(e) => {
                proof {
                    assert(0 <= k < raws_seq.len());
                    assert(!record_ok(raws_seq[k]));
                    assert(e == record_error(raws_seq[k]));
                    assert(forall|j: int| 0 <= j < k ==> record_ok(#[trigger] raws_seq[j]));
                    assert(!batch_ok(raws_seq));
                    assert(exists|i: int|
                        0 <= i < raws_seq.len() && !record_ok(raws_seq[i]) && e == record_error(
                            raws_seq[i],
                        ) && (forall|j: int| 0 <= j < i ==> record_ok(#[trigger] raws_seq[j])))
                        by {
                        assert(0 <= k < raws_seq.len() && !record_ok(raws_seq[k]) && e
                            == record_error(raws_seq[k]) && (forall|j: int|
                            0 <= j < k ==> record_ok(#[trigger] raws_seq[j])));
                    }
                }
                return Err(e);
            },
        }
    }
    proof {
        assert(out@ =~= decoded_batch(raws_seq));
    }
    Ok(out)
}

} // verus!
