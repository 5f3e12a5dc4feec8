use vstd::prelude::*;
use vstd::string::StringExecFns;

verus! {

/// An instant with the UTC offset it was written with.
#[derive(Clone, Copy, Debug, PartialEq, Eq, Structural)]
pub struct Timestamp {
    /// Whole seconds since the Unix epoch.
    pub secs: i64,
    /// Nanoseconds past `secs`: below 1,000,000,000, except during a leap
    /// second, which is written as 1,000,000,000 or more.
    pub nanos: u32,
    /// Offset from UTC, in seconds east.
    pub offset_secs: i32,
}

/// What one scalar text field of a container gave: nothing at its path, or
/// the field with the outcome of reading it as variable-length Unicode and
/// as variable-length ASCII text.
pub enum FieldRead {
    Missing,
    Present { unicode: Option<String>, ascii: Option<String> },
}

/// What an opened container holds at the paths an inspection reads:
/// `entry`, `entry/start_time`, `entry/instrument` and
/// `entry/instrument/name`.
pub struct ContainerReads {
    pub has_entry: bool,
    pub start_time: FieldRead,
    pub has_instrument: bool,
    pub instrument_name: FieldRead,
}

/// File-system facts of a file, each absent where it could not be read.
#[derive(Clone, Copy, Debug)]
pub struct FileStat {
    pub modified: Option<Timestamp>,
    pub size: Option<u64>,
}

/// Why a file could not be inspected, or a field not read. Each variant
/// carries the message of the failed open, or the name of the group or
/// field at fault.
#[derive(Clone, Debug, PartialEq, Eq)]
pub enum InspectError {
    Open(String),
    Schema(String),
    PathNotFound(String),
    Decode(String),
    TimestampParse(String),
}

/// The facts gathered from one experiment file.
#[derive(Clone, Debug)]
pub struct InspectResult {
    pub instrument: String,
    pub start_time: Option<Timestamp>,
    pub modification_time: Option<Timestamp>,
    pub file_size: Option<u64>,
}

/// The instant that an RFC 3339 text with a numeric offset denotes, or
/// `None` where the text does not conform.
pub uninterp spec fn rfc3339_value(s: Seq<char>) -> Option<Timestamp>;

/// Relies on chrono::DateTime::parse_from_rfc3339: it accepts RFC 3339 text
/// and yields the instant with its offset; the outcome depends on the text
/// alone.
#[verifier::external_body]
fn parse_rfc3339(s: &str) -> (r: Option<Timestamp>)
    ensures
        r == rfc3339_value(s@),
{
    match chrono::DateTime::parse_from_rfc3339(s) {
        Ok(t) => Some(
            Timestamp {
                secs: t.timestamp(),
                nanos: t.timestamp_subsec_nanos(),
                offset_secs: t.offset().local_minus_utc(),
            },
        ),
        Err(_) => None,
    }
}

/// The text of a field: its Unicode reading, else its ASCII reading.
pub open spec fn decoded_text(f: FieldRead) -> Option<String> {
    match f {
        FieldRead::Missing => None,
        FieldRead::Present { unicode, ascii } => match unicode {
            Some(u) => Some(u),
            None => ascii,
        },
    }
}

/// The start time that a field yields, absent on any failure.
pub open spec fn optional_time(f: FieldRead) -> Option<Timestamp> {
    match decoded_text(f) {
        Some(t) => rfc3339_value(t@),
        None => None,
    }
}

/// The text of field `name`: Unicode first, ASCII second.
pub fn read_field(field: FieldRead, name: &str) -> (r: Result<String, InspectError>)
    ensures
        match field {
            FieldRead::Missing => r matches Err(InspectError::PathNotFound(n)) && n@ == name@,
            FieldRead::Present { .. } => match decoded_text(field) {
                Some(t) => r == Ok::<String, InspectError>(t),
                None => r matches Err(InspectError::Decode(n)) && n@ == name@,
            },
        },
{
    match field {
        FieldRead::Missing => Err(InspectError::PathNotFound(String::from_str(name))),
        FieldRead::Present { unicode, ascii } => match unicode {
            Some(u) => Ok(u),
            None => match ascii {
                Some(a) => Ok(a),
                None => Err(InspectError::Decode(String::from_str(name))),
            },
        },
    }
}

/// The timestamp in field `name`, read as text and parsed as RFC 3339.
pub fn read_timestamp(field: FieldRead, name: &str) -> (r: Result<Timestamp, InspectError>)
    ensures
        match field {
            FieldRead::Missing => r matches Err(InspectError::PathNotFound(n)) && n@ == name@,
            FieldRead::Present { .. } => match decoded_text(field) {
                Some(t) => match rfc3339_value(t@) {
                    Some(v) => r == Ok::<Timestamp, InspectError>(v),
                    None => r matches Err(InspectError::TimestampParse(n)) && n@ == name@,
                },
                None => r matches Err(InspectError::Decode(n)) && n@ == name@,
            },
        },
{
    let text = read_field(field, name)?;
    match parse_rfc3339(text.as_str()) {
        Some(v) => Ok(v),
        None => Err(InspectError::TimestampParse(String::from_str(name))),
    }
}

/// Assembles the record of one file from its file-system facts and what its
/// container held. A failed open, a missing `entry` or `instrument` group,
/// or an instrument name that is missing or cannot be decoded fails the
/// whole inspection; a missing or malformed start time only leaves
/// `start_time` absent.
pub fn inspect_container(stat: FileStat, container: Result<ContainerReads, String>) -> (r: Result<
    InspectResult,
    InspectError,
>)
    ensures
        match container {
            Err(m) => r == Err::<InspectResult, InspectError>(InspectError::Open(m)),
            Ok(c) => if !c.has_entry {
                r matches Err(InspectError::Schema(g)) && g@ == "entry"@
            } else if !c.has_instrument {
                r matches Err(InspectError::Schema(g)) && g@ == "instrument"@
            } else {
                match c.instrument_name {
                    FieldRead::Missing => r matches Err(InspectError::PathNotFound(n)) && n@
                        == "name"@,
                    FieldRead::Present { .. } => match decoded_text(
                        c.instrument_name,
                    ) {
                        Some(name) => r matches Ok(rec) && rec.instrument == name && rec.start_time
                            == optional_time(c.start_time) && rec.modification_time
                            == stat.modified && rec.file_size == stat.size,
                        None => r matches Err(InspectError::Decode(n)) && n@ == "name"@,
                    },
                }
            },
        },
{
    let c = match container {
        Err(m) => {
            return Err(InspectError::Open(m));
        },
        Ok(c) => c,
    };
    if !c.has_entry {
        return Err(InspectError::Schema(String::from_str("entry")));
    }
    let start_time = match read_timestamp(c.start_time, "start_time") {
        Ok(t) => Some(t),
        Err(_) => None,
    };
    if !c.has_instrument {
        return Err(InspectError::Schema(String::from_str("instrument")));
    }
    let instrument = read_field(c.instrument_name, "name")?;
    Ok(
        InspectResult {
            instrument,
            start_time,
            modification_time: stat.modified,
            file_size: stat.size,
        },
    )
}

} // verus!
