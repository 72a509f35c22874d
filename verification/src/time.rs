//! Timestamps: seconds since the Unix epoch on the wire, an instant and the
//! zone in which it is shown in memory.

use vstd::prelude::*;
use crate::bytes::{parse_u32, read_u32, u32_be, write_u32};
use crate::error::TdfError;

verus! {

/// The number of seconds in a day. An offset from UTC is smaller than this on
/// either side.
pub const DAY_SECONDS: i32 = 86_400;

/// An instant with a resolution of one second, together with the offset from
/// UTC of the zone in which it is shown.
///
/// Its view is the number of seconds since the Unix epoch, which is all that
/// the wire format holds: a decoded instant is in UTC, and
/// [`TimeT::with_offset`] places one in another zone.
#[derive(Debug, Clone, Copy, PartialEq, Eq)]
pub struct TimeT {
    secs: u32,
    utc_offset: i32,
}

impl View for TimeT {
    type V = u32;

    closed spec fn view(&self) -> u32 {
        self.secs
    }
}

impl TimeT {
    #[verifier::type_invariant]
    spec fn offset_in_range(&self) -> bool {
        -DAY_SECONDS < self.utc_offset < DAY_SECONDS
    }

    /// Seconds by which the zone of this instant is ahead of UTC.
    pub closed spec fn spec_utc_offset(&self) -> i32 {
        self.utc_offset
    }

    /// Whether the instant is shown in UTC.
    pub open spec fn in_utc(&self) -> bool {
        self.spec_utc_offset() == 0
    }

    /// What decoding a timestamp at `at` gives: the seconds since the epoch.
    pub open spec fn parse(b: Seq<u8>, at: int) -> Result<u32, TdfError> {
        parse_u32(b, at)
    }

    /// The four bytes of a timestamp of `secs` seconds since the epoch.
    pub open spec fn encode(secs: u32) -> Seq<u8> {
        u32_be(secs)
    }

    /// The instant `secs` seconds after the Unix epoch, in UTC.
    pub fn from_timestamp(secs: u32) -> (t: TimeT)
        ensures
            t@ == secs,
            t.in_utc(),
    {
        TimeT { secs, utc_offset: 0 }
    }

    /// The instant `secs` seconds after the Unix epoch, in a zone whose local
    /// time is `utc_offset` seconds ahead of UTC. There is no such zone when
    /// the offset is a day or more.
    pub fn with_offset(secs: u32, utc_offset: i32) -> (r: Option<TimeT>)
        ensures
            r is Some <==> -DAY_SECONDS < utc_offset < DAY_SECONDS,
            r matches Some(t) ==> t@ == secs && t.spec_utc_offset() == utc_offset,
    {
        if -DAY_SECONDS < utc_offset && utc_offset < DAY_SECONDS {
            Some(TimeT { secs, utc_offset })
        } else {
            None
        }
    }

    /// Seconds since the Unix epoch.
    pub fn timestamp(&self) -> (r: i64)
        ensures
            r == self@,
    {
        self.secs as i64
    }

    /// Seconds by which the zone of this instant is ahead of UTC.
    pub fn utc_offset(&self) -> (r: i32)
        ensures
            r == self.spec_utc_offset(),
            -DAY_SECONDS < r < DAY_SECONDS,
    {
        proof {
            use_type_invariant(self);
        }
        self.utc_offset
    }

    /// Seconds between the Unix epoch and this instant as a local clock
    /// counts them: the timestamp moved by the offset from UTC.
    pub fn local_timestamp(&self) -> (r: i64)
        ensures
            r == self@ + self.spec_utc_offset(),
    {
        self.secs as i64 + self.utc_offset as i64
    }

    /// Decodes the timestamp that starts at `at`, as an instant in UTC. Fails
    /// only where fewer than four bytes are left there.
    pub fn read(input: &[u8], at: usize) -> (r: Result<TimeT, TdfError>)
        ensures
            match r {
                Ok(t) => TimeT::parse(input@, at as int) == Ok::<u32, TdfError>(t@) && t.in_utc(),
                Err(e) => TimeT::parse(input@, at as int) == Err::<u32, TdfError>(e),
            },
            r is Ok ==> at + 4 <= input.len(),
    {
        let secs: u32 = read_u32(input, at)?;
        Ok(TimeT::from_timestamp(secs))
    }

    /// Appends the four bytes of the timestamp.
    pub fn write(&self, output: &mut Vec<u8>)
        ensures
            final(output)@ == old(output)@ + TimeT::encode(self@),
    {
        write_u32(output, self.secs);
    }

    /// An instant is what its seconds and its offset from UTC are.
    pub proof fn lemma_same_parts(a: TimeT, b: TimeT)
        requires
            a@ == b@,
            a.spec_utc_offset() == b.spec_utc_offset(),
        ensures
            a == b,
    {
    }

    /// An encoded timestamp decodes to the seconds it was made from.
    pub proof fn lemma_round_trip(secs: u32)
        ensures
            TimeT::encode(secs).len() == 4,
            TimeT::parse(TimeT::encode(secs), 0) == Ok::<u32, TdfError>(secs),
    {
        crate::bytes::lemma_u32_round_trip(secs);
    }
}

} // verus!
