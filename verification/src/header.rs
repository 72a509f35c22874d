//! The fixed preamble of the file: signature, version, number of entries and
//! three timestamps.

use vstd::prelude::*;
use crate::bytes::{
    be_u32, bits_of_i32, has_room, i32_of_bits, lemma_be_u32_local, lemma_i32_round_trip,
    read_i32, read_u32, skip_padding, u32_be, write_i32, write_padding, write_u32, zeros,
};
use crate::error::TdfError;
use crate::time::TimeT;

verus! {

/// The signature with which every file starts.
pub const MAGIC: [u8; 16] = [
    0x82, 0x4b, 0x60, 0x41, 0xd3, 0x11, 0x84, 0xca, 0x60, 0x00, 0xb6, 0xac, 0x16, 0x68, 0x0c, 0x08,
];

/// The number of bytes that the preamble takes, signature and padding
/// included.
pub const HEADER_SIZE: usize = 64;

/// Whether a byte of `b` in the place of the signature, which starts at
/// `at`, is not the byte that the signature has there. Bytes past the end of
/// `b` do not count.
pub open spec fn magic_differs(b: Seq<u8>, at: int) -> bool {
    exists|i: int| 0 <= i < 16 && at + i < b.len() && #[trigger] b[at + i] != MAGIC@[i]
}

/// What looking for the signature at `at` gives. A wrong byte is found
/// before a missing one.
pub open spec fn parse_magic(b: Seq<u8>, at: int) -> Result<(), TdfError> {
    if magic_differs(b, at) {
        Err(TdfError::MagicMismatch)
    } else if at + 16 > b.len() {
        Err(TdfError::TruncatedInput { offset: at as usize })
    } else {
        Ok(())
    }
}

/// Looks for the signature at `at`.
pub fn expect_magic(input: &[u8], at: usize) -> (r: Result<(), TdfError>)
    ensures
        r == parse_magic(input@, at as int),
        r is Ok ==> at + 16 <= input.len(),
{
    let mut i: usize = 0;
    while i < 16
        invariant
            i <= 16,
            forall|j: int| 0 <= j < i ==> at + j < input@.len() && input@[at + j] == MAGIC@[j],
        decreases 16 - i,
    {
        if !has_room(input, at, i + 1) {
            return Err(TdfError::TruncatedInput { offset: at });
        }
        if input[at + i] != MAGIC[i] {
            return Err(TdfError::MagicMismatch);
        }
        i += 1;
    }
    Ok(())
}

/// What a preamble holds.
pub struct TdfHeaderInfoView {
    pub version: u32,
    pub n_entries: i32,
    /// Seconds since the Unix epoch.
    pub creation_date: u32,
    /// Seconds since the Unix epoch.
    pub last_modification_date: u32,
    /// Seconds since the Unix epoch.
    pub last_access_date: u32,
}

impl TdfHeaderInfoView {
    /// A preamble declares no negative number of entries.
    pub open spec fn wf(self) -> bool {
        self.n_entries >= 0
    }

    /// What decoding a preamble at `at` gives: the fields in the order in
    /// which they stand, or the error of the first one that cannot be had.
    pub open spec fn parse(b: Seq<u8>, at: int) -> Result<TdfHeaderInfoView, TdfError> {
        if parse_magic(b, at) is Err {
            Err(parse_magic(b, at)->Err_0)
        } else if at + 20 > b.len() {
            Err(TdfError::TruncatedInput { offset: (at + 16) as usize })
        } else if at + 24 > b.len() {
            Err(TdfError::TruncatedInput { offset: (at + 20) as usize })
        } else if i32_of_bits(be_u32(b, at + 20)) < 0 {
            Err(TdfError::NegativeEntryCount { count: i32_of_bits(be_u32(b, at + 20)) })
        } else if at + 32 > b.len() {
            Err(TdfError::TruncatedInput { offset: (at + 24) as usize })
        } else if at + 36 > b.len() {
            Err(TdfError::TruncatedInput { offset: (at + 32) as usize })
        } else if at + 40 > b.len() {
            Err(TdfError::TruncatedInput { offset: (at + 36) as usize })
        } else if at + 44 > b.len() {
            Err(TdfError::TruncatedInput { offset: (at + 40) as usize })
        } else if at + 64 > b.len() {
            Err(TdfError::TruncatedInput { offset: (at + 44) as usize })
        } else {
            Ok(
                TdfHeaderInfoView {
                    version: be_u32(b, at + 16),
                    n_entries: i32_of_bits(be_u32(b, at + 20)),
                    creation_date: be_u32(b, at + 32),
                    last_modification_date: be_u32(b, at + 36),
                    last_access_date: be_u32(b, at + 40),
                },
            )
        }
    }

    /// The bytes of the preamble: the signature, the fields, and zeros for
    /// padding.
    pub open spec fn encode(self) -> Seq<u8> {
        MAGIC@ + u32_be(self.version) + u32_be(bits_of_i32(self.n_entries)) + zeros(8) + u32_be(
            self.creation_date,
        ) + u32_be(self.last_modification_date) + u32_be(self.last_access_date) + zeros(20)
    }

    /// An encoded preamble takes [`HEADER_SIZE`] bytes.
    pub proof fn lemma_encode_len(self)
        ensures
            self.encode().len() == HEADER_SIZE,
    {
    }

    /// Wherever the bytes of an encoded preamble stand in `b`, decoding there
    /// gives the preamble back.
    pub proof fn lemma_parse_encoded(self, b: Seq<u8>, at: int)
        requires
            self.wf(),
            0 <= at,
            at + HEADER_SIZE <= b.len(),
            b.subrange(at, at + HEADER_SIZE) == self.encode(),
        ensures
            TdfHeaderInfoView::parse(b, at) == Ok::<TdfHeaderInfoView, TdfError>(self),
    {
        let e = self.encode();
        assert(e.len() == 64);
        assert(e.subrange(16, 20) =~= u32_be(self.version));
        assert(e.subrange(20, 24) =~= u32_be(bits_of_i32(self.n_entries)));
        assert(e.subrange(32, 36) =~= u32_be(self.creation_date));
        assert(e.subrange(36, 40) =~= u32_be(self.last_modification_date));
        assert(e.subrange(40, 44) =~= u32_be(self.last_access_date));
        assert forall|i: int| 0 <= i < 64 implies #[trigger] b[at + i] == e[i] by {
            assert(b.subrange(at, at + 64)[i] == b[at + i]);
        }
        assert(!magic_differs(b, at)) by {
            assert forall|i: int| 0 <= i < 16 && at + i < b.len() implies b[at + i] == MAGIC@[i] by {
                assert(e[i] == MAGIC@[i]);
            }
        }
        assert(b.subrange(at + 16, at + 20) =~= e.subrange(16, 20));
        assert(b.subrange(at + 20, at + 24) =~= e.subrange(20, 24));
        assert(b.subrange(at + 32, at + 36) =~= e.subrange(32, 36));
        assert(b.subrange(at + 36, at + 40) =~= e.subrange(36, 40));
        assert(b.subrange(at + 40, at + 44) =~= e.subrange(40, 44));
        lemma_be_u32_local(b, at + 16, self.version);
        lemma_be_u32_local(b, at + 20, bits_of_i32(self.n_entries));
        lemma_be_u32_local(b, at + 32, self.creation_date);
        lemma_be_u32_local(b, at + 36, self.last_modification_date);
        lemma_be_u32_local(b, at + 40, self.last_access_date);
        lemma_i32_round_trip(self.n_entries);
    }
}

/// The preamble of a file.
#[derive(Debug, Clone, Copy, PartialEq, Eq)]
pub struct TdfHeaderInfo {
    version: u32,
    n_entries: i32,
    creation_date: TimeT,
    last_modification_date: TimeT,
    last_access_date: TimeT,
}

impl View for TdfHeaderInfo {
    type V = TdfHeaderInfoView;

    /// What the preamble holds on the wire: its fields, each timestamp as
    /// seconds since the Unix epoch.
    open spec fn view(&self) -> TdfHeaderInfoView {
        TdfHeaderInfoView {
            version: self.spec_version(),
            n_entries: self.spec_n_entries(),
            creation_date: self.spec_creation_date()@,
            last_modification_date: self.spec_last_modification_date()@,
            last_access_date: self.spec_last_access_date()@,
        }
    }
}

impl TdfHeaderInfo {
    #[verifier::type_invariant]
    spec fn count_not_negative(&self) -> bool {
        self.n_entries >= 0
    }

    /// The version of the format.
    pub closed spec fn spec_version(&self) -> u32 {
        self.version
    }

    /// The number of records in the jump table.
    pub closed spec fn spec_n_entries(&self) -> i32 {
        self.n_entries
    }

    /// When the file was made.
    pub closed spec fn spec_creation_date(&self) -> TimeT {
        self.creation_date
    }

    /// When the file was last changed.
    pub closed spec fn spec_last_modification_date(&self) -> TimeT {
        self.last_modification_date
    }

    /// When the file was last read.
    pub closed spec fn spec_last_access_date(&self) -> TimeT {
        self.last_access_date
    }

    /// Whether the three timestamps are shown in UTC.
    pub open spec fn in_utc(&self) -> bool {
        &&& self.spec_creation_date().in_utc()
        &&& self.spec_last_modification_date().in_utc()
        &&& self.spec_last_access_date().in_utc()
    }

    /// A preamble with these fields. A negative number of entries is
    /// refused.
    pub fn new(
        version: u32,
        n_entries: i32,
        creation_date: TimeT,
        last_modification_date: TimeT,
        last_access_date: TimeT,
    ) -> (r: Result<TdfHeaderInfo, TdfError>)
        ensures
            match r {
                Ok(header) => {
                    &&& n_entries >= 0
                    &&& header.spec_version() == version
                    &&& header.spec_n_entries() == n_entries
                    &&& header.spec_creation_date() == creation_date
                    &&& header.spec_last_modification_date() == last_modification_date
                    &&& header.spec_last_access_date() == last_access_date
                },
                Err(e) => n_entries < 0 && e == (TdfError::NegativeEntryCount { count: n_entries }),
            },
    {
        if n_entries < 0 {
            return Err(TdfError::NegativeEntryCount { count: n_entries });
        }
        Ok(
            TdfHeaderInfo {
                version,
                n_entries,
                creation_date,
                last_modification_date,
                last_access_date,
            },
        )
    }

    /// The version of the format.
    #[verifier::when_used_as_spec(spec_version)]
    pub fn version(&self) -> (r: u32)
        ensures
            r == self.spec_version(),
    {
        self.version
    }

    /// The number of records in the jump table. It is never negative.
    #[verifier::when_used_as_spec(spec_n_entries)]
    pub fn n_entries(&self) -> (r: i32)
        ensures
            r == self.spec_n_entries(),
            r >= 0,
    {
        proof {
            use_type_invariant(self);
        }
        self.n_entries
    }

    /// When the file was made.
    #[verifier::when_used_as_spec(spec_creation_date)]
    pub fn creation_date(&self) -> (r: TimeT)
        ensures
            r == self.spec_creation_date(),
    {
        self.creation_date
    }

    /// When the file was last changed.
    #[verifier::when_used_as_spec(spec_last_modification_date)]
    pub fn last_modification_date(&self) -> (r: TimeT)
        ensures
            r == self.spec_last_modification_date(),
    {
        self.last_modification_date
    }

    /// When the file was last read.
    #[verifier::when_used_as_spec(spec_last_access_date)]
    pub fn last_access_date(&self) -> (r: TimeT)
        ensures
            r == self.spec_last_access_date(),
    {
        self.last_access_date
    }

    /// Decodes the preamble that starts at `at`, its timestamps as instants
    /// in UTC.
    pub fn read(input: &[u8], at: usize) -> (r: Result<TdfHeaderInfo, TdfError>)
        ensures
            match r {
                Ok(h) => TdfHeaderInfoView::parse(input@, at as int) == Ok::<
                    TdfHeaderInfoView,
                    TdfError,
                >(h@) && h@.wf() && h.in_utc(),
                Err(e) => TdfHeaderInfoView::parse(input@, at as int) == Err::<
                    TdfHeaderInfoView,
                    TdfError,
                >(e),
            },
            r is Ok ==> at + HEADER_SIZE <= input.len(),
    {
        expect_magic(input, at)?;
        let version: u32 = read_u32(input, at + 16)?;
        let n_entries: i32 = read_i32(input, at + 20)?;
        if n_entries < 0 {
            return Err(TdfError::NegativeEntryCount { count: n_entries });
        }
        skip_padding(input, at + 24, 8)?;
        let creation_date = TimeT::read(input, at + 32)?;
        let last_modification_date = TimeT::read(input, at + 36)?;
        let last_access_date = TimeT::read(input, at + 40)?;
        skip_padding(input, at + 44, 20)?;
        Ok(
            TdfHeaderInfo {
                version,
                n_entries,
                creation_date,
                last_modification_date,
                last_access_date,
            },
        )
    }

    /// Appends the bytes of the preamble.
    pub fn write(&self, output: &mut Vec<u8>)
        ensures
            final(output)@ == old(output)@ + self@.encode(),
    {
        let mut i: usize = 0;
        while i < 16
            invariant
                i <= 16,
                output@ == old(output)@ + MAGIC@.take(i as int),
            decreases 16 - i,
        {
            output.push(MAGIC[i]);
            i += 1;
            assert(output@ =~= old(output)@ + MAGIC@.take(i as int));
        }
        assert(MAGIC@.take(16) =~= MAGIC@);
        write_u32(output, self.version);
        write_i32(output, self.n_entries);
        write_padding(output, 8);
        self.creation_date.write(output);
        self.last_modification_date.write(output);
        self.last_access_date.write(output);
        write_padding(output, 20);
        assert(output@ =~= old(output)@ + self@.encode());
    }
}

} // verus!
