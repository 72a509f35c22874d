//! The records of the jump table. Each describes one block of data that
//! stands elsewhere in the file.

use vstd::prelude::*;
use crate::block::{TdfBlockType, TdfFormat, BLOCK_TYPES};
use crate::bytes::{
    be_u32, bits_of_i32, has_room, i32_of_bits, lemma_be_u32_local, lemma_i32_round_trip,
    read_i32, skip_padding, u32_be, write_i32, write_padding, zeros,
};
use crate::error::TdfError;
use crate::time::TimeT;

verus! {

/// The number of bytes of the comment of a record.
pub const COMMENT_SIZE: usize = 256;

/// The number of bytes that a record takes: seven fields of four bytes, four
/// bytes of padding and the comment.
pub const ENTRY_SIZE: usize = 288;

/// What a record holds.
pub struct TdfJumptableEntryView {
    pub block_type: TdfBlockType,
    /// The format tag as it stands on the wire. The block type gives it its
    /// meaning: see [`TdfJumptableEntryView::format_tag`].
    pub format: u32,
    pub offset: i32,
    pub size: i32,
    /// Seconds since the Unix epoch.
    pub creation_date: u32,
    /// Seconds since the Unix epoch.
    pub last_modification_date: u32,
    /// Seconds since the Unix epoch.
    pub last_access_date: u32,
    pub comment: Seq<u8>,
}

impl TdfJumptableEntryView {
    /// The comment has its fixed length.
    pub open spec fn wf(self) -> bool {
        self.comment.len() == COMMENT_SIZE
    }

    /// The format tag, as one of the record's block type.
    pub open spec fn format_tag(self) -> TdfFormat {
        TdfFormat::tag(self.block_type, self.format)
    }

    /// What decoding a record at `at` gives: the fields in the order in which
    /// they stand, or the error of the first one that cannot be had.
    pub open spec fn parse(b: Seq<u8>, at: int) -> Result<TdfJumptableEntryView, TdfError> {
        if at + 4 > b.len() {
            Err(TdfError::TruncatedInput { offset: at as usize })
        } else if be_u32(b, at) >= BLOCK_TYPES {
            Err(TdfError::InvalidDiscriminant { entry: 0, value: be_u32(b, at) })
        } else if at + 8 > b.len() {
            Err(TdfError::TruncatedInput { offset: (at + 4) as usize })
        } else if at + 12 > b.len() {
            Err(TdfError::TruncatedInput { offset: (at + 8) as usize })
        } else if at + 16 > b.len() {
            Err(TdfError::TruncatedInput { offset: (at + 12) as usize })
        } else if at + 20 > b.len() {
            Err(TdfError::TruncatedInput { offset: (at + 16) as usize })
        } else if at + 24 > b.len() {
            Err(TdfError::TruncatedInput { offset: (at + 20) as usize })
        } else if at + 28 > b.len() {
            Err(TdfError::TruncatedInput { offset: (at + 24) as usize })
        } else if at + 32 > b.len() {
            Err(TdfError::TruncatedInput { offset: (at + 28) as usize })
        } else if at + 288 > b.len() {
            Err(TdfError::TruncatedInput { offset: (at + 32) as usize })
        } else {
            Ok(
                TdfJumptableEntryView {
                    block_type: TdfBlockType::of_id(be_u32(b, at)),
                    format: be_u32(b, at + 4),
                    offset: i32_of_bits(be_u32(b, at + 8)),
                    size: i32_of_bits(be_u32(b, at + 12)),
                    creation_date: be_u32(b, at + 16),
                    last_modification_date: be_u32(b, at + 20),
                    last_access_date: be_u32(b, at + 24),
                    comment: b.subrange(at + 32, at + 288),
                },
            )
        }
    }

    /// The bytes of the record: the fields, zeros for padding, and the
    /// comment as it is.
    pub open spec fn encode(self) -> Seq<u8> {
        self.block_type.encode() + u32_be(self.format) + u32_be(bits_of_i32(self.offset))
            + u32_be(bits_of_i32(self.size)) + u32_be(self.creation_date) + u32_be(
            self.last_modification_date,
        ) + u32_be(self.last_access_date) + zeros(4) + self.comment
    }

    /// What decoding the record at position `i` gives, among records that
    /// stand one after the other from `at` on.
    pub open spec fn parse_nth(b: Seq<u8>, at: int, i: int) -> Result<
        TdfJumptableEntryView,
        TdfError,
    > {
        TdfJumptableEntryView::parse(b, at + ENTRY_SIZE * i)
    }

    /// What decoding `count` records gives that stand one after the other
    /// from `at` on: the records in the order in which they stand, or the
    /// error of the first one that cannot be had, with its position among
    /// them.
    pub open spec fn parse_all(b: Seq<u8>, at: int, count: nat) -> Result<
        Seq<TdfJumptableEntryView>,
        TdfError,
    >
        decreases count,
    {
        if count == 0 {
            Ok(Seq::empty())
        } else {
            match TdfJumptableEntryView::parse_all(b, at, (count - 1) as nat) {
                Err(e) => Err(e),
                Ok(before) => match TdfJumptableEntryView::parse_nth(b, at, count - 1) {
                    Err(e) => Err(e.spec_with_entry((count - 1) as usize)),
                    Ok(last) => Ok(before.push(last)),
                },
            }
        }
    }

    /// The bytes of the records of `entries`, one after the other.
    pub open spec fn encode_all(entries: Seq<TdfJumptableEntryView>) -> Seq<u8>
        decreases entries.len(),
    {
        if entries.len() == 0 {
            Seq::empty()
        } else {
            TdfJumptableEntryView::encode_all(entries.drop_last()) + entries.last().encode()
        }
    }

    /// Whether every record of `entries` is well formed.
    pub open spec fn all_wf(entries: Seq<TdfJumptableEntryView>) -> bool {
        forall|i: int| 0 <= i < entries.len() ==> (#[trigger] entries[i]).wf()
    }

    /// A record that was decoded is well formed.
    pub proof fn lemma_parse_wf(b: Seq<u8>, at: int)
        requires
            0 <= at,
        ensures
            TdfJumptableEntryView::parse(b, at) matches Ok(e) ==> e.wf() && at + ENTRY_SIZE
                <= b.len(),
    {
    }

    /// A well-formed record takes [`ENTRY_SIZE`] bytes.
    pub proof fn lemma_encode_len(self)
        requires
            self.wf(),
        ensures
            self.encode().len() == ENTRY_SIZE,
    {
    }

    /// Wherever the bytes of an encoded record stand in `b`, decoding there
    /// gives the record back, the comment byte for byte.
    pub proof fn lemma_parse_encoded(self, b: Seq<u8>, at: int)
        requires
            self.wf(),
            0 <= at,
            at + ENTRY_SIZE <= b.len(),
            b.subrange(at, at + ENTRY_SIZE) == self.encode(),
        ensures
            TdfJumptableEntryView::parse(b, at) == Ok::<TdfJumptableEntryView, TdfError>(self),
    {
        let e = self.encode();
        assert(e.len() == 288);
        assert(e.subrange(0, 4) =~= u32_be(self.block_type.spec_id()));
        assert(e.subrange(4, 8) =~= u32_be(self.format));
        assert(e.subrange(8, 12) =~= u32_be(bits_of_i32(self.offset)));
        assert(e.subrange(12, 16) =~= u32_be(bits_of_i32(self.size)));
        assert(e.subrange(16, 20) =~= u32_be(self.creation_date));
        assert(e.subrange(20, 24) =~= u32_be(self.last_modification_date));
        assert(e.subrange(24, 28) =~= u32_be(self.last_access_date));
        assert(e.subrange(32, 288) =~= self.comment);
        assert forall|i: int| 0 <= i < 288 implies #[trigger] b[at + i] == e[i] by {
            assert(b.subrange(at, at + 288)[i] == b[at + i]);
        }
        assert(b.subrange(at, at + 4) =~= e.subrange(0, 4));
        assert(b.subrange(at + 4, at + 8) =~= e.subrange(4, 8));
        assert(b.subrange(at + 8, at + 12) =~= e.subrange(8, 12));
        assert(b.subrange(at + 12, at + 16) =~= e.subrange(12, 16));
        assert(b.subrange(at + 16, at + 20) =~= e.subrange(16, 20));
        assert(b.subrange(at + 20, at + 24) =~= e.subrange(20, 24));
        assert(b.subrange(at + 24, at + 28) =~= e.subrange(24, 28));
        assert(b.subrange(at + 32, at + 288) =~= e.subrange(32, 288));
        lemma_be_u32_local(b, at, self.block_type.spec_id());
        lemma_be_u32_local(b, at + 4, self.format);
        lemma_be_u32_local(b, at + 8, bits_of_i32(self.offset));
        lemma_be_u32_local(b, at + 12, bits_of_i32(self.size));
        lemma_be_u32_local(b, at + 16, self.creation_date);
        lemma_be_u32_local(b, at + 20, self.last_modification_date);
        lemma_be_u32_local(b, at + 24, self.last_access_date);
        lemma_i32_round_trip(self.offset);
        lemma_i32_round_trip(self.size);
        TdfBlockType::lemma_id_decodes(self.block_type);
    }

    /// Records that were decoded are as many as were asked for, each is what
    /// decoding at its place gives, and all of them lie inside the input.
    pub proof fn lemma_parse_all_ok(b: Seq<u8>, at: int, count: nat)
        requires
            0 <= at,
        ensures
            TdfJumptableEntryView::parse_all(b, at, count) matches Ok(entries) ==> {
                &&& entries.len() == count
                &&& TdfJumptableEntryView::all_wf(entries)
                &&& count > 0 ==> at + ENTRY_SIZE * count <= b.len()
                &&& forall|i: int|
                    0 <= i < count ==> TdfJumptableEntryView::parse_nth(b, at, i) == Ok::<
                        TdfJumptableEntryView,
                        TdfError,
                    >(#[trigger] entries[i])
            },
        decreases count,
    {
        if count > 0 {
            TdfJumptableEntryView::lemma_parse_all_ok(b, at, (count - 1) as nat);
            TdfJumptableEntryView::lemma_parse_wf(b, at + ENTRY_SIZE * (count - 1));
        }
    }

    /// Once a record cannot be had, asking for more records gives the same
    /// error.
    pub proof fn lemma_parse_all_error_stays(b: Seq<u8>, at: int, failed: nat, count: nat)
        requires
            failed <= count,
            TdfJumptableEntryView::parse_all(b, at, failed) is Err,
        ensures
            TdfJumptableEntryView::parse_all(b, at, count) == TdfJumptableEntryView::parse_all(
                b,
                at,
                failed,
            ),
        decreases count,
    {
        if failed < count {
            TdfJumptableEntryView::lemma_parse_all_error_stays(b, at, failed, (count - 1) as nat);
        }
    }

    /// Decoding records fails with the error of the first record that cannot
    /// be had, and names that record's position.
    pub proof fn lemma_parse_all_first_error(b: Seq<u8>, at: int, failed: nat, count: nat)
        requires
            failed < count,
            forall|i: int|
                0 <= i < failed ==> (#[trigger] TdfJumptableEntryView::parse_nth(b, at, i)) is Ok,
            TdfJumptableEntryView::parse_nth(b, at, failed as int) is Err,
        ensures
            TdfJumptableEntryView::parse_all(b, at, count) == Err::<
                Seq<TdfJumptableEntryView>,
                TdfError,
            >(
                TdfJumptableEntryView::parse_nth(b, at, failed as int)->Err_0.spec_with_entry(
                    failed as usize,
                ),
            ),
    {
        TdfJumptableEntryView::lemma_parse_all_succeeds(b, at, failed);
        TdfJumptableEntryView::lemma_parse_all_error_stays(b, at, failed + 1, count);
    }

    /// Where each of the first `count` records can be had, decoding them
    /// succeeds.
    pub proof fn lemma_parse_all_succeeds(b: Seq<u8>, at: int, count: nat)
        requires
            forall|i: int|
                0 <= i < count ==> (#[trigger] TdfJumptableEntryView::parse_nth(b, at, i)) is Ok,
        ensures
            TdfJumptableEntryView::parse_all(b, at, count) is Ok,
        decreases count,
    {
        if count > 0 {
            TdfJumptableEntryView::lemma_parse_all_succeeds(b, at, (count - 1) as nat);
        }
    }

    /// Where every block type that the input holds is a known one, the only
    /// way in which decoding records fails is that the input ends too early.
    pub proof fn lemma_parse_all_truncated(b: Seq<u8>, at: int, count: nat)
        requires
            0 <= at,
            forall|i: int|
                0 <= i < count && at + ENTRY_SIZE * i + 4 <= b.len() ==> #[trigger] be_u32(
                    b,
                    at + ENTRY_SIZE * i,
                ) < BLOCK_TYPES,
        ensures
            TdfJumptableEntryView::parse_all(b, at, count) matches Err(e) ==> e is TruncatedInput,
        decreases count,
    {
        if count > 0 {
            TdfJumptableEntryView::lemma_parse_all_truncated(b, at, (count - 1) as nat);
            let last_at = at + ENTRY_SIZE * (count - 1);
            if last_at + 4 <= b.len() {
                assert(be_u32(b, last_at) < BLOCK_TYPES);
            }
        }
    }

    /// Well-formed records take [`ENTRY_SIZE`] bytes each.
    pub proof fn lemma_encode_all_len(entries: Seq<TdfJumptableEntryView>)
        requires
            TdfJumptableEntryView::all_wf(entries),
        ensures
            TdfJumptableEntryView::encode_all(entries).len() == ENTRY_SIZE * entries.len(),
        decreases entries.len(),
    {
        if entries.len() > 0 {
            TdfJumptableEntryView::lemma_encode_all_len(entries.drop_last());
            entries.last().lemma_encode_len();
        }
    }

    /// Wherever the bytes of encoded records stand in `b`, decoding as many
    /// records there gives them back in their order.
    pub proof fn lemma_parse_all_encoded(entries: Seq<TdfJumptableEntryView>, b: Seq<u8>, at: int)
        requires
            TdfJumptableEntryView::all_wf(entries),
            0 <= at,
            at + ENTRY_SIZE * entries.len() <= b.len(),
            b.subrange(at, at + ENTRY_SIZE * entries.len()) == TdfJumptableEntryView::encode_all(
                entries,
            ),
        ensures
            TdfJumptableEntryView::parse_all(b, at, entries.len()) == Ok::<
                Seq<TdfJumptableEntryView>,
                TdfError,
            >(entries),
        decreases entries.len(),
    {
        let n = entries.len();
        if n > 0 {
            let before = entries.drop_last();
            let all = TdfJumptableEntryView::encode_all(entries);
            TdfJumptableEntryView::lemma_encode_all_len(before);
            TdfJumptableEntryView::lemma_encode_all_len(entries);
            assert(b.subrange(at, at + ENTRY_SIZE * before.len())
                =~= TdfJumptableEntryView::encode_all(before)) by {
                assert(b.subrange(at, at + ENTRY_SIZE * before.len()) =~= all.subrange(
                    0,
                    ENTRY_SIZE * before.len(),
                ));
            }
            TdfJumptableEntryView::lemma_parse_all_encoded(before, b, at);
            let last_at = at + ENTRY_SIZE * (n - 1);
            assert(b.subrange(last_at, last_at + ENTRY_SIZE) =~= entries.last().encode()) by {
                assert(b.subrange(last_at, last_at + ENTRY_SIZE) =~= all.subrange(
                    ENTRY_SIZE * (n - 1),
                    ENTRY_SIZE * n,
                ));
            }
            entries.last().lemma_parse_encoded(b, last_at);
            assert(before.push(entries.last()) =~= entries);
        } else {
            assert(entries =~= Seq::empty());
        }
    }
}

/// A record of the jump table. Its format tag is always one of its block
/// type.
#[derive(Debug, Clone, Copy, PartialEq, Eq)]
pub struct TdfJumptableEntry {
    block_type: TdfBlockType,
    format: TdfFormat,
    offset: i32,
    size: i32,
    creation_date: TimeT,
    last_modification_date: TimeT,
    last_access_date: TimeT,
    comment: [u8; 256],
}

impl View for TdfJumptableEntry {
    type V = TdfJumptableEntryView;

    /// What the record holds on the wire: its fields, the format tag as a
    /// number and each timestamp as seconds since the Unix epoch.
    open spec fn view(&self) -> TdfJumptableEntryView {
        TdfJumptableEntryView {
            block_type: self.spec_block_type(),
            format: self.spec_format().spec_raw(),
            offset: self.spec_offset(),
            size: self.spec_size(),
            creation_date: self.spec_creation_date()@,
            last_modification_date: self.spec_last_modification_date()@,
            last_access_date: self.spec_last_access_date()@,
            comment: self.spec_comment()@,
        }
    }
}

/// What the records of `entries` hold, in their order.
pub open spec fn entry_views(entries: Seq<TdfJumptableEntry>) -> Seq<TdfJumptableEntryView> {
    Seq::new(entries.len(), |i: int| entries[i]@)
}

/// What records in memory hold is well formed.
pub proof fn lemma_entry_views_wf(entries: Seq<TdfJumptableEntry>)
    ensures
        TdfJumptableEntryView::all_wf(entry_views(entries)),
{
}

/// Copies the comment that starts at `at`, whatever its bytes are.
fn read_comment(input: &[u8], at: usize) -> (r: Result<[u8; 256], TdfError>)
    ensures
        match r {
            Ok(comment) => at + COMMENT_SIZE <= input.len() && comment@ == input@.subrange(
                at as int,
                at + COMMENT_SIZE,
            ),
            Err(e) => at + COMMENT_SIZE > input.len() && e == (TdfError::TruncatedInput {
                offset: at,
            }),
        },
{
    if !has_room(input, at, COMMENT_SIZE) {
        return Err(TdfError::TruncatedInput { offset: at });
    }
    let mut comment: [u8; 256] = [0u8; 256];
    let mut i: usize = 0;
    while i < COMMENT_SIZE
        invariant
            i <= COMMENT_SIZE,
            at + COMMENT_SIZE <= input.len(),
            forall|j: int| 0 <= j < i ==> comment@[j] == input@[at + j],
        decreases COMMENT_SIZE - i,
    {
        comment[i] = input[at + i];
        i += 1;
    }
    assert(comment@ =~= input@.subrange(at as int, at + COMMENT_SIZE));
    Ok(comment)
}

impl TdfJumptableEntry {
    #[verifier::type_invariant]
    spec fn format_of_block_type(&self) -> bool {
        self.format.belongs_to(self.block_type)
    }

    /// The kind of block that the record describes.
    pub closed spec fn spec_block_type(&self) -> TdfBlockType {
        self.block_type
    }

    /// The format tag.
    pub closed spec fn spec_format(&self) -> TdfFormat {
        self.format
    }

    /// Where the block starts, in bytes from the start of the file.
    pub closed spec fn spec_offset(&self) -> i32 {
        self.offset
    }

    /// The size of the block in bytes.
    pub closed spec fn spec_size(&self) -> i32 {
        self.size
    }

    /// When the block was made.
    pub closed spec fn spec_creation_date(&self) -> TimeT {
        self.creation_date
    }

    /// When the block was last changed.
    pub closed spec fn spec_last_modification_date(&self) -> TimeT {
        self.last_modification_date
    }

    /// When the block was last read.
    pub closed spec fn spec_last_access_date(&self) -> TimeT {
        self.last_access_date
    }

    /// The comment.
    pub closed spec fn spec_comment(&self) -> [u8; 256] {
        self.comment
    }

    /// Whether the three timestamps are shown in UTC.
    pub open spec fn in_utc(&self) -> bool {
        &&& self.spec_creation_date().in_utc()
        &&& self.spec_last_modification_date().in_utc()
        &&& self.spec_last_access_date().in_utc()
    }

    /// Whether the timestamps of every record of `entries` are shown in UTC.
    pub open spec fn all_in_utc(entries: Seq<TdfJumptableEntry>) -> bool {
        forall|i: int| 0 <= i < entries.len() ==> (#[trigger] entries[i]).in_utc()
    }

    /// A record of a `block_type` block. `format` is the format tag as it
    /// stands on the wire.
    pub fn new(
        block_type: TdfBlockType,
        format: u32,
        offset: i32,
        size: i32,
        creation_date: TimeT,
        last_modification_date: TimeT,
        last_access_date: TimeT,
        comment: [u8; 256],
    ) -> (entry: TdfJumptableEntry)
        ensures
            entry.spec_block_type() == block_type,
            entry.spec_format() == TdfFormat::tag(block_type, format),
            entry.spec_offset() == offset,
            entry.spec_size() == size,
            entry.spec_creation_date() == creation_date,
            entry.spec_last_modification_date() == last_modification_date,
            entry.spec_last_access_date() == last_access_date,
            entry.spec_comment() == comment,
    {
        TdfJumptableEntry {
            block_type,
            format: TdfFormat::from_raw(block_type, format),
            offset,
            size,
            creation_date,
            last_modification_date,
            last_access_date,
            comment,
        }
    }

    /// The kind of block that the record describes.
    #[verifier::when_used_as_spec(spec_block_type)]
    pub fn block_type(&self) -> (r: TdfBlockType)
        ensures
            r == self.spec_block_type(),
    {
        self.block_type
    }

    /// The format tag. It is always one of the record's block type.
    #[verifier::when_used_as_spec(spec_format)]
    pub fn format(&self) -> (r: TdfFormat)
        ensures
            r == self.spec_format(),
            r == self@.format_tag(),
    {
        proof {
            use_type_invariant(self);
        }
        self.format
    }

    /// Where the block starts, in bytes from the start of the file.
    #[verifier::when_used_as_spec(spec_offset)]
    pub fn offset(&self) -> (r: i32)
        ensures
            r == self.spec_offset(),
    {
        self.offset
    }

    /// The size of the block in bytes.
    #[verifier::when_used_as_spec(spec_size)]
    pub fn size(&self) -> (r: i32)
        ensures
            r == self.spec_size(),
    {
        self.size
    }

    /// When the block was made.
    #[verifier::when_used_as_spec(spec_creation_date)]
    pub fn creation_date(&self) -> (r: TimeT)
        ensures
            r == self.spec_creation_date(),
    {
        self.creation_date
    }

    /// When the block was last changed.
    #[verifier::when_used_as_spec(spec_last_modification_date)]
    pub fn last_modification_date(&self) -> (r: TimeT)
        ensures
            r == self.spec_last_modification_date(),
    {
        self.last_modification_date
    }

    /// When the block was last read.
    #[verifier::when_used_as_spec(spec_last_access_date)]
    pub fn last_access_date(&self) -> (r: TimeT)
        ensures
            r == self.spec_last_access_date(),
    {
        self.last_access_date
    }

    /// The comment: bytes of any kind, not always text.
    pub fn comment(&self) -> (r: &[u8; 256])
        ensures
            *r == self.spec_comment(),
    {
        &self.comment
    }

    /// Decodes the record that starts at `at`, its timestamps as instants in
    /// UTC.
    pub fn read(input: &[u8], at: usize) -> (r: Result<TdfJumptableEntry, TdfError>)
        ensures
            match r {
                Ok(entry) => TdfJumptableEntryView::parse(input@, at as int) == Ok::<
                    TdfJumptableEntryView,
                    TdfError,
                >(entry@) && entry@.wf() && entry.in_utc() && at + ENTRY_SIZE <= input.len(),
                Err(e) => TdfJumptableEntryView::parse(input@, at as int) == Err::<
                    TdfJumptableEntryView,
                    TdfError,
                >(e),
            },
    {
        let block_type = TdfBlockType::read(input, at)?;
        let format = TdfFormat::read(input, at + 4, block_type)?;
        let offset: i32 = read_i32(input, at + 8)?;
        let size: i32 = read_i32(input, at + 12)?;
        let creation_date = TimeT::read(input, at + 16)?;
        let last_modification_date = TimeT::read(input, at + 20)?;
        let last_access_date = TimeT::read(input, at + 24)?;
        skip_padding(input, at + 28, 4)?;
        let comment = read_comment(input, at + 32)?;
        Ok(
            TdfJumptableEntry {
                block_type,
                format,
                offset,
                size,
                creation_date,
                last_modification_date,
                last_access_date,
                comment,
            },
        )
    }

    /// Appends the bytes of the record.
    pub fn write(&self, output: &mut Vec<u8>)
        ensures
            final(output)@ == old(output)@ + self@.encode(),
    {
        self.block_type.write(output);
        self.format.write(output);
        write_i32(output, self.offset);
        write_i32(output, self.size);
        self.creation_date.write(output);
        self.last_modification_date.write(output);
        self.last_access_date.write(output);
        write_padding(output, 4);
        let ghost fields = output@;
        let mut i: usize = 0;
        while i < COMMENT_SIZE
            invariant
                i <= COMMENT_SIZE,
                output@ == fields + self.comment@.take(i as int),
            decreases COMMENT_SIZE - i,
        {
            output.push(self.comment[i]);
            i += 1;
            assert(output@ =~= fields + self.comment@.take(i as int));
        }
        assert(self.comment@.take(256) =~= self.comment@);
        assert(output@ =~= old(output)@ + self@.encode());
    }

    /// Decodes `count` records that stand one after the other from `at` on.
    pub fn read_all(input: &[u8], at: usize, count: usize) -> (r: Result<
        Vec<TdfJumptableEntry>,
        TdfError,
    >)
        ensures
            match r {
                Ok(entries) => TdfJumptableEntryView::parse_all(
                    input@,
                    at as int,
                    count as nat,
                ) == Ok::<Seq<TdfJumptableEntryView>, TdfError>(entry_views(entries@))
                    && entries@.len() == count && TdfJumptableEntryView::all_wf(
                    entry_views(entries@),
                ) && TdfJumptableEntry::all_in_utc(entries@) && (count > 0 ==> at + ENTRY_SIZE
                    * count <= input.len()),
                Err(e) => TdfJumptableEntryView::parse_all(input@, at as int, count as nat) == Err::<
                    Seq<TdfJumptableEntryView>,
                    TdfError,
                >(e),
            },
    {
        let mut entries: Vec<TdfJumptableEntry> = Vec::new();
        let mut next: usize = at;
        let mut i: usize = 0;
        assert(entry_views(entries@) =~= Seq::empty());
        while i < count
            invariant
                i <= count,
                next == at + ENTRY_SIZE * i,
                entries@.len() == i,
                i > 0 ==> next <= input.len(),
                TdfJumptableEntryView::parse_all(input@, at as int, i as nat) == Ok::<
                    Seq<TdfJumptableEntryView>,
                    TdfError,
                >(entry_views(entries@)),
                TdfJumptableEntryView::all_wf(entry_views(entries@)),
                TdfJumptableEntry::all_in_utc(entries@),
            decreases count - i,
        {
            let ghost before = entry_views(entries@);
            match TdfJumptableEntry::read(input, next) {
                Ok(entry) => {
                    entries.push(entry);
                    assert(entry_views(entries@) =~= before.push(entry@));
                },
                Err(e) => {
                    proof {
                        TdfJumptableEntryView::lemma_parse_all_error_stays(
                            input@,
                            at as int,
                            (i + 1) as nat,
                            count as nat,
                        );
                    }
                    return Err(e.with_entry(i));
                },
            }
            next += ENTRY_SIZE;
            i += 1;
        }
        Ok(entries)
    }

    /// Appends the bytes of the records of `entries`, in their order.
    pub fn write_all(entries: &[TdfJumptableEntry], output: &mut Vec<u8>)
        ensures
            final(output)@ == old(output)@ + TdfJumptableEntryView::encode_all(
                entry_views(entries@),
            ),
    {
        let mut i: usize = 0;
        while i < entries.len()
            invariant
                i <= entries.len(),
                output@ == old(output)@ + TdfJumptableEntryView::encode_all(
                    entry_views(entries@.take(i as int)),
                ),
            decreases entries.len() - i,
        {
            let ghost done = entry_views(entries@.take(i as int));
            entries[i].write(output);
            i += 1;
            proof {
                let now = entry_views(entries@.take(i as int));
                assert(now.drop_last() =~= done);
                assert(now.last() == entries@[i - 1]@);
                assert(output@ =~= old(output)@ + TdfJumptableEntryView::encode_all(now));
            }
        }
        assert(entries@.take(entries@.len() as int) =~= entries@);
    }
}

} // verus!
