//! The header section of a file as a whole: the preamble and, right after
//! it, as many jump-table records as the preamble declares.

use vstd::prelude::*;
use vstd::slice::slice_subrange;
use crate::bytes::be_u32;
use crate::block::BLOCK_TYPES;
use crate::entry::{
    entry_views, lemma_entry_views_wf, TdfJumptableEntry, TdfJumptableEntryView, ENTRY_SIZE,
};
use crate::error::TdfError;
use crate::header::{magic_differs, TdfHeaderInfo, TdfHeaderInfoView, HEADER_SIZE, MAGIC};

verus! {

/// What a header section holds.
pub struct TdfHeaderView {
    pub header: TdfHeaderInfoView,
    pub entries: Seq<TdfJumptableEntryView>,
}

impl TdfHeaderView {
    /// The preamble declares as many records as there are, and each record is
    /// well formed.
    pub open spec fn wf(self) -> bool {
        &&& self.header.wf()
        &&& self.entries.len() == self.header.n_entries
        &&& TdfJumptableEntryView::all_wf(self.entries)
    }

    /// What decoding a header section gives: the preamble at the start of
    /// `b`, then as many records as it declares, or the error of the first
    /// field that cannot be had.
    pub open spec fn parse(b: Seq<u8>) -> Result<TdfHeaderView, TdfError> {
        match TdfHeaderInfoView::parse(b, 0) {
            Err(e) => Err(e),
            Ok(header) => match TdfJumptableEntryView::parse_all(
                b,
                HEADER_SIZE as int,
                header.n_entries as nat,
            ) {
                Err(e) => Err(e),
                Ok(entries) => Ok(TdfHeaderView { header, entries }),
            },
        }
    }

    /// The bytes of the header section: the preamble, then the records in
    /// their order.
    pub open spec fn encode(self) -> Seq<u8> {
        self.header.encode() + TdfJumptableEntryView::encode_all(self.entries)
    }

    /// The number of bytes that the header section takes.
    pub open spec fn encoded_len(self) -> int {
        HEADER_SIZE + ENTRY_SIZE * self.entries.len()
    }

    /// A well-formed header section is encoded in [`Self::encoded_len`]
    /// bytes.
    pub proof fn lemma_encode_len(self)
        requires
            self.wf(),
        ensures
            self.encode().len() == self.encoded_len(),
    {
        self.header.lemma_encode_len();
        TdfJumptableEntryView::lemma_encode_all_len(self.entries);
    }

    /// Decoding the bytes of a well-formed header section gives it back,
    /// whatever follows them: every field of the preamble, and every record
    /// with its comment byte for byte.
    pub proof fn lemma_round_trip(self, rest: Seq<u8>)
        requires
            self.wf(),
        ensures
            TdfHeaderView::parse(self.encode() + rest) == Ok::<TdfHeaderView, TdfError>(self),
    {
        let b = self.encode() + rest;
        let records = TdfJumptableEntryView::encode_all(self.entries);
        self.header.lemma_encode_len();
        TdfJumptableEntryView::lemma_encode_all_len(self.entries);
        assert(b.subrange(0, HEADER_SIZE as int) =~= self.header.encode());
        self.header.lemma_parse_encoded(b, 0);
        assert(b.subrange(HEADER_SIZE as int, HEADER_SIZE + ENTRY_SIZE * self.entries.len())
            =~= records);
        TdfJumptableEntryView::lemma_parse_all_encoded(self.entries, b, HEADER_SIZE as int);
    }

    /// What was decoded is well formed and lies inside the input: decoding
    /// takes the preamble and exactly as many records as it declares.
    pub proof fn lemma_parse_ok(b: Seq<u8>)
        ensures
            TdfHeaderView::parse(b) matches Ok(t) ==> t.wf() && t.encoded_len() <= b.len(),
    {
        if let Ok(header) = TdfHeaderInfoView::parse(b, 0) {
            TdfJumptableEntryView::lemma_parse_all_ok(
                b,
                HEADER_SIZE as int,
                header.n_entries as nat,
            );
        }
    }

    /// A buffer whose first sixteen bytes are not the signature is refused
    /// for that, whatever else it holds.
    pub proof fn lemma_magic_gate(b: Seq<u8>)
        requires
            b.len() >= 16,
            b.subrange(0, 16) != MAGIC@,
        ensures
            TdfHeaderView::parse(b) == Err::<TdfHeaderView, TdfError>(TdfError::MagicMismatch),
    {
        if !magic_differs(b, 0) {
            assert forall|i: int| 0 <= i < 16 implies b.subrange(0, 16)[i] == MAGIC@[i] by {
                assert(b[0 + i] == MAGIC@[i]);
            }
            assert(b.subrange(0, 16) =~= MAGIC@);
        }
    }

    /// Where the preamble declares more records than the input holds in
    /// full, decoding fails.
    pub proof fn lemma_missing_records(b: Seq<u8>)
        requires
            TdfHeaderInfoView::parse(b, 0) matches Ok(header) && b.len() < HEADER_SIZE
                + ENTRY_SIZE * header.n_entries,
        ensures
            TdfHeaderView::parse(b) is Err,
    {
        let header = TdfHeaderInfoView::parse(b, 0)->Ok_0;
        TdfJumptableEntryView::lemma_parse_all_ok(b, HEADER_SIZE as int, header.n_entries as nat);
    }

    /// Where the preamble declares more records than the input holds in
    /// full, and every block type that the input holds is a known one,
    /// decoding fails because the input ends too early.
    pub proof fn lemma_missing_records_truncated(b: Seq<u8>)
        requires
            TdfHeaderInfoView::parse(b, 0) matches Ok(header) && b.len() < HEADER_SIZE
                + ENTRY_SIZE * header.n_entries,
            forall|i: int|
                0 <= i && HEADER_SIZE + ENTRY_SIZE * i + 4 <= b.len() ==> #[trigger] be_u32(
                    b,
                    HEADER_SIZE + ENTRY_SIZE * i,
                ) < BLOCK_TYPES,
        ensures
            TdfHeaderView::parse(b) matches Err(e) && e is TruncatedInput,
    {
        let header = TdfHeaderInfoView::parse(b, 0)->Ok_0;
        TdfHeaderView::lemma_missing_records(b);
        TdfJumptableEntryView::lemma_parse_all_truncated(
            b,
            HEADER_SIZE as int,
            header.n_entries as nat,
        );
    }
}

/// The header section of a file. It holds as many records as its preamble
/// declares.
#[derive(Debug, PartialEq, Eq)]
pub struct TdfHeader {
    header: TdfHeaderInfo,
    entries: Vec<TdfJumptableEntry>,
}

impl View for TdfHeader {
    type V = TdfHeaderView;

    /// What the header section holds on the wire.
    open spec fn view(&self) -> TdfHeaderView {
        TdfHeaderView { header: self.spec_header()@, entries: entry_views(self.spec_entries()) }
    }
}

impl TdfHeader {
    #[verifier::type_invariant]
    spec fn count_matches(&self) -> bool {
        self.entries@.len() == self.header.spec_n_entries()
    }

    /// The preamble.
    pub closed spec fn spec_header(&self) -> TdfHeaderInfo {
        self.header
    }

    /// The records of the jump table, in the order in which they stand in the
    /// file.
    pub closed spec fn spec_entries(&self) -> Seq<TdfJumptableEntry> {
        self.entries@
    }

    /// Whether every timestamp of the header section is shown in UTC.
    pub open spec fn in_utc(&self) -> bool {
        &&& self.spec_header().in_utc()
        &&& TdfJumptableEntry::all_in_utc(self.spec_entries())
    }

    /// The header section with this preamble and these records, where the
    /// preamble declares as many records as there are.
    pub fn new(header: TdfHeaderInfo, entries: Vec<TdfJumptableEntry>) -> (r: Option<TdfHeader>)
        ensures
            r is Some <==> entries@.len() == header.spec_n_entries(),
            r matches Some(t) ==> t.spec_header() == header && t.spec_entries() == entries@
                && t@.wf(),
    {
        let declared: i32 = header.n_entries();
        if entries.len() != declared as usize {
            return None;
        }
        proof {
            lemma_entry_views_wf(entries@);
        }
        Some(TdfHeader { header, entries })
    }

    /// The preamble.
    pub fn header(&self) -> (r: &TdfHeaderInfo)
        ensures
            *r == self.spec_header(),
    {
        &self.header
    }

    /// The records of the jump table, in the order in which they stand in the
    /// file. They are as many as the preamble declares.
    pub fn entries(&self) -> (r: &[TdfJumptableEntry])
        ensures
            r@ == self.spec_entries(),
            r@.len() == self.spec_header().spec_n_entries(),
            self@.wf(),
    {
        proof {
            use_type_invariant(self);
            lemma_entry_views_wf(self.entries@);
        }
        self.entries.as_slice()
    }

    /// Decodes the header section at the start of `input`, its timestamps as
    /// instants in UTC, and returns it with the bytes that follow it.
    pub fn from_bytes(input: &[u8]) -> (r: Result<(&[u8], TdfHeader), TdfError>)
        ensures
            match r {
                Ok((rest, table)) => {
                    &&& TdfHeaderView::parse(input@) == Ok::<TdfHeaderView, TdfError>(table@)
                    &&& table@.wf()
                    &&& table.in_utc()
                    &&& table@.encoded_len() <= input.len()
                    &&& rest@ == input@.skip(table@.encoded_len())
                },
                Err(e) => TdfHeaderView::parse(input@) == Err::<TdfHeaderView, TdfError>(e),
            },
    {
        let header = TdfHeaderInfo::read(input, 0)?;
        let count: usize = header.n_entries() as usize;
        let entries = TdfJumptableEntry::read_all(input, HEADER_SIZE, count)?;
        let taken: usize = HEADER_SIZE + ENTRY_SIZE * count;
        let rest = slice_subrange(input, taken, input.len());
        Ok((rest, TdfHeader { header, entries }))
    }

    /// The bytes of the header section. Decoding them gives the header
    /// section back.
    pub fn to_bytes(&self) -> (bytes: Vec<u8>)
        ensures
            bytes@ == self@.encode(),
            bytes@.len() == self@.encoded_len(),
            TdfHeaderView::parse(bytes@) == Ok::<TdfHeaderView, TdfError>(self@),
    {
        let mut bytes: Vec<u8> = Vec::new();
        self.header.write(&mut bytes);
        TdfJumptableEntry::write_all(self.entries.as_slice(), &mut bytes);
        proof {
            use_type_invariant(self);
            lemma_entry_views_wf(self.entries@);
            assert(bytes@ =~= self@.encode());
            self@.lemma_encode_len();
            self@.lemma_round_trip(Seq::empty());
            assert(self@.encode() + Seq::<u8>::empty() =~= self@.encode());
        }
        bytes
    }
}

} // verus!
