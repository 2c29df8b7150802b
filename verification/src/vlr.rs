use vstd::prelude::*;
use vstd::bytes::*;
use vstd::slice::{slice_subrange, slice_to_vec};
use crate::buffer::{append, bytes16_at, bytes32_at};
use crate::error::Error;
use crate::version::Version;

verus! {

/// The most data bytes that a plain record can hold: what its 16-bit length field can state.
pub const MAX_PLAIN_DATA: usize = 65535;

/// A variable-length metadata record, plain or extended.
///
/// A plain record stands before the point data and states its length in 16
/// bits. An extended record stands behind the point data and states its
/// length in 64 bits.
#[derive(Clone, Debug, PartialEq, Eq)]
pub struct Vlr {
    pub is_extended: bool,
    pub user_id: [u8; 16],
    pub record_id: u16,
    pub description: [u8; 32],
    pub data: Vec<u8>,
}

/// A record as contracts see it: the same fields, each byte string as a sequence.
pub struct VlrView {
    pub is_extended: bool,
    pub user_id: Seq<u8>,
    pub record_id: u16,
    pub description: Seq<u8>,
    pub data: Seq<u8>,
}

impl View for Vlr {
    type V = VlrView;

    open spec fn view(&self) -> VlrView {
        VlrView {
            is_extended: self.is_extended,
            user_id: self.user_id@,
            record_id: self.record_id,
            description: self.description@,
            data: self.data@,
        }
    }
}

/// How many bytes of a record stand before its data.
pub open spec fn lead_len(is_extended: bool) -> nat {
    if is_extended {
        60
    } else {
        54
    }
}

/// The length field of a record with `len` data bytes: 64 bits in an
/// extended record, 16 bits in a plain one, little-endian.
pub open spec fn length_field(is_extended: bool, len: nat) -> Seq<u8> {
    if is_extended {
        spec_u64_to_le_bytes(len as u64)
    } else {
        spec_u16_to_le_bytes(len as u16)
    }
}

/// The bytes of a record in a file: two reserved bytes, which are zero, the
/// user id, the record id, the length of the data, the description, and the data.
pub open spec fn framing(v: VlrView) -> Seq<u8> {
    seq![0u8, 0u8] + v.user_id + spec_u16_to_le_bytes(v.record_id) + length_field(
        v.is_extended,
        v.data.len(),
    ) + v.description + v.data
}

/// How many data bytes the record at the head of `b` declares.
pub open spec fn declared_len(b: Seq<u8>, is_extended: bool) -> nat
    recommends
        b.len() >= lead_len(is_extended),
{
    if is_extended {
        spec_u64_from_le_bytes(b.subrange(20, 28)) as nat
    } else {
        spec_u16_from_le_bytes(b.subrange(20, 22)) as nat
    }
}

/// Whether `b` is long enough for the record that stands at its head.
pub open spec fn holds_record(b: Seq<u8>, is_extended: bool) -> bool {
    b.len() >= lead_len(is_extended) && b.len() - lead_len(is_extended) >= declared_len(
        b,
        is_extended,
    )
}

/// The record that stands at the head of `b`.
pub open spec fn parsing(b: Seq<u8>, is_extended: bool) -> VlrView
    recommends
        holds_record(b, is_extended),
{
    let lead = lead_len(is_extended) as int;
    VlrView {
        is_extended,
        user_id: b.subrange(2, 18),
        record_id: spec_u16_from_le_bytes(b.subrange(18, 20)),
        description: b.subrange(lead - 32, lead),
        data: b.subrange(lead, lead + declared_len(b, is_extended)),
    }
}

/// A record that is not oversized is read back from its bytes, whatever
/// follows them, and the reading ends where its bytes end.
pub proof fn lemma_parse_framed(v: Vlr, rest: Seq<u8>)
    requires
        !v.oversized(),
    ensures
        holds_record(framing(v@) + rest, v.is_extended),
        parsing(framing(v@) + rest, v.is_extended) == v@,
        lead_len(v.is_extended) + declared_len(framing(v@) + rest, v.is_extended) == framing(
            v@,
        ).len(),
{
    lemma_auto_spec_u16_to_from_le_bytes();
    lemma_auto_spec_u64_to_from_le_bytes();
    let b = framing(v@) + rest;
    let lead = lead_len(v.is_extended) as int;
    let len = v.data@.len();
    assert(len == v.data.len());
    assert(v.user_id@.len() == 16);
    assert(v.description@.len() == 32);
    assert(b.subrange(2, 18) =~= v.user_id@);
    assert(b.subrange(18, 20) =~= spec_u16_to_le_bytes(v.record_id));
    if v.is_extended {
        assert(len as u64 == len);
        assert(b.subrange(20, 28) =~= spec_u64_to_le_bytes(len as u64));
    } else {
        assert(len as u16 == len);
        assert(b.subrange(20, 22) =~= spec_u16_to_le_bytes(len as u16));
    }
    assert(declared_len(b, v.is_extended) == len);
    assert(b.subrange(lead - 32, lead) =~= v.description@);
    assert(b.subrange(lead, lead + len) =~= v.data@);
}

impl Vlr {
    /// The bytes of the record as a file holds them.
    ///
    /// Fails where the record is oversized: nothing is cut off.
    pub fn to_bytes(&self) -> (r: Result<Vec<u8>, Error>)
        ensures
            self.oversized() ==> r is Err && r->Err_0 == Error::InvalidHeader,
            !self.oversized() ==> r is Ok && r->Ok_0@ == framing(self@),
    {
        if self.is_oversized() {
            return Err(Error::InvalidHeader);
        }
        let mut out: Vec<u8> = Vec::new();
        out.push(0);
        out.push(0);
        append(&mut out, self.user_id.as_slice());
        append(&mut out, u16_to_le_bytes(self.record_id).as_slice());
        if self.is_extended {
            append(&mut out, u64_to_le_bytes(self.data.len() as u64).as_slice());
        } else {
            append(&mut out, u16_to_le_bytes(self.data.len() as u16).as_slice());
        }
        append(&mut out, self.description.as_slice());
        append(&mut out, self.data.as_slice());
        assert(out@ =~= framing(self@));
        Ok(out)
    }

    /// Reads the record at the head of `bytes` and says how many bytes it takes.
    ///
    /// Fails where `bytes` ends before the record does. The two reserved
    /// bytes are not looked at.
    pub fn from_bytes(bytes: &[u8], is_extended: bool) -> (r: Result<(Vlr, usize), Error>)
        ensures
            !holds_record(bytes@, is_extended) ==> r is Err && r->Err_0 == Error::Truncated,
            holds_record(bytes@, is_extended) ==> r is Ok && r->Ok_0.0@ == parsing(
                bytes@,
                is_extended,
            ) && r->Ok_0.1 == lead_len(is_extended) + declared_len(bytes@, is_extended),
    {
        let lead: usize = if is_extended { 60 } else { 54 };
        if bytes.len() < lead {
            return Err(Error::Truncated);
        }
        let declared: u64 = if is_extended {
            u64_from_le_bytes(slice_subrange(bytes, 20, 28))
        } else {
            u16_from_le_bytes(slice_subrange(bytes, 20, 22)) as u64
        };
        if ((bytes.len() - lead) as u64) < declared {
            return Err(Error::Truncated);
        }
        let len: usize = declared as usize;
        let v = Vlr {
            is_extended,
            user_id: bytes16_at(bytes, 2),
            record_id: u16_from_le_bytes(slice_subrange(bytes, 18, 20)),
            description: bytes32_at(bytes, lead - 32),
            data: slice_to_vec(slice_subrange(bytes, lead, lead + len)),
        };
        Ok((v, lead + len))
    }

    /// Whether the record holds more data than its kind can state.
    pub open spec fn oversized(self) -> bool {
        !self.is_extended && self.data@.len() > MAX_PLAIN_DATA
    }

    /// Whether a file of the given revision may hold this record.
    pub open spec fn legal_for(self, version: Version) -> bool {
        (self.is_extended ==> version.reaches(1, 4)) && !self.oversized()
    }

    /// Whether the record may stand in the given section of a file of the
    /// given revision: its kind is that of the section, extended behind the
    /// point data and plain before them, and the file may hold it.
    pub open spec fn fits_section(self, version: Version, behind: bool) -> bool {
        self.is_extended == behind && self.legal_for(version)
    }

    /// Whether the record holds more data than its kind can state.
    pub fn is_oversized(&self) -> (r: bool)
        ensures
            r == self.oversized(),
    {
        !self.is_extended && self.data.len() > MAX_PLAIN_DATA
    }
}

/// Whether any record of `vlrs` is extended.
pub open spec fn any_extended(vlrs: Seq<Vlr>) -> bool {
    exists|i: int| 0 <= i < vlrs.len() && (#[trigger] vlrs[i]).is_extended
}

/// Whether any record of `vlrs` is plain.
pub open spec fn any_plain(vlrs: Seq<Vlr>) -> bool {
    exists|i: int| 0 <= i < vlrs.len() && !(#[trigger] vlrs[i]).is_extended
}

/// Whether any record of `vlrs` is oversized.
pub open spec fn any_oversized(vlrs: Seq<Vlr>) -> bool {
    exists|i: int| 0 <= i < vlrs.len() && (#[trigger] vlrs[i]).oversized()
}

/// Whether any record of `vlrs` is extended.
pub fn holds_extended(vlrs: &Vec<Vlr>) -> (r: bool)
    ensures
        r == any_extended(vlrs@),
{
    let mut i: usize = 0;
    while i < vlrs.len()
        invariant
            i <= vlrs.len(),
            forall|j: int| 0 <= j < i ==> !(#[trigger] vlrs@[j]).is_extended,
        decreases vlrs.len() - i,
    {
        if vlrs[i].is_extended {
            return true;
        }
        i += 1;
    }
    false
}

/// Whether any record of `vlrs` is plain.
pub fn holds_plain(vlrs: &Vec<Vlr>) -> (r: bool)
    ensures
        r == any_plain(vlrs@),
{
    let mut i: usize = 0;
    while i < vlrs.len()
        invariant
            i <= vlrs.len(),
            forall|j: int| 0 <= j < i ==> (#[trigger] vlrs@[j]).is_extended,
        decreases vlrs.len() - i,
    {
        if !vlrs[i].is_extended {
            return true;
        }
        i += 1;
    }
    false
}

/// Whether any record of `vlrs` is oversized.
pub fn holds_oversized(vlrs: &Vec<Vlr>) -> (r: bool)
    ensures
        r == any_oversized(vlrs@),
{
    let mut i: usize = 0;
    while i < vlrs.len()
        invariant
            i <= vlrs.len(),
            forall|j: int| 0 <= j < i ==> !(#[trigger] vlrs@[j]).oversized(),
        decreases vlrs.len() - i,
    {
        if vlrs[i].is_oversized() {
            return true;
        }
        i += 1;
    }
    false
}

} // verus!
