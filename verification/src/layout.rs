use vstd::prelude::*;
use crate::codec::{record_len, record_length};
use crate::header::Header;
use crate::version::Version;
use crate::vlr::{framing, lead_len, Vlr, VlrView};

verus! {

/// The length of the fixed fields of a header: 227 bytes up to revision
/// 1.2, 235 in revision 1.3, 375 from revision 1.4 on.
pub open spec fn fixed_len(version: Version) -> nat {
    if version.reaches(1, 4) {
        375
    } else if version.reaches(1, 3) {
        235
    } else {
        227
    }
}

/// The length of a record in a file.
pub open spec fn framed_len(v: VlrView) -> nat {
    lead_len(v.is_extended) + v.data.len()
}

/// The length of a table of records in a file.
pub open spec fn table_len(vlrs: Seq<Vlr>) -> nat
    decreases vlrs.len(),
{
    if vlrs.len() == 0 {
        0
    } else {
        table_len(vlrs.drop_last()) + framed_len(vlrs.last()@)
    }
}

/// Where the point data start: behind the fixed fields, the padding, the
/// table of plain records and the padding that follows it.
pub open spec fn point_data_start(h: Header) -> nat {
    fixed_len(h.version) + h.padding@.len() + table_len(h.vlrs@) + h.vlr_padding@.len()
}

/// Where the data of `points` points end, and the extended records start.
pub open spec fn point_data_end(h: Header, points: nat) -> nat {
    point_data_start(h) + points * record_len(h.point_format)
}

/// The bytes of a record are as many as the layout counts for it.
pub proof fn lemma_framing_len(v: Vlr)
    requires
        !v.oversized(),
    ensures
        framing(v@).len() == framed_len(v@),
{
    vstd::bytes::lemma_auto_spec_u16_to_from_le_bytes();
    vstd::bytes::lemma_auto_spec_u64_to_from_le_bytes();
    assert(v.user_id@.len() == 16);
    assert(v.description@.len() == 32);
}

/// The first records of a table are no longer than the whole table.
pub proof fn lemma_table_len_grows(vlrs: Seq<Vlr>, n: int)
    requires
        0 <= n <= vlrs.len(),
    ensures
        table_len(vlrs.take(n)) <= table_len(vlrs),
    decreases vlrs.len(),
{
    if n == vlrs.len() {
        assert(vlrs.take(n) =~= vlrs);
    } else {
        assert(vlrs.take(n) =~= vlrs.drop_last().take(n));
        lemma_table_len_grows(vlrs.drop_last(), n);
    }
}

/// The length of the fixed fields of a header of the given revision.
pub fn fixed_length(version: Version) -> (r: u16)
    ensures
        r == fixed_len(version),
{
    if version.at_least(1, 4) {
        375
    } else if version.at_least(1, 3) {
        235
    } else {
        227
    }
}

/// The length of a table of records in a file, where 64 bits can state it.
pub fn table_length(vlrs: &Vec<Vlr>) -> (r: Option<u64>)
    ensures
        table_len(vlrs@) <= u64::MAX ==> r == Some(table_len(vlrs@) as u64),
        table_len(vlrs@) > u64::MAX ==> r is None,
{
    let mut total: u64 = 0;
    let mut i: usize = 0;
    while i < vlrs.len()
        invariant
            i <= vlrs.len(),
            total == table_len(vlrs@.take(i as int)),
        decreases vlrs.len() - i,
    {
        let lead: u64 = if vlrs[i].is_extended { 60 } else { 54 };
        let n: u64 = vlrs[i].data.len() as u64;
        proof {
            assert(vlrs@.take(i + 1).drop_last() =~= vlrs@.take(i as int));
            assert(vlrs@.take(i + 1).last() == vlrs@[i as int]);
            lemma_table_len_grows(vlrs@, i + 1);
        }
        if n > u64::MAX - lead || total > u64::MAX - lead - n {
            return None;
        }
        total = total + lead + n;
        i += 1;
    }
    assert(vlrs@.take(i as int) =~= vlrs@);
    Some(total)
}

impl Header {
    /// Where the point data start in the file, where 64 bits can state it.
    pub fn point_data_offset(&self) -> (r: Option<u64>)
        ensures
            point_data_start(*self) <= u64::MAX ==> r == Some(point_data_start(*self) as u64),
            point_data_start(*self) > u64::MAX ==> r is None,
    {
        let table = match table_length(&self.vlrs) {
            None => {
                return None;
            },
            Some(t) => t,
        };
        let total: u128 = fixed_length(self.version) as u128 + self.padding.len() as u128
            + table as u128 + self.vlr_padding.len() as u128;
        if total > u64::MAX as u128 {
            None
        } else {
            Some(total as u64)
        }
    }

    /// Where the data of `points` points end in the file, which is where
    /// the extended records start; where 64 bits can state it.
    pub fn point_data_end_offset(&self, points: u64) -> (r: Option<u64>)
        ensures
            point_data_end(*self, points as nat) <= u64::MAX ==> r == Some(
                point_data_end(*self, points as nat) as u64,
            ),
            point_data_end(*self, points as nat) > u64::MAX ==> r is None,
    {
        let start = match self.point_data_offset() {
            None => {
                assert(point_data_end(*self, points as nat) >= point_data_start(*self)) by (nonlinear_arith)
                    requires
                        point_data_end(*self, points as nat) == point_data_start(*self) + points
                            * record_len(self.point_format),
                ;
                return None;
            },
            Some(s) => s,
        };
        let each = record_length(&self.point_format);
        assert(points * each <= 0xffff_ffff_ffff_ffff * 0x2_0000) by (nonlinear_arith)
            requires
                points <= 0xffff_ffff_ffff_ffff,
                each <= 0x2_0000,
        ;
        let total: u128 = start as u128 + points as u128 * each as u128;
        if total > u64::MAX as u128 {
            None
        } else {
            Some(total as u64)
        }
    }
}

} // verus!
