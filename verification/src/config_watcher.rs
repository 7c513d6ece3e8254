//! What the kernel reports about the directory of the configuration file.
use vstd::prelude::*;

verus! {

/// A file that was open for writing was closed.
pub const IN_CLOSE_WRITE: u32 = 0x8;

/// A file was moved into the directory.
pub const IN_MOVED_TO: u32 = 0x80;

/// The fixed part of a report: watch, mask, cookie and name length, of four
/// bytes each.
pub const HEADER_SIZE: usize = 16;

/// The four bytes at `at` as a number, in the byte order of the machine.
pub open spec fn word_at(buf: Seq<u8>, at: int, big_endian: bool) -> int {
    if big_endian {
        buf[at] * 0x100_0000 + buf[at + 1] * 0x1_0000 + buf[at + 2] * 0x100 + buf[at + 3]
    } else {
        buf[at + 3] * 0x100_0000 + buf[at + 2] * 0x1_0000 + buf[at + 1] * 0x100 + buf[at]
    }
}

/// The bytes before the first zero byte.
pub open spec fn until_zero(bytes: Seq<u8>) -> Seq<u8>
    decreases bytes.len(),
{
    if bytes.len() == 0 || bytes[0] == 0 {
        Seq::empty()
    } else {
        seq![bytes[0]] + until_zero(bytes.drop_first())
    }
}

/// Whether the report at `at`, which lies whole before `n`, says that a file
/// named `filename` was written or moved into place.
pub open spec fn report_matches(
    buf: Seq<u8>,
    n: int,
    at: int,
    filename: Seq<u8>,
    big_endian: bool,
) -> bool {
    let mask = word_at(buf, at + 4, big_endian) as u32;
    let name_len = word_at(buf, at + 12, big_endian);
    &&& mask & 0x88 != 0
    &&& name_len > 0
    &&& at + HEADER_SIZE + name_len <= n
    &&& until_zero(buf.subrange(at + HEADER_SIZE, at + HEADER_SIZE + name_len)) == filename
}

/// Whether one of the reports in `buf[at..n]` matches: they follow each other,
/// each a header and as many bytes of name as the header says.
pub open spec fn any_report_matches(
    buf: Seq<u8>,
    n: int,
    at: int,
    filename: Seq<u8>,
    big_endian: bool,
) -> bool
    decreases n - at,
{
    if 0 <= at && at + HEADER_SIZE <= n && word_at(buf, at + 12, big_endian) >= 0 {
        let next = at + HEADER_SIZE + word_at(buf, at + 12, big_endian);
        ||| report_matches(buf, n, at, filename, big_endian)
        ||| next <= n && any_report_matches(buf, n, next, filename, big_endian)
    } else {
        false
    }
}

fn read_word(buf: &Vec<u8>, at: usize, big_endian: bool) -> (r: u32)
    requires
        at + 4 <= buf.len(),
    ensures
        r == word_at(buf@, at as int, big_endian),
{
    let a: u32 = buf[at] as u32;
    let b: u32 = buf[at + 1] as u32;
    let c: u32 = buf[at + 2] as u32;
    let d: u32 = buf[at + 3] as u32;
    if big_endian {
        a * 0x100_0000 + b * 0x1_0000 + c * 0x100 + d
    } else {
        d * 0x100_0000 + c * 0x1_0000 + b * 0x100 + a
    }
}

proof fn lemma_until_zero(bytes: Seq<u8>, k: int)
    requires
        0 <= k <= bytes.len(),
        forall|i: int| 0 <= i < k ==> bytes[i] != 0,
        k < bytes.len() ==> bytes[k] == 0,
    ensures
        until_zero(bytes) == bytes.subrange(0, k),
    decreases k,
{
    if k == 0 {
        assert(bytes.subrange(0, 0) =~= Seq::<u8>::empty());
    } else {
        let rest = bytes.drop_first();
        lemma_until_zero(rest, k - 1);
        assert(seq![bytes[0]] + rest.subrange(0, k - 1) =~= bytes.subrange(0, k));
    }
}

/// Whether the bytes `buf[from..to]`, up to the first zero byte, are `name`.
fn name_is(buf: &Vec<u8>, from: usize, to: usize, name: &Vec<u8>) -> (r: bool)
    requires
        from <= to <= buf.len(),
    ensures
        r == (until_zero(buf@.subrange(from as int, to as int)) == name@),
{
    let ghost bytes = buf@.subrange(from as int, to as int);
    let mut end: usize = from;
    while end < to && buf[end] != 0
        invariant
            from <= end <= to <= buf.len(),
            bytes == buf@.subrange(from as int, to as int),
            forall|i: int| 0 <= i < end - from ==> bytes[i] != 0,
        decreases to - end,
    {
        end = end + 1;
    }
    proof {
        lemma_until_zero(bytes, end - from);
    }
    let len: usize = end - from;
    if len != name.len() {
        return false;
    }
    let mut i: usize = 0;
    while i < len
        invariant
            i <= len,
            len == end - from,
            len == name.len(),
            end <= to <= buf.len(),
            bytes == buf@.subrange(from as int, to as int),
            until_zero(bytes) == bytes.subrange(0, len as int),
            forall|k: int| 0 <= k < i ==> bytes[k] == name@[k],
        decreases len - i,
    {
        if buf[from + i] != name[i] {
            proof {
                assert(bytes.subrange(0, len as int)[i as int] != name@[i as int]);
            }
            return false;
        }
        i = i + 1;
    }
    proof {
        assert(bytes.subrange(0, len as int) =~= name@);
    }
    true
}

/// Whether one of the reports that were read into `buf[..n]` says that the
/// configuration file was written or atomically replaced.
pub fn config_changed(buf: &Vec<u8>, n: usize, filename: &Vec<u8>, big_endian: bool) -> (r: bool)
    requires
        n <= buf.len(),
    ensures
        r == any_report_matches(buf@, n as int, 0, filename@, big_endian),
{
    let mut found = false;
    let mut offset: usize = 0;
    while offset <= n && n - offset >= HEADER_SIZE
        invariant
            n <= buf.len(),
            offset <= n,
            any_report_matches(buf@, n as int, 0, filename@, big_endian) == (found
                || any_report_matches(buf@, n as int, offset as int, filename@, big_endian)),
        decreases n - offset,
    {
        let mask: u32 = read_word(buf, offset + 4, big_endian);
        let name_len: u32 = read_word(buf, offset + 12, big_endian);
        let room: usize = n - offset - HEADER_SIZE;
        if name_len as u64 > room as u64 {
            proof {
                assert(!report_matches(buf@, n as int, offset as int, filename@, big_endian));
            }
            return found;
        }
        let from: usize = offset + HEADER_SIZE;
        let to: usize = from + name_len as usize;
        if mask & 0x88 != 0 && name_len > 0 && name_is(buf, from, to, filename) {
            found = true;
        }
        offset = to;
    }
    found
}

/// A report that the file was written and closed, or put in its place, is heard; a report
/// of another file, or of another event, is not.
pub proof fn only_changes_of_the_file_are_heard(
    buf: Seq<u8>,
    n: int,
    at: int,
    filename: Seq<u8>,
    big_endian: bool,
)
    requires
        0 <= at,
        at + 16 <= n <= buf.len(),
    ensures
        ({
            let mask = word_at(buf, at + 4, big_endian) as u32;
            let len = word_at(buf, at + 12, big_endian);
            let name = until_zero(buf.subrange(at + 16, at + 16 + len));
            &&& report_matches(buf, n, at, filename, big_endian) ==> name == filename && (mask
                & 0x8 != 0 || mask & 0x80 != 0) && at + 16 + len <= n
            &&& (mask & 0x8 != 0 || mask & 0x80 != 0) && 0 < len && at + 16 + len <= n && name
                == filename ==> report_matches(buf, n, at, filename, big_endian)
                && any_report_matches(buf, n, at, filename, big_endian)
        }),
{
    let mask = word_at(buf, at + 4, big_endian) as u32;
    assert((mask & 0x88 != 0) <==> (mask & 0x8 != 0 || mask & 0x80 != 0)) by (bit_vector);
}

/// Every report is looked at: what the next one says is heard where this one is of another
/// file.
pub proof fn later_reports_are_heard(
    buf: Seq<u8>,
    n: int,
    at: int,
    filename: Seq<u8>,
    big_endian: bool,
)
    requires
        0 <= at,
        at + 16 <= n <= buf.len(),
    ensures
        ({
            let next = at + 16 + word_at(buf, at + 12, big_endian);
            next <= n && any_report_matches(buf, n, next, filename, big_endian)
                ==> any_report_matches(buf, n, at, filename, big_endian)
        }),
{
    assert(word_at(buf, at + 12, big_endian) >= 0);
}

} // verus!
