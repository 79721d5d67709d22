//! The candidate scanner: runs of code pointers in read-only data.
use crate::pointer::{decode_pointer, pointer_value, ByteOrder, PointerWidth};
use crate::section::{ReadOnlyData, SectionRange};
use std::collections::BTreeSet;
use vstd::prelude::*;
use vstd::slice::slice_subrange;

verus! {

/// What a scan reads: the data, the address of its first byte, the range of the
/// code section, and how a pointer is laid out.
///
/// The data is cut into windows of one pointer each, at the offsets 0, w, 2w
/// and so on; bytes after the last whole window are not read. Window `k` starts
/// at offset `k * w`.
pub struct Scan {
    pub data: Seq<u8>,
    pub base: u64,
    pub code: SectionRange,
    pub width: PointerWidth,
    pub order: ByteOrder,
}

impl Scan {
    /// Number of whole windows in the data.
    pub open spec fn windows(self) -> int {
        self.data.len() as int / self.width.bytes() as int
    }

    /// The bytes of window `k`.
    pub open spec fn window(self, k: int) -> Seq<u8> {
        self.data.subrange(k * self.width.bytes(), k * self.width.bytes() + self.width.bytes())
    }

    /// Whether window `k` holds a pointer into the code section.
    pub open spec fn in_code(self, k: int) -> bool {
        self.code.encloses(pointer_value(self.window(k), self.order) as int)
    }

    /// Whether a run of code pointers begins at window `k`: it points into the
    /// code, and it is the first window or the one before it does not.
    pub open spec fn opens_run(self, k: int) -> bool {
        &&& 0 <= k < self.windows()
        &&& self.in_code(k)
        &&& (k == 0 || !self.in_code(k - 1))
    }

    /// Whether a window after `k` and before `limit` holds no code pointer.
    pub open spec fn closes_before(self, k: int, limit: int) -> bool {
        exists|j: int| k < j < limit && !#[trigger] self.in_code(j)
    }

    /// Address of window `k`, taken in the 64-bit address space.
    pub open spec fn address(self, k: int) -> u64 {
        ((self.base + k * self.width.bytes()) % 0x1_0000_0000_0000_0000) as u64
    }

    /// Whether `address` is that of a window which begins a run that a window
    /// before `limit` ends.
    pub open spec fn is_candidate_within(self, address: u64, limit: int) -> bool {
        exists|k: int| #[trigger]
            self.opens_run(k) && self.closes_before(k, limit) && self.address(k) == address
    }

    /// The candidates that the first `limit` windows give.
    pub open spec fn candidates_within(self, limit: int) -> Set<u64> {
        Set::new(|address: u64| self.is_candidate_within(address, limit))
    }

    /// The candidate set: the addresses at which a run of code pointers begins
    /// that ends inside the data. A run that lasts to the end of the data gives
    /// no candidate.
    pub open spec fn candidates(self) -> Set<u64> {
        self.candidates_within(self.windows())
    }

    /// The window at which the run that holds window `k` begins.
    pub open spec fn run_start(self, k: int) -> int
        decreases k,
    {
        if k > 0 && self.in_code(k - 1) {
            self.run_start(k - 1)
        } else {
            k
        }
    }

    /// The run that is open once the first `k` windows are read, by the address
    /// at which it began.
    pub open spec fn open_run(self, k: int) -> Option<u64> {
        if k > 0 && self.in_code(k - 1) {
            Some(self.address(self.run_start(k - 1)))
        } else {
            None
        }
    }
}

/// The run that holds a code pointer at window `k` begins at or before `k`, at
/// a window that opens a run, and holds code pointers all the way to `k`.
pub proof fn lemma_run_start(scan: Scan, k: int)
    requires
        0 <= k < scan.windows(),
        scan.in_code(k),
    ensures
        0 <= scan.run_start(k) <= k,
        scan.opens_run(scan.run_start(k)),
        forall|j: int| scan.run_start(k) <= j <= k ==> scan.in_code(j),
    decreases k,
{
    if k > 0 && scan.in_code(k - 1) {
        lemma_run_start(scan, k - 1);
    }
}

/// A run that opens at `start` and holds code pointers up to `k` is the run
/// that holds window `k`.
pub proof fn lemma_run_start_is_unique(scan: Scan, start: int, k: int)
    requires
        scan.opens_run(start),
        start <= k,
        forall|j: int| start < j <= k ==> scan.in_code(j),
    ensures
        scan.run_start(k) == start,
    decreases k - start,
{
    if k > start {
        lemma_run_start_is_unique(scan, start, k - 1);
    }
}

/// Reading a window that holds a code pointer adds no candidate.
proof fn lemma_code_pointer_adds_nothing(scan: Scan, k: int)
    requires
        0 <= k < scan.windows(),
        scan.in_code(k),
    ensures
        scan.candidates_within(k + 1) == scan.candidates_within(k),
{
    assert forall|address: u64|
        scan.is_candidate_within(address, k + 1) == scan.is_candidate_within(address, k) by {
        if scan.is_candidate_within(address, k + 1) {
            let start = choose|s: int| #[trigger]
                scan.opens_run(s) && scan.closes_before(s, k + 1) && scan.address(s) == address;
            let end = choose|j: int| start < j < k + 1 && !#[trigger] scan.in_code(j);
            assert(start < end < k && !scan.in_code(end));
            assert(scan.closes_before(start, k));
        }
        if scan.is_candidate_within(address, k) {
            let start = choose|s: int| #[trigger]
                scan.opens_run(s) && scan.closes_before(s, k) && scan.address(s) == address;
            let end = choose|j: int| start < j < k && !#[trigger] scan.in_code(j);
            assert(start < end < k + 1 && !scan.in_code(end));
            assert(scan.closes_before(start, k + 1));
        }
    }
    assert(scan.candidates_within(k + 1) =~= scan.candidates_within(k));
}

/// Reading a window that holds no code pointer ends the open run, if there is
/// one, and makes the address at which it began a candidate.
proof fn lemma_other_value_closes_run(scan: Scan, k: int)
    requires
        0 <= k < scan.windows(),
        !scan.in_code(k),
    ensures
        scan.candidates_within(k + 1) == match scan.open_run(k) {
            Some(start) => scan.candidates_within(k).insert(start),
            None => scan.candidates_within(k),
        },
{
    let after = match scan.open_run(k) {
        Some(start) => scan.candidates_within(k).insert(start),
        None => scan.candidates_within(k),
    };
    assert forall|address: u64|
        scan.is_candidate_within(address, k + 1) == after.contains(address) by {
        if scan.is_candidate_within(address, k + 1) {
            let start = choose|s: int| #[trigger]
                scan.opens_run(s) && scan.closes_before(s, k + 1) && scan.address(s) == address;
            let end = choose|j: int| start < j < k + 1 && !#[trigger] scan.in_code(j);
            if scan.closes_before(start, k) {
                assert(scan.is_candidate_within(address, k));
            } else {
                assert forall|j: int| start < j <= k - 1 implies scan.in_code(j) by {
                    if !scan.in_code(j) {
                        assert(scan.closes_before(start, k));
                    }
                }
                assert(end == k);
                lemma_run_start_is_unique(scan, start, k - 1);
                assert(scan.open_run(k) == Some(address));
            }
        }
        if scan.is_candidate_within(address, k) {
            let start = choose|s: int| #[trigger]
                scan.opens_run(s) && scan.closes_before(s, k) && scan.address(s) == address;
            let end = choose|j: int| start < j < k && !#[trigger] scan.in_code(j);
            assert(start < end < k + 1 && !scan.in_code(end));
            assert(scan.closes_before(start, k + 1));
        }
        if scan.open_run(k) == Some(address) {
            lemma_run_start(scan, k - 1);
            let start = scan.run_start(k - 1);
            assert(start < k < k + 1 && !scan.in_code(k));
            assert(scan.closes_before(start, k + 1));
            assert(scan.opens_run(start));
        }
    }
    assert(scan.candidates_within(k + 1) =~= after);
}

/// Scans read-only data for runs of pointers into the code section.
///
/// The data is read in windows of one pointer each, at the offsets 0, w, 2w and
/// so on. A value counts as a code pointer when it lies strictly between the
/// first address of `code` and the address one past its last byte. The result
/// holds the address of each window that begins a run of code pointers, if a
/// later window with another value ends that run; a run that is still open at
/// the end of the data is dropped.
pub fn scan_candidates(
    rdata: &ReadOnlyData<'_>,
    code: &SectionRange,
    width: PointerWidth,
    order: ByteOrder,
) -> (found: BTreeSet<u64>)
    ensures
        found@ == (Scan {
            data: rdata.bytes@,
            base: rdata.address,
            code: *code,
            width,
            order,
        }).candidates(),
{
    let ghost scan = Scan { data: rdata.bytes@, base: rdata.address, code: *code, width, order };
    let w = width.size();
    let len = rdata.bytes.len();
    let mut found: BTreeSet<u64> = BTreeSet::new();
    let mut last: Option<u64> = None;
    let mut offset: usize = 0;
    let ghost mut k: int = 0;
    proof {
        assert(scan.candidates_within(0) =~= Set::<u64>::empty()) by {
            assert forall|address: u64| !scan.is_candidate_within(address, 0) by {
                assert forall|s: int| !(scan.opens_run(s) && scan.closes_before(s, 0)) by {}
            }
        }
    }
    while len - offset >= w
        invariant
            scan == (Scan { data: rdata.bytes@, base: rdata.address, code: *code, width, order }),
            w == width.bytes(),
            len == rdata.bytes@.len(),
            offset <= len,
            offset == k * w,
            0 <= k <= scan.windows(),
            found@ == scan.candidates_within(k),
            last == scan.open_run(k),
        decreases len - offset,
    {
        proof {
            lemma_window_in_data(scan, k);
        }
        let window = slice_subrange(rdata.bytes, offset, offset + w);
        assert(window@ == scan.window(k));
        let pointer = decode_pointer(window, order);
        if code.contains(pointer) {
            if last.is_none() {
                last = Some(rdata.address.wrapping_add(offset as u64));
            }
            proof {
                lemma_code_pointer_adds_nothing(scan, k);
            }
        } else {
            if let Some(start) = last {
                found.insert(start);
                last = None;
            }
            proof {
                lemma_other_value_closes_run(scan, k);
            }
        }
        offset += w;
        proof {
            k = k + 1;
        }
    }
    proof {
        lemma_no_window_left(scan, k);
    }
    found
}

/// While a whole window is left at offset `k * w`, `k` is a window of the data.
proof fn lemma_window_in_data(scan: Scan, k: int)
    requires
        0 <= k,
        k * scan.width.bytes() + scan.width.bytes() <= scan.data.len(),
    ensures
        k < scan.windows(),
        (k + 1) * scan.width.bytes() == k * scan.width.bytes() + scan.width.bytes(),
{
    let w = scan.width.bytes() as int;
    let len = scan.data.len() as int;
    assert((k + 1) * w == k * w + w && k < len / w) by (nonlinear_arith)
        requires
            0 <= k,
            w == 4 || w == 8,
            k * w + w <= len,
    ;
}

/// Once less than a window is left at offset `k * w`, all windows are read.
proof fn lemma_no_window_left(scan: Scan, k: int)
    requires
        0 <= k <= scan.windows(),
        scan.data.len() - k * scan.width.bytes() < scan.width.bytes(),
    ensures
        k == scan.windows(),
{
    let w = scan.width.bytes() as int;
    let len = scan.data.len() as int;
    assert(k == len / w) by (nonlinear_arith)
        requires
            0 <= k <= len / w,
            w == 4 || w == 8,
            len - k * w < w,
    ;
}

/// Scanning is a function of what is scanned: two scans of the same bytes, at
/// the same address, against the same code range and with the same pointer
/// layout, give the same candidates.
pub proof fn lemma_scan_is_deterministic(first: Scan, second: Scan)
    requires
        first.data =~= second.data,
        first.base == second.base,
        first.code == second.code,
        first.width == second.width,
        first.order == second.order,
    ensures
        first.candidates() == second.candidates(),
{
}

/// A window whose value is the first address of the code section, or the
/// address one past its last byte, holds no code pointer.
pub proof fn lemma_boundary_value_is_no_code_pointer(scan: Scan, k: int)
    requires
        pointer_value(scan.window(k), scan.order) == scan.code.address || pointer_value(
            scan.window(k),
            scan.order,
        ) == scan.code.address + scan.code.size,
    ensures
        !scan.in_code(k),
{
}

/// Two windows of data that fits in the address space lie at two addresses.
pub proof fn lemma_addresses_are_distinct(scan: Scan, a: int, b: int)
    requires
        scan.data.len() <= u64::MAX,
        0 <= a < b < scan.windows(),
    ensures
        scan.address(a) != scan.address(b),
{
    let w = scan.width.bytes() as int;
    let len = scan.data.len() as int;
    assert(0 <= a * w < b * w <= len) by (nonlinear_arith)
        requires
            0 <= a < b < len / w,
            w == 4 || w == 8,
    ;
}

/// A run of code pointers that lasts to the end of the data gives no
/// candidate: where every window from `start` on holds a code pointer, the
/// address of none of them is in the candidate set.
pub proof fn lemma_unclosed_run_gives_no_candidate(scan: Scan, start: int)
    requires
        scan.data.len() <= u64::MAX,
        0 <= start,
        forall|j: int| start <= j < scan.windows() ==> scan.in_code(j),
    ensures
        forall|k: int|
            start <= k < scan.windows() ==> !scan.candidates().contains(#[trigger] scan.address(k)),
        start == 0 ==> scan.candidates() == Set::<u64>::empty(),
{
    assert forall|k: int| start <= k < scan.windows() implies !scan.candidates().contains(
        #[trigger] scan.address(k),
    ) by {
        if scan.candidates().contains(scan.address(k)) {
            let opened = choose|s: int| #[trigger]
                scan.opens_run(s) && scan.closes_before(s, scan.windows()) && scan.address(s)
                    == scan.address(k);
            let end = choose|j: int| opened < j < scan.windows() && !#[trigger] scan.in_code(j);
            if opened < k {
                lemma_addresses_are_distinct(scan, opened, k);
            } else if k < opened {
                lemma_addresses_are_distinct(scan, k, opened);
            }
        }
    }
    if start == 0 {
        assert forall|address: u64| !scan.candidates().contains(address) by {
            if scan.candidates().contains(address) {
                let opened = choose|s: int| #[trigger]
                    scan.opens_run(s) && scan.closes_before(s, scan.windows()) && scan.address(s)
                        == address;
                let end = choose|j: int| opened < j < scan.windows() && !#[trigger] scan.in_code(j);
            }
        }
        assert(scan.candidates() =~= Set::<u64>::empty());
    }
}

} // verus!
