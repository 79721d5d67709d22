//! Detection as a whole: from an object file and its instruction stream to the
//! tables and the places that refer to them.
use crate::candidates::{scan_candidates, Scan};
use crate::instruction::Instruction;
use crate::object_file::{parse_file, parsed, read_section, section_named, ObjectFile};
use crate::ordered::{is_strictly_increasing, lemma_increasing_has_no_duplicates};
use crate::pointer::{native_byte_order, ByteOrder, PointerWidth};
use crate::section::{ReadOnlyData, SectionRange};
use crate::validate::{
    confirmed, lemma_confirmed_are_candidates, lemma_confirmed_tables_have_sites,
    lemma_fresh_index_holds_confirmed_tables, recorded, refers_to, sites, validate_candidates,
};
use crate::xrefs::{references, XrefIndex};
use vstd::prelude::*;

verus! {

/// The sections that detection reads.
#[derive(Clone, Copy, Debug, PartialEq, Eq, Structural)]
pub enum SectionKind {
    /// The code, `.text`.
    Text,
    /// The read-only data, `.rdata`.
    Rdata,
}

/// Why detection could not run.
#[derive(Clone, Copy, Debug, PartialEq, Eq)]
pub enum DetectError {
    /// The bytes are no object file.
    MalformedFile(object::Error),
    /// The file has no section of that kind.
    MissingSection(SectionKind),
    /// The bytes of the read-only data could not be read.
    UnreadableSection(object::Error),
}

/// What detection works on, and the index it fills.
pub struct Context<'data> {
    pub object: ObjectFile<'data>,
    pub pointer_size: PointerWidth,
    /// The decoded code, in the order of the addresses.
    pub insns: Vec<Instruction>,
    pub xrefs: XrefIndex,
}

impl<'data> Context<'data> {
    /// A context for the object file in `data`, with an empty index.
    pub fn parse(data: &'data [u8], pointer_size: PointerWidth, insns: Vec<Instruction>) -> (outcome:
        Result<Context<'data>, DetectError>)
        ensures
            match parsed(data@) {
                Ok(object) => outcome matches Ok(context) && context.object == object
                    && context.pointer_size == pointer_size && context.insns == insns
                    && context.xrefs@ == Map::<u64, Seq<u64>>::empty(),
                Err(error) => outcome matches Err(DetectError::MalformedFile(e)) && e == error,
            },
    {
        match parse_file(data) {
            Ok(object) => Ok(Context { object, pointer_size, insns, xrefs: XrefIndex::new() }),
            Err(error) => Err(DetectError::MalformedFile(error)),
        }
    }
}

/// The code range and the read-only data of an object file, or the reason why
/// detection cannot run on it: the code section is looked for first, then the
/// read-only data, then the bytes of the latter.
pub open spec fn located(file: &ObjectFile<'_>) -> Result<(SectionRange, u64, Seq<u8>), DetectError> {
    match section_named(file, ".text"@) {
        None => Err(DetectError::MissingSection(SectionKind::Text)),
        Some(text) => match section_named(file, ".rdata"@) {
            None => Err(DetectError::MissingSection(SectionKind::Rdata)),
            Some(rdata) => match rdata.data {
                Err(error) => Err(DetectError::UnreadableSection(error)),
                Ok(bytes) => Ok(
                    (SectionRange { address: text.address, size: text.size }, rdata.address, bytes),
                ),
            },
        },
    }
}

/// Finds the code range and the read-only data of an object file.
pub fn locate_sections<'data>(file: &ObjectFile<'data>) -> (outcome: Result<
    (SectionRange, ReadOnlyData<'data>),
    DetectError,
>)
    ensures
        match located(file) {
            Ok((code, address, bytes)) => outcome matches Ok((range, rdata)) && range == code
                && rdata.address == address && rdata.bytes@ == bytes,
            Err(error) => outcome == Err::<(SectionRange, ReadOnlyData<'data>), DetectError>(error),
        },
{
    let text = match read_section(file, ".text") {
        Some(section) => section,
        None => return Err(DetectError::MissingSection(SectionKind::Text)),
    };
    let rdata = match read_section(file, ".rdata") {
        Some(section) => section,
        None => return Err(DetectError::MissingSection(SectionKind::Rdata)),
    };
    match rdata.data {
        Ok(bytes) => Ok(
            (
                SectionRange { address: text.address, size: text.size },
                ReadOnlyData { address: rdata.address, bytes },
            ),
        ),
        Err(error) => Err(DetectError::UnreadableSection(error)),
    }
}

/// Whether `vtables` and the index `after` are what detection gives for a scan
/// and an instruction stream, on an index that held `before`: the tables are
/// the candidates of the scan that the stream refers to, in ascending order and
/// each once, and the index has the referring instructions appended.
pub open spec fn is_detection(
    scan: Scan,
    insns: Seq<Instruction>,
    before: Map<u64, Seq<u64>>,
    vtables: Seq<u64>,
    after: Map<u64, Seq<u64>>,
) -> bool {
    &&& is_strictly_increasing(vtables)
    &&& vtables.to_set() == confirmed(insns, scan.candidates())
    &&& after == recorded(before, insns, scan.candidates(), insns.len() as int)
}

/// Detects the tables of a binary from its two sections and its code.
///
/// The read-only data is scanned for candidates, with pointers of the given
/// width and byte order; the instruction stream then confirms those that it
/// refers to, and records each reference in `xrefs`.
pub fn detect_vtables(
    code: &SectionRange,
    rdata: &ReadOnlyData<'_>,
    width: PointerWidth,
    order: ByteOrder,
    insns: &Vec<Instruction>,
    xrefs: &mut XrefIndex,
) -> (vtables: Vec<u64>)
    ensures
        is_detection(
            Scan { data: rdata.bytes@, base: rdata.address, code: *code, width, order },
            insns@,
            old(xrefs)@,
            vtables@,
            final(xrefs)@,
        ),
{
    let candidates = scan_candidates(rdata, code, width, order);
    validate_candidates(insns, &candidates, xrefs)
}

/// Whether `outcome` and the index `after` are what detection gives for an
/// object file and its instruction stream, on an index that held `before`.
///
/// Where a section is missing or unreadable the outcome is that error and the
/// index is as it was. Else the outcome is the detection for the two sections,
/// with pointers read in one of the two byte orders.
pub open spec fn is_outcome(
    file: &ObjectFile<'_>,
    width: PointerWidth,
    insns: Seq<Instruction>,
    before: Map<u64, Seq<u64>>,
    outcome: Result<Vec<u64>, DetectError>,
    after: Map<u64, Seq<u64>>,
) -> bool {
    match located(file) {
        Err(error) => outcome == Err::<Vec<u64>, DetectError>(error) && after == before,
        Ok((code, base, data)) => outcome matches Ok(vtables) && exists|order: ByteOrder|
            is_detection(
                Scan { data, base, code, width, order },
                insns,
                before,
                vtables@,
                after,
            ),
    }
}

/// Detects the tables of the binary in `context` and records, in the index of
/// the context, the instructions that refer to each.
///
/// Without a `.text` or a `.rdata` section nothing is detected and the index
/// stays as it was. Pointers are read in the byte order of the machine that
/// runs the detection.
pub fn find_vtables(context: &mut Context<'_>) -> (outcome: Result<Vec<u64>, DetectError>)
    ensures
        final(context).object == old(context).object,
        final(context).pointer_size == old(context).pointer_size,
        final(context).insns == old(context).insns,
        is_outcome(
            &old(context).object,
            old(context).pointer_size,
            old(context).insns@,
            old(context).xrefs@,
            outcome,
            final(context).xrefs@,
        ),
{
    let (code, rdata) = match locate_sections(&context.object) {
        Ok(sections) => sections,
        Err(error) => return Err(error),
    };
    let order = native_byte_order();
    let vtables = detect_vtables(
        &code,
        &rdata,
        context.pointer_size,
        order,
        &context.insns,
        &mut context.xrefs,
    );
    let outcome = Ok(vtables);
    proof {
        let found = located(&old(context).object);
        assert(found is Ok && outcome is Ok && outcome->Ok_0 == vtables);
        assert(found->Ok_0.0 == code && found->Ok_0.1 == rdata.address && found->Ok_0.2
            == rdata.bytes@);
        assert(is_detection(
            Scan {
                data: found->Ok_0.2,
                base: found->Ok_0.1,
                code: found->Ok_0.0,
                width: old(context).pointer_size,
                order,
            },
            old(context).insns@,
            old(context).xrefs@,
            vtables@,
            context.xrefs@,
        ));
        assert(is_outcome(
            &old(context).object,
            old(context).pointer_size,
            old(context).insns@,
            old(context).xrefs@,
            outcome,
            context.xrefs@,
        ));
    }
    outcome
}

/// The detected tables are candidates of the scan, in ascending order, and none
/// occurs twice.
pub proof fn lemma_detected_tables_are_candidates(
    scan: Scan,
    insns: Seq<Instruction>,
    before: Map<u64, Seq<u64>>,
    vtables: Seq<u64>,
    after: Map<u64, Seq<u64>>,
)
    requires
        is_detection(scan, insns, before, vtables, after),
    ensures
        forall|i: int| 0 <= i < vtables.len() ==> scan.candidates().contains(#[trigger] vtables[i]),
        is_strictly_increasing(vtables),
        vtables.no_duplicates(),
{
    lemma_confirmed_are_candidates(insns, scan.candidates());
    lemma_increasing_has_no_duplicates(vtables);
    assert forall|i: int| 0 <= i < vtables.len() implies scan.candidates().contains(
        #[trigger] vtables[i],
    ) by {
        assert(vtables.to_set().contains(vtables[i]));
    }
}

/// For every detected table the index holds a list that is not empty, and each
/// address that detection appended to it is that of an instruction which refers
/// to the table in one of the two ways.
pub proof fn lemma_detected_tables_have_sites(
    scan: Scan,
    insns: Seq<Instruction>,
    before: Map<u64, Seq<u64>>,
    vtables: Seq<u64>,
    after: Map<u64, Seq<u64>>,
    table: u64,
)
    requires
        is_detection(scan, insns, before, vtables, after),
        vtables.contains(table),
    ensures
        ({
            let added = sites(insns, scan.candidates(), table, insns.len() as int);
            &&& after.contains_key(table)
            &&& after[table].len() > 0
            &&& after[table] == references(before, table) + added
            &&& forall|k: int|
                0 <= k < added.len() ==> exists|i: int| #[trigger]
                    refers_to(insns, i, scan.candidates(), table) && insns[i].address
                        == #[trigger] added[k]
        }),
{
    assert(vtables.to_set().contains(table));
    lemma_confirmed_tables_have_sites(before, insns, scan.candidates(), table);
}

/// On an index that was empty, detection leaves a list exactly for the tables
/// that it detected, and no list is empty.
pub proof fn lemma_fresh_index_holds_detected_tables(
    scan: Scan,
    insns: Seq<Instruction>,
    vtables: Seq<u64>,
    after: Map<u64, Seq<u64>>,
)
    requires
        is_detection(scan, insns, Map::<u64, Seq<u64>>::empty(), vtables, after),
    ensures
        after.dom() == vtables.to_set(),
        forall|table: u64| #[trigger] after.contains_key(table) ==> after[table].len() > 0,
{
    lemma_fresh_index_holds_confirmed_tables(insns, scan.candidates());
}

} // verus!
