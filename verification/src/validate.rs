//! The instruction validator: which candidates does the code refer to, and
//! from where.
use crate::instruction::{is_mov_from_reg_to_mem, Instruction};
use crate::ordered::{ascending, is_strictly_increasing};
use crate::xrefs::{references, XrefIndex};
use std::collections::BTreeSet;
use vstd::prelude::*;

verus! {

/// The candidate that instruction `i` loads relative to the instruction
/// pointer into a register which the next instruction stores to memory. The
/// last instruction of the stream has no next one and loads no table.
pub open spec fn table_loaded_and_stored(
    insns: Seq<Instruction>,
    i: int,
    candidates: Set<u64>,
) -> Option<u64> {
    match insns[i].loaded_address() {
        Some((register, address)) => {
            if candidates.contains(address) && i + 1 < insns.len() && insns[i
                + 1].stores_register(register) {
                Some(address)
            } else {
                None
            }
        },
        None => None,
    }
}

/// The candidate whose address instruction `i` stores to memory as a constant.
pub open spec fn table_stored(insns: Seq<Instruction>, i: int, candidates: Set<u64>) -> Option<
    u64,
> {
    match insns[i].stored_address() {
        Some(address) => {
            if candidates.contains(address) {
                Some(address)
            } else {
                None
            }
        },
        None => None,
    }
}

/// The candidate that instruction `i` refers to, in one of the two ways.
pub open spec fn referenced_table(insns: Seq<Instruction>, i: int, candidates: Set<u64>) -> Option<
    u64,
> {
    match table_loaded_and_stored(insns, i, candidates) {
        Some(table) => Some(table),
        None => table_stored(insns, i, candidates),
    }
}

/// Whether `i` is an instruction of the stream that refers to `table`.
pub open spec fn refers_to(insns: Seq<Instruction>, i: int, candidates: Set<u64>, table: u64) -> bool {
    0 <= i < insns.len() && referenced_table(insns, i, candidates) == Some(table)
}

/// The tables that one of the first `n` instructions refers to.
pub open spec fn confirmed_within(insns: Seq<Instruction>, candidates: Set<u64>, n: int) -> Set<
    u64,
> {
    Set::new(|table: u64| exists|i: int| i < n && #[trigger] refers_to(insns, i, candidates, table))
}

/// The confirmed tables: the candidates that an instruction refers to.
pub open spec fn confirmed(insns: Seq<Instruction>, candidates: Set<u64>) -> Set<u64> {
    confirmed_within(insns, candidates, insns.len() as int)
}

/// The addresses of those of the first `n` instructions that refer to `table`,
/// in the order of the stream.
pub open spec fn sites(insns: Seq<Instruction>, candidates: Set<u64>, table: u64, n: int) -> Seq<
    u64,
>
    decreases n,
{
    if n <= 0 {
        Seq::empty()
    } else if refers_to(insns, n - 1, candidates, table) {
        sites(insns, candidates, table, n - 1).push(insns[n - 1].address)
    } else {
        sites(insns, candidates, table, n - 1)
    }
}

/// The index `before` with the references of the first `n` instructions
/// appended: each table that is referred to has its sites behind what the index
/// held for it, and the other lists are as they were.
pub open spec fn recorded(
    before: Map<u64, Seq<u64>>,
    insns: Seq<Instruction>,
    candidates: Set<u64>,
    n: int,
) -> Map<u64, Seq<u64>> {
    Map::new(
        |table: u64| before.contains_key(table) || sites(insns, candidates, table, n).len() > 0,
        |table: u64| references(before, table) + sites(insns, candidates, table, n),
    )
}

/// The candidate that the instruction at `i` refers to, if it refers to one.
pub fn table_referenced_at(insns: &Vec<Instruction>, i: usize, candidates: &BTreeSet<u64>) -> (table:
    Option<u64>)
    requires
        i < insns@.len(),
    ensures
        table == referenced_table(insns@, i as int, candidates@),
{
    let insn = &insns[i];
    let n = insns.len();
    match insn.load_relative_to_ip() {
        Some((register, address)) => {
            if candidates.contains(&address) && i + 1 < n && is_mov_from_reg_to_mem(
                &insns[i + 1],
                &register,
            ) {
                return Some(address);
            }
        },
        None => {},
    }
    match insn.store_of_constant() {
        Some(address) => {
            if candidates.contains(&address) {
                Some(address)
            } else {
                None
            }
        },
        None => None,
    }
}

/// Walks the instruction stream and confirms the candidates that it refers to.
///
/// An instruction refers to a candidate in one of two ways. It is
/// `lea register, [rip + displacement]`, the address so named is a candidate,
/// and the next instruction is `mov [memory], register` with the same register.
/// Or it is `mov [memory], constant`, with a constant in the range of a signed
/// 32-bit number that, read as an address, is a candidate.
///
/// The result holds the confirmed tables in ascending order, each once. For
/// each reference the address of the referring instruction is appended to the
/// table's list in `xrefs`.
pub fn validate_candidates(
    insns: &Vec<Instruction>,
    candidates: &BTreeSet<u64>,
    xrefs: &mut XrefIndex,
) -> (vtables: Vec<u64>)
    ensures
        is_strictly_increasing(vtables@),
        vtables@.to_set() == confirmed(insns@, candidates@),
        final(xrefs)@ == recorded(old(xrefs)@, insns@, candidates@, insns@.len() as int),
{
    let mut found: BTreeSet<u64> = BTreeSet::new();
    let n = insns.len();
    let mut i: usize = 0;
    assert(found@ =~= confirmed_within(insns@, candidates@, 0));
    assert(xrefs@ =~= recorded(old(xrefs)@, insns@, candidates@, 0));
    while i < n
        invariant
            n == insns@.len(),
            i <= n,
            found@ == confirmed_within(insns@, candidates@, i as int),
            xrefs@ == recorded(old(xrefs)@, insns@, candidates@, i as int),
        decreases n - i,
    {
        match table_referenced_at(insns, i, candidates) {
            Some(table) => {
                found.insert(table);
                xrefs.record(table, insns[i].address);
            },
            None => {},
        }
        proof {
            lemma_step(old(xrefs)@, insns@, candidates@, i as int);
        }
        i += 1;
    }
    ascending(&found)
}

/// What instruction `i` adds to the confirmed tables and to the index.
proof fn lemma_step(before: Map<u64, Seq<u64>>, insns: Seq<Instruction>, candidates: Set<u64>, i: int)
    requires
        0 <= i < insns.len(),
    ensures
        match referenced_table(insns, i, candidates) {
            Some(table) => {
                let so_far = recorded(before, insns, candidates, i);
                &&& confirmed_within(insns, candidates, i + 1) == confirmed_within(
                    insns,
                    candidates,
                    i,
                ).insert(table)
                &&& recorded(before, insns, candidates, i + 1) == so_far.insert(
                    table,
                    references(so_far, table).push(insns[i].address),
                )
            },
            None => {
                &&& confirmed_within(insns, candidates, i + 1) == confirmed_within(
                    insns,
                    candidates,
                    i,
                )
                &&& recorded(before, insns, candidates, i + 1) == recorded(
                    before,
                    insns,
                    candidates,
                    i,
                )
            },
        },
{
    let now = confirmed_within(insns, candidates, i + 1);
    let earlier = confirmed_within(insns, candidates, i);
    let so_far = recorded(before, insns, candidates, i);
    assert forall|table: u64| now.contains(table) <==> (earlier.contains(table) || refers_to(
        insns,
        i,
        candidates,
        table,
    )) by {
        if now.contains(table) {
            let j = choose|j: int| j < i + 1 && #[trigger] refers_to(insns, j, candidates, table);
            if j < i {
                assert(earlier.contains(table));
            }
        }
        if earlier.contains(table) {
            let j = choose|j: int| j < i && #[trigger] refers_to(insns, j, candidates, table);
            assert(j < i + 1);
        }
    }
    match referenced_table(insns, i, candidates) {
        Some(table) => {
            assert(refers_to(insns, i, candidates, table));
            assert(now =~= earlier.insert(table));
            let held = references(before, table);
            let earlier_sites = sites(insns, candidates, table, i);
            assert(references(so_far, table) =~= held + earlier_sites);
            assert(held + earlier_sites.push(insns[i].address) =~= (held + earlier_sites).push(
                insns[i].address,
            ));
            assert(recorded(before, insns, candidates, i + 1) =~= so_far.insert(
                table,
                references(so_far, table).push(insns[i].address),
            ));
        },
        None => {
            assert(now =~= earlier);
            assert(recorded(before, insns, candidates, i + 1) =~= so_far);
        },
    }
}

/// Every confirmed table is a candidate.
pub proof fn lemma_confirmed_are_candidates(insns: Seq<Instruction>, candidates: Set<u64>)
    ensures
        confirmed(insns, candidates).subset_of(candidates),
{
    assert forall|table: u64| confirmed(insns, candidates).contains(table) implies candidates.contains(
        table,
    ) by {
        let i = choose|i: int| i < insns.len() && #[trigger] refers_to(insns, i, candidates, table);
    }
}

/// Each recorded site is the address of an instruction that refers to the
/// table, and a table has a site exactly if an instruction refers to it.
pub proof fn lemma_sites_are_references(
    insns: Seq<Instruction>,
    candidates: Set<u64>,
    table: u64,
    n: int,
)
    ensures
        forall|k: int|
            0 <= k < sites(insns, candidates, table, n).len() ==> exists|i: int|
                i < n && #[trigger] refers_to(insns, i, candidates, table) && insns[i].address
                    == #[trigger] sites(insns, candidates, table, n)[k],
        sites(insns, candidates, table, n).len() > 0 <==> confirmed_within(
            insns,
            candidates,
            n,
        ).contains(table),
    decreases n,
{
    if n > 0 {
        lemma_sites_are_references(insns, candidates, table, n - 1);
        let earlier = sites(insns, candidates, table, n - 1);
        let now = sites(insns, candidates, table, n);
        assert forall|k: int| 0 <= k < now.len() implies exists|i: int|
            i < n && #[trigger] refers_to(insns, i, candidates, table) && insns[i].address
                == #[trigger] now[k] by {
            if k < earlier.len() {
                let i = choose|i: int|
                    i < n - 1 && #[trigger] refers_to(insns, i, candidates, table)
                        && insns[i].address == earlier[k];
                assert(i < n && refers_to(insns, i, candidates, table) && insns[i].address
                    == now[k]);
            } else {
                assert(refers_to(insns, n - 1, candidates, table) && insns[n - 1].address
                    == now[k]);
            }
        }
        if confirmed_within(insns, candidates, n).contains(table) {
            let i = choose|i: int| i < n && #[trigger] refers_to(insns, i, candidates, table);
            if i < n - 1 {
                assert(confirmed_within(insns, candidates, n - 1).contains(table));
            }
        }
        if now.len() > 0 {
            if earlier.len() > 0 {
                let i = choose|i: int|
                    i < n - 1 && #[trigger] refers_to(insns, i, candidates, table);
                assert(i < n && refers_to(insns, i, candidates, table));
            } else {
                assert(refers_to(insns, n - 1, candidates, table));
            }
        }
    } else {
        if confirmed_within(insns, candidates, n).contains(table) {
            let i = choose|i: int| i < n && #[trigger] refers_to(insns, i, candidates, table);
        }
    }
}

/// For every confirmed table the index holds a list that is not empty: what
/// it held for the table before, followed by the addresses of the instructions
/// that refer to the table.
pub proof fn lemma_confirmed_tables_have_sites(
    before: Map<u64, Seq<u64>>,
    insns: Seq<Instruction>,
    candidates: Set<u64>,
    table: u64,
)
    requires
        confirmed(insns, candidates).contains(table),
    ensures
        ({
            let after = recorded(before, insns, candidates, insns.len() as int);
            let added = sites(insns, candidates, table, insns.len() as int);
            &&& after.contains_key(table)
            &&& after[table].len() > 0
            &&& after[table] == references(before, table) + added
            &&& forall|k: int|
                0 <= k < added.len() ==> exists|i: int| #[trigger]
                    refers_to(insns, i, candidates, table) && insns[i].address == #[trigger] added[k]
        }),
{
    lemma_sites_are_references(insns, candidates, table, insns.len() as int);
    let added = sites(insns, candidates, table, insns.len() as int);
    assert forall|k: int| 0 <= k < added.len() implies exists|i: int| #[trigger]
        refers_to(insns, i, candidates, table) && insns[i].address == #[trigger] added[k] by {
        let i = choose|i: int|
            i < insns.len() && #[trigger] refers_to(insns, i, candidates, table) && insns[i].address
                == added[k];
        assert(refers_to(insns, i, candidates, table) && insns[i].address == added[k]);
    }
}

/// An index that was empty holds, after the walk, a list for a table exactly
/// if the table is confirmed, and no list is empty.
pub proof fn lemma_fresh_index_holds_confirmed_tables(insns: Seq<Instruction>, candidates: Set<u64>)
    ensures
        ({
            let after = recorded(
                Map::<u64, Seq<u64>>::empty(),
                insns,
                candidates,
                insns.len() as int,
            );
            &&& after.dom() == confirmed(insns, candidates)
            &&& forall|table: u64| #[trigger] after.contains_key(table) ==> after[table].len() > 0
        }),
{
    let after = recorded(Map::<u64, Seq<u64>>::empty(), insns, candidates, insns.len() as int);
    assert forall|table: u64| after.contains_key(table) == confirmed(insns, candidates).contains(
        table,
    ) by {
        lemma_sites_are_references(insns, candidates, table, insns.len() as int);
    }
    assert(after.dom() =~= confirmed(insns, candidates));
}

/// The walk takes nothing out of the index and reorders nothing: what the
/// index held for a table is still there, as the beginning of the table's list.
pub proof fn lemma_index_only_grows(
    before: Map<u64, Seq<u64>>,
    insns: Seq<Instruction>,
    candidates: Set<u64>,
    table: u64,
)
    requires
        before.contains_key(table),
    ensures
        ({
            let after = recorded(before, insns, candidates, insns.len() as int);
            &&& after.contains_key(table)
            &&& before[table].is_prefix_of(after[table])
        }),
{
}

} // verus!
