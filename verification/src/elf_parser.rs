//! Binary-inspector core: from the symbols of the trace-point section and the
//! subprogram entries of the debug info, build the mapping from runtime id to
//! trace-point metadata with source location.
//!
//! Reading the object file and walking its debug tables happens outside; this
//! module takes what those tables hold as plain values and does the
//! validation, decoding and correlation.

use vstd::prelude::*;
use std::collections::HashMap;
use crate::trace_point::{
    TracePointDataWithLocation, TracePointId, TracePointInfo, spec_decodes_to_info,
    spec_info_matches,
};

verus! {

broadcast use vstd::std_specs::hash::group_hash_axioms;

/// One symbol of the trace-point section: its exported name and its address
/// within the section.
#[derive(PartialEq, Eq, Debug)]
pub struct SectionSymbol {
    pub name: String,
    pub address: u64,
}

/// One row of a compilation unit's file table: directory and file name.
#[derive(PartialEq, Eq, Debug)]
pub struct DebugFileEntry {
    pub path: Option<String>,
    pub file_name: Option<String>,
}

/// One subprogram entry of the debug info that carries a linkage name:
/// `decl_file` indexes the unit's file table, 1-based.
#[derive(PartialEq, Eq, Debug)]
pub struct DebugEntry {
    pub linkage_name: String,
    pub decl_file: Option<u64>,
    pub decl_line: Option<u64>,
}

/// One compilation unit: its file table and its entries.
#[derive(PartialEq, Eq, Debug)]
pub struct DebugUnit {
    pub files: Vec<DebugFileEntry>,
    pub entries: Vec<DebugEntry>,
}

/// Why a binary's trace-point tables are rejected.
#[derive(PartialEq, Eq, Structural, Debug, Clone, Copy)]
pub enum ElfParseError {
    /// A symbol's address reaches the reserved id or beyond.
    TooManyTracePoints,
    /// A symbol's name does not decode to a trace-point record.
    MalformedMetadata,
    /// A matching debug entry indexes outside its unit's file table.
    MalformedDebugInfo,
    /// Two symbols share one address.
    DuplicateId,
}

/// The source location a matching debug entry assigns: the file-table row it
/// points at, and its line; nothing if it carries no file index.
pub open spec fn spec_entry_loc(e: DebugEntry, files: Seq<DebugFileEntry>) -> (
    Option<Seq<char>>,
    Option<Seq<char>>,
    Option<u64>,
) {
    match e.decl_file {
        Some(x) => (
            files[x - 1].path.deep_view(),
            files[x - 1].file_name.deep_view(),
            e.decl_line,
        ),
        None => (None, None, None),
    }
}

/// The location the last entry of `entries` matching `name` assigns, if any
/// entry matches.
pub open spec fn spec_loc_in_entries(
    entries: Seq<DebugEntry>,
    files: Seq<DebugFileEntry>,
    name: Seq<char>,
) -> Option<(Option<Seq<char>>, Option<Seq<char>>, Option<u64>)>
    decreases entries.len(),
{
    if entries.len() == 0 {
        None
    } else if entries.last().linkage_name@ == name {
        Some(spec_entry_loc(entries.last(), files))
    } else {
        spec_loc_in_entries(entries.drop_last(), files, name)
    }
}

/// The location the debug info assigns to `name`: that of the last matching
/// entry of the last unit holding one; no location if none matches.
pub open spec fn spec_loc_in_units(units: Seq<DebugUnit>, name: Seq<char>) -> (
    Option<Seq<char>>,
    Option<Seq<char>>,
    Option<u64>,
)
    decreases units.len(),
{
    if units.len() == 0 {
        (None, None, None)
    } else {
        match spec_loc_in_entries(units.last().entries@, units.last().files@, name) {
            Some(loc) => loc,
            None => spec_loc_in_units(units.drop_last(), name),
        }
    }
}

/// Every debug entry matching `name` that carries a file index points inside
/// its unit's file table (the index is 1-based).
pub open spec fn spec_units_wf_for(units: Seq<DebugUnit>, name: Seq<char>) -> bool {
    forall|u: int, e: int|
        0 <= u < units.len() && 0 <= e < units[u].entries@.len() ==> ((#[trigger] units[u].entries@[e]).linkage_name@
            == name ==> (units[u].entries@[e].decl_file matches Some(x) ==> 1 <= x
            <= units[u].files@.len()))
}

/// The record the mapping holds for a symbol: its decoded metadata and the
/// location the debug info assigns to its name.
pub open spec fn spec_record_matches(
    sym: SectionSymbol,
    units: Seq<DebugUnit>,
    rec: TracePointDataWithLocation,
) -> bool {
    &&& spec_info_matches(sym.name@, rec.info)
    &&& (rec.path.deep_view(), rec.file_name.deep_view(), rec.line) == spec_loc_in_units(
        units,
        sym.name@,
    )
}

/// All conditions under which inspection succeeds: every address below the
/// reserved id, every symbol name decodable, the debug info well-formed for
/// every symbol name, and no two symbols on one address.
pub open spec fn spec_parse_ok(symbols: Seq<SectionSymbol>, units: Seq<DebugUnit>) -> bool {
    &&& forall|i: int|
        0 <= i < symbols.len() ==> (#[trigger] symbols[i]).address < crate::MAX_TRACE_POINTS
    &&& forall|i: int| 0 <= i < symbols.len() ==> spec_decodes_to_info((#[trigger] symbols[i]).name@)
    &&& forall|i: int| 0 <= i < symbols.len() ==> spec_units_wf_for(units, (#[trigger] symbols[i]).name@)
    &&& forall|i: int, j: int|
        #![trigger symbols[i], symbols[j]]
        0 <= i < j < symbols.len() ==> symbols[i].address != symbols[j].address
}

/// What the produced mapping holds: exactly one record per symbol, keyed by
/// the symbol's address.
pub open spec fn spec_parse_result(
    symbols: Seq<SectionSymbol>,
    units: Seq<DebugUnit>,
    m: Map<TracePointId, TracePointDataWithLocation>,
) -> bool {
    &&& forall|id: TracePointId|
        #[trigger] m.contains_key(id) <==> exists|i: int|
            0 <= i < symbols.len() && (#[trigger] symbols[i]).address == id
    &&& forall|i: int|
        0 <= i < symbols.len() ==> spec_record_matches(
            #[trigger] symbols[i],
            units,
            m[symbols[i].address as u8],
        )
}

/// The source location the debug info assigns to one symbol name: scan every
/// unit's entries in order and keep the last match, validating each matching
/// entry's file index against its unit's file table.
pub fn find_location(units: &Vec<DebugUnit>, name: &String) -> (r: Result<
    (Option<String>, Option<String>, Option<u64>),
    ElfParseError,
>)
    ensures
        (r is Ok) <==> spec_units_wf_for(units@, name@),
        r matches Ok(loc) ==> (loc.0.deep_view(), loc.1.deep_view(), loc.2) == spec_loc_in_units(
            units@,
            name@,
        ),
        r matches Err(e) ==> e == ElfParseError::MalformedDebugInfo,
{
    let mut path: Option<String> = None;
    let mut file_name: Option<String> = None;
    let mut line: Option<u64> = None;
    let mut u: usize = 0;
    proof {
        assert(units@.take(0) =~= Seq::<DebugUnit>::empty());
    }
    while u < units.len()
        invariant
            u <= units.len(),
            (path.deep_view(), file_name.deep_view(), line) == spec_loc_in_units(
                units@.take(u as int),
                name@,
            ),
            forall|u2: int, e2: int|
                0 <= u2 < u && 0 <= e2 < units@[u2].entries@.len() ==> ((#[trigger] units@[u2].entries@[e2]).linkage_name@
                    == name@ ==> (units@[u2].entries@[e2].decl_file matches Some(x) ==> 1 <= x
                    <= units@[u2].files@.len())),
        decreases units@.len() - u,
    {
        let unit = &units[u];
        let mut e: usize = 0;
        proof {
            assert(unit.entries@.take(0) =~= Seq::<DebugEntry>::empty());
        }
        while e < unit.entries.len()
            invariant
                u < units.len(),
                e <= unit.entries.len(),
                unit == units@[u as int],
                ({
                    let sofar = spec_loc_in_entries(
                        unit.entries@.take(e as int),
                        unit.files@,
                        name@,
                    );
                    (path.deep_view(), file_name.deep_view(), line) == match sofar {
                        Some(loc) => loc,
                        None => spec_loc_in_units(units@.take(u as int), name@),
                    }
                }),
                forall|e2: int|
                    0 <= e2 < e ==> ((#[trigger] unit.entries@[e2]).linkage_name@ == name@
                        ==> (unit.entries@[e2].decl_file matches Some(x) ==> 1 <= x
                        <= unit.files@.len())),
            decreases unit.entries@.len() - e,
        {
            let entry = &unit.entries[e];
            proof {
                assert(unit.entries@.take(e + 1).drop_last() =~= unit.entries@.take(e as int));
                assert(unit.entries@.take(e + 1).last() == unit.entries@[e as int]);
            }
            if entry.linkage_name == *name {
                match entry.decl_file {
                    Some(x) => {
                        if x < 1 || x > unit.files.len() as u64 {
                            return Err(ElfParseError::MalformedDebugInfo);
                        }
                        let row = &unit.files[(x - 1) as usize];
                        path = match &row.path {
                            Some(s) => Some(s.clone()),
                            None => None,
                        };
                        file_name = match &row.file_name {
                            Some(s) => Some(s.clone()),
                            None => None,
                        };
                        line = entry.decl_line;
                    },
                    None => {
                        path = None;
                        file_name = None;
                        line = None;
                    },
                }
            }
            e = e + 1;
        }
        proof {
            assert(unit.entries@.take(unit.entries@.len() as int) =~= unit.entries@);
            assert(units@.take(u + 1).drop_last() =~= units@.take(u as int));
            assert(units@.take(u + 1).last() == units@[u as int]);
        }
        u = u + 1;
    }
    proof {
        assert(units@.take(units@.len() as int) =~= units@);
    }
    Ok((path, file_name, line))
}

/// Build the mapping from runtime id to metadata-with-location out of the
/// trace-point section's symbols and the binary's debug info. Rejects an
/// address at or past the reserved id, a symbol name that does not decode, a
/// duplicated address, and a matching debug entry whose file index falls
/// outside its unit's file table.
pub fn parse(symbols: &Vec<SectionSymbol>, units: &Vec<DebugUnit>) -> (r: Result<
    HashMap<TracePointId, TracePointDataWithLocation>,
    ElfParseError,
>)
    ensures
        (r is Ok) <==> spec_parse_ok(symbols@, units@),
        r matches Ok(m) ==> spec_parse_result(symbols@, units@, m@),
        r == Err::<HashMap<TracePointId, TracePointDataWithLocation>, ElfParseError>(
            ElfParseError::TooManyTracePoints,
        ) ==> exists|i: int|
            0 <= i < symbols@.len() && (#[trigger] symbols@[i]).address >= crate::MAX_TRACE_POINTS,
        r == Err::<HashMap<TracePointId, TracePointDataWithLocation>, ElfParseError>(
            ElfParseError::MalformedMetadata,
        ) ==> exists|i: int|
            0 <= i < symbols@.len() && !spec_decodes_to_info((#[trigger] symbols@[i]).name@),
        r == Err::<HashMap<TracePointId, TracePointDataWithLocation>, ElfParseError>(
            ElfParseError::MalformedDebugInfo,
        ) ==> exists|i: int|
            0 <= i < symbols@.len() && !spec_units_wf_for(units@, (#[trigger] symbols@[i]).name@),
        r == Err::<HashMap<TracePointId, TracePointDataWithLocation>, ElfParseError>(
            ElfParseError::DuplicateId,
        ) ==> exists|i: int, j: int|
            #![trigger symbols@[i], symbols@[j]]
            0 <= i < j < symbols@.len() && symbols@[i].address == symbols@[j].address,
{
    let mut m: HashMap<TracePointId, TracePointDataWithLocation> = HashMap::new();
    let mut i: usize = 0;
    while i < symbols.len()
        invariant
            i <= symbols@.len(),
            forall|j: int|
                0 <= j < i ==> (#[trigger] symbols@[j]).address < crate::MAX_TRACE_POINTS,
            forall|j: int| 0 <= j < i ==> spec_decodes_to_info((#[trigger] symbols@[j]).name@),
            forall|j: int| 0 <= j < i ==> spec_units_wf_for(units@, (#[trigger] symbols@[j]).name@),
            forall|j: int, k: int|
                #![trigger symbols@[j], symbols@[k]]
                0 <= j < k < i ==> symbols@[j].address != symbols@[k].address,
            forall|id: TracePointId|
                #[trigger] m@.contains_key(id) <==> exists|j: int|
                    0 <= j < i && (#[trigger] symbols@[j]).address == id,
            forall|j: int|
                0 <= j < i ==> spec_record_matches(
                    #[trigger] symbols@[j],
                    units@,
                    m@[symbols@[j].address as u8],
                ),
        decreases symbols@.len() - i,
    {
        let sym = &symbols[i];
        if sym.address >= crate::MAX_TRACE_POINTS as u64 {
            return Err(ElfParseError::TooManyTracePoints);
        }
        let info: TracePointInfo = match TracePointInfo::from_mangled_string(sym.name.as_str()) {
            Ok(info) => info,
            Err(_) => {
                return Err(ElfParseError::MalformedMetadata);
            },
        };
        let id: TracePointId = sym.address as u8;
        if m.contains_key(&id) {
            proof {
                let j = choose|j: int| 0 <= j < i && (#[trigger] symbols@[j]).address == id;
                assert(symbols@[j].address == symbols@[i as int].address);
            }
            return Err(ElfParseError::DuplicateId);
        }
        let loc = match find_location(units, &sym.name) {
            Ok(loc) => loc,
            Err(_) => {
                return Err(ElfParseError::MalformedDebugInfo);
            },
        };
        let rec = TracePointDataWithLocation {
            info,
            path: loc.0,
            file_name: loc.1,
            line: loc.2,
        };
        m.insert(id, rec);
        i = i + 1;
    }
    Ok(m)
}

} // verus!
