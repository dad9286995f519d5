//! The blob decoder: turns a packed byte buffer into a module table.

use vstd::prelude::*;

use crate::ImporterError;
use crate::format::blob_table;
use crate::format::blob_well_formed;
use crate::format::entry_count;
use crate::format::entry_name;
use crate::format::entry_payload;
use crate::format::index_end;
use crate::format::lemma_names_total_mono;
use crate::format::lemma_payloads_total_mono;
use crate::format::name_len_of;
use crate::format::name_start_of;
use crate::format::names_total;
use crate::format::payload_len_of;
use crate::format::payload_region_start;
use crate::format::payload_start_of;
use crate::format::payloads_total;
use crate::format::read_le32;
use crate::format::table_prefix;
use crate::util::bytes_eq;
use crate::util::copy_bytes;
use crate::util::take_range;

verus! {

/// One decoded entry: a module name and the payload stored under it.
pub struct TableEntry {
    pub name: Vec<u8>,
    pub payload: Vec<u8>,
}

/// A mapping from module name to payload bytes, in insertion order; a later
/// entry of the same name shadows an earlier one.
pub struct ModuleTable {
    pub entries: Vec<TableEntry>,
}

/// The mapping a sequence of entries denotes, later entries overwriting
/// earlier ones of the same name.
pub open spec fn entries_map(s: Seq<TableEntry>) -> Map<Seq<u8>, Seq<u8>>
    decreases s.len(),
{
    if s.len() == 0 {
        Map::empty()
    } else {
        entries_map(s.drop_last()).insert(s.last().name@, s.last().payload@)
    }
}

impl View for ModuleTable {
    type V = Map<Seq<u8>, Seq<u8>>;

    open spec fn view(&self) -> Map<Seq<u8>, Seq<u8>> {
        entries_map(self.entries@)
    }
}

/// A name is in the denoted mapping exactly when some entry bears it.
pub proof fn lemma_entries_map_dom(s: Seq<TableEntry>, n: Seq<u8>)
    ensures
        entries_map(s).contains_key(n) <==> exists|i: int|
            0 <= i < s.len() && s[i].name@ == n,
    decreases s.len(),
{
    if s.len() > 0 {
        lemma_entries_map_dom(s.drop_last(), n);
        if entries_map(s).contains_key(n) {
            if s.last().name@ == n {
                assert(s[s.len() - 1].name@ == n);
            } else {
                let i = choose|i: int| 0 <= i < s.drop_last().len() && s.drop_last()[i].name@ == n;
                assert(s[i].name@ == n);
            }
        }
        if exists|i: int| 0 <= i < s.len() && s[i].name@ == n {
            let i = choose|i: int| 0 <= i < s.len() && s[i].name@ == n;
            if i < s.len() - 1 {
                assert(s.drop_last()[i].name@ == n);
            }
        }
    }
}

/// The payload the denoted mapping holds under a name is the one of the last
/// entry bearing that name.
pub proof fn lemma_entries_map_last(s: Seq<TableEntry>, n: Seq<u8>, k: int)
    requires
        0 <= k < s.len(),
        s[k].name@ == n,
        forall|m: int| k < m < s.len() ==> s[m].name@ != n,
    ensures
        entries_map(s).contains_key(n),
        entries_map(s)[n] == s[k].payload@,
    decreases s.len(),
{
    if k == s.len() - 1 {
    } else {
        assert(s.drop_last()[k].name@ == n);
        lemma_entries_map_last(s.drop_last(), n, k);
    }
}

impl ModuleTable {
    /// An empty table.
    pub fn new() -> (r: ModuleTable)
        ensures
            r@ == Map::<Seq<u8>, Seq<u8>>::empty(),
            r.entries@.len() == 0,
    {
        ModuleTable { entries: Vec::new() }
    }

    /// Inserts a payload under a name, shadowing any earlier entry of the
    /// same name.
    pub fn insert(&mut self, name: Vec<u8>, payload: Vec<u8>)
        ensures
            final(self)@ == old(self)@.insert(name@, payload@),
    {
        let ghost prior = self.entries@;
        self.entries.push(TableEntry { name, payload });
        proof {
            assert(self.entries@.drop_last() =~= prior);
        }
    }

    /// Looks up the payload stored under a name.
    pub fn get(&self, name: &Vec<u8>) -> (r: Option<Vec<u8>>)
        ensures
            match r {
                Some(p) => self@.contains_key(name@) && p@ == self@[name@],
                None => !self@.contains_key(name@),
            },
    {
        let mut j: usize = self.entries.len();
        while j > 0
            invariant
                j <= self.entries.len(),
                forall|m: int| j <= m < self.entries@.len() ==> self.entries@[m].name@ != name@,
            decreases j,
        {
            j = j - 1;
            if bytes_eq(&self.entries[j].name, name) {
                proof {
                    lemma_entries_map_last(self.entries@, name@, j as int);
                }
                return Some(copy_bytes(&self.entries[j].payload));
            }
        }
        proof {
            lemma_entries_map_dom(self.entries@, name@);
        }
        None
    }
}

/// A table whose entries mirror the first `i` entries a blob describes
/// denotes exactly the mapping of those entries.
proof fn lemma_entries_match_prefix(s: Seq<TableEntry>, d: Seq<u8>, i: int)
    requires
        0 <= i,
        s.len() == i,
        forall|j: int|
            0 <= j < i ==> s[j].name@ == entry_name(d, j) && s[j].payload@ == entry_payload(d, j),
    ensures
        entries_map(s) == table_prefix(d, i),
    decreases i,
{
    if i > 0 {
        lemma_entries_match_prefix(s.drop_last(), d, i - 1);
    }
}

/// Decodes a packed blob into a module table.
///
/// Succeeds exactly on well-formed blobs: the buffer holds an entry count,
/// and every name and payload range the index describes lies within the
/// buffer. On success the table holds exactly the mapping the blob
/// describes, a later entry of a repeated name shadowing an earlier one.
pub fn decode_blob(data: &Vec<u8>) -> (r: Result<ModuleTable, ImporterError>)
    ensures
        r is Ok <==> blob_well_formed(data@),
        r matches Ok(t) ==> t@ == blob_table(data@),
        r matches Err(e) ==> e is Format,
{
    if data.len() < 4 {
        return Err(ImporterError::Format);
    }
    let n = read_le32(data, 0);
    assert(n as nat == entry_count(data@));
    let idx_end_wide: u64 = 4 + 8 * (n as u64);
    if idx_end_wide > data.len() as u64 {
        assert(!blob_well_formed(data@));
        return Err(ImporterError::Format);
    }
    assert(index_end(data@) <= data.len());
    let idx_end: usize = idx_end_wide as usize;

    // First pass: accumulate the total name and payload lengths, so that the
    // whole layout can be bounds-checked before any slicing.
    let mut i: u32 = 0;
    let mut off: usize = 4;
    let mut names_sum: u128 = 0;
    let mut payloads_sum: u128 = 0;
    while i < n
        invariant
            i <= n,
            off as int == 4 + 8 * (i as int),
            4 + 8 * (n as int) <= data.len(),
            names_sum as nat == names_total(data@, i as int),
            payloads_sum as nat == payloads_total(data@, i as int),
            names_sum <= 0xFFFF_FFFFu128 * (i as u128),
            payloads_sum <= 0xFFFF_FFFFu128 * (i as u128),
        decreases n - i,
    {
        let nl = read_le32(data, off);
        let dl = read_le32(data, off + 4);
        names_sum = names_sum + nl as u128;
        payloads_sum = payloads_sum + dl as u128;
        off = off + 8;
        i = i + 1;
    }
    let total: u128 = idx_end_wide as u128 + names_sum + payloads_sum;
    if total > data.len() as u128 {
        assert(!blob_well_formed(data@));
        return Err(ImporterError::Format);
    }
    assert(blob_well_formed(data@));

    let values_start_wide: u128 = idx_end_wide as u128 + names_sum;
    let values_start: usize = values_start_wide as usize;
    assert(values_start as int == payload_region_start(data@));

    // Second pass: slice each name and payload out of the buffer, walking
    // the names and payload regions in index order.
    let mut table = ModuleTable::new();
    let mut i: u32 = 0;
    let mut idx_off: usize = 4;
    let mut name_off: usize = idx_end;
    let mut value_off: usize = values_start;
    while i < n
        invariant
            i <= n,
            blob_well_formed(data@),
            n as nat == entry_count(data@),
            idx_off as int == 4 + 8 * (i as int),
            name_off as int == name_start_of(data@, i as int),
            value_off as int == payload_start_of(data@, i as int),
            table.entries@.len() == i as int,
            forall|j: int|
                0 <= j < i ==> table.entries@[j].name@ == entry_name(data@, j)
                    && table.entries@[j].payload@ == entry_payload(data@, j),
        decreases n - i,
    {
        let nl = read_le32(data, idx_off);
        let dl = read_le32(data, idx_off + 4);
        proof {
            lemma_names_total_mono(data@, i as int + 1, n as int);
            lemma_payloads_total_mono(data@, i as int + 1, n as int);
            assert(name_off + nl <= data.len());
            assert(value_off + dl <= data.len());
        }
        let name = take_range(data, name_off, nl as usize);
        let payload = take_range(data, value_off, dl as usize);
        table.entries.push(TableEntry { name, payload });
        name_off = name_off + nl as usize;
        value_off = value_off + dl as usize;
        idx_off = idx_off + 8;
        i = i + 1;
    }
    proof {
        lemma_entries_match_prefix(table.entries@, data@, n as int);
    }
    Ok(table)
}

} // verus!
