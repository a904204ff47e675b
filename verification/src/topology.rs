//! Topology normalization: turns raw display-path rows into a deterministic,
//! left-to-right ordered list of display entries.

use vstd::prelude::*;

verus! {

/// Identity of one active display output.
#[derive(Clone, Copy, Debug, PartialEq, Eq, Structural)]
pub struct DisplayIdentity {
    /// Opaque session-local identifier of the graphics adapter.
    pub adapter_id: u64,
    /// Rendering source on that adapter; the key for DPI operations.
    pub source_id: u32,
    /// Physical output on that adapter; the key for name resolution.
    pub target_id: u32,
}

/// The path mode index value by which the OS marks a path as carrying no
/// usable mode-table position.
pub const MODE_IDX_INVALID: u32 = 0xFFFF_FFFF;

/// One row of the OS mode table, reduced to what topology resolution reads:
/// whether the row describes a source, and its declared position and extent.
#[derive(Clone, Copy, Debug, PartialEq, Eq, Structural)]
pub struct SourceModeRow {
    pub is_source: bool,
    pub x: i32,
    pub y: i32,
    pub width: u32,
    pub height: u32,
}

/// Position and extent of a display in the virtual desktop.
#[derive(Clone, Copy, Debug, PartialEq, Eq, Structural)]
pub struct Geometry {
    pub x: i32,
    pub y: i32,
    pub width: u32,
    pub height: u32,
}

/// What geometry resolution yields: the declared position and extent of the
/// indexed source-mode row, or all zeroes when the index is marked invalid,
/// lies outside the mode table, or names a row that is not a source.
pub open spec fn spec_geometry(mode_idx: u32, modes: Seq<SourceModeRow>) -> Geometry {
    if mode_idx != MODE_IDX_INVALID && (mode_idx as int) < modes.len()
        && modes[mode_idx as int].is_source {
        Geometry {
            x: modes[mode_idx as int].x,
            y: modes[mode_idx as int].y,
            width: modes[mode_idx as int].width,
            height: modes[mode_idx as int].height,
        }
    } else {
        Geometry { x: 0, y: 0, width: 0, height: 0 }
    }
}

/// Resolves a path's position and extent from its mode index. A malformed or
/// invalid index yields position `(0, 0)` and extent `(0, 0)` instead of a
/// failure.
pub fn resolve_geometry(mode_idx: u32, modes: &Vec<SourceModeRow>) -> (g: Geometry)
    ensures
        g == spec_geometry(mode_idx, modes@),
{
    if mode_idx != MODE_IDX_INVALID && (mode_idx as usize) < modes.len() {
        let row = modes[mode_idx as usize];
        if row.is_source {
            return Geometry { x: row.x, y: row.y, width: row.width, height: row.height };
        }
    }
    Geometry { x: 0, y: 0, width: 0, height: 0 }
}

/// `s` with every trailing zero code unit removed.
pub open spec fn spec_trim_trailing_zeros(s: Seq<u16>) -> Seq<u16>
    decreases s.len(),
{
    if s.len() == 0 {
        s
    } else if s[s.len() - 1] == 0 {
        spec_trim_trailing_zeros(s.drop_last())
    } else {
        s
    }
}

/// Removes the zero code units with which the OS terminates and pads a
/// friendly-name buffer.
pub fn trim_trailing_zeros(units: &Vec<u16>) -> (r: Vec<u16>)
    ensures
        r@ == spec_trim_trailing_zeros(units@),
{
    let mut end: usize = units.len();
    proof {
        assert(units@.subrange(0, end as int) =~= units@);
    }
    while end > 0 && units[end - 1] == 0
        invariant
            end <= units@.len(),
            spec_trim_trailing_zeros(units@) == spec_trim_trailing_zeros(
                units@.subrange(0, end as int),
            ),
        decreases end,
    {
        proof {
            assert(units@.subrange(0, end as int).drop_last() =~= units@.subrange(
                0,
                end as int - 1,
            ));
        }
        end = end - 1;
    }
    let mut r: Vec<u16> = Vec::new();
    let mut i: usize = 0;
    while i < end
        invariant
            i <= end <= units@.len(),
            r@ == units@.subrange(0, i as int),
        decreases end - i,
    {
        r.push(units[i]);
        proof {
            assert(units@.subrange(0, i as int).push(units@[i as int]) =~= units@.subrange(
                0,
                i as int + 1,
            ));
        }
        i = i + 1;
    }
    proof {
        let kept = units@.subrange(0, end as int);
        if end > 0 {
            assert(kept[kept.len() - 1] != 0);
            assert(spec_trim_trailing_zeros(kept) == kept);
        } else {
            assert(kept =~= Seq::<u16>::empty());
        }
    }
    r
}

/// The character sequence that lossy UTF-16 decoding yields for a sequence
/// of code units.
pub uninterp spec fn utf16_lossy(units: Seq<u16>) -> Seq<char>;

/// Relies on `String::from_utf16_lossy`: the decoding is a function of the
/// code units alone, and an empty buffer decodes to the empty string.
#[verifier::external_body]
fn decode_utf16_lossy(units: &Vec<u16>) -> (r: String)
    ensures
        r@ == utf16_lossy(units@),
        units@.len() == 0 ==> r@.len() == 0,
{
    String::from_utf16_lossy(units.as_slice())
}

/// Ghost projection of one raw path row.
pub ghost struct PathInputView {
    pub identity: DisplayIdentity,
    pub name_units: Option<Seq<u16>>,
    pub mode_idx: u32,
}

/// Raw data of one active display path: the path's identity, the
/// friendly-name buffer fetched for its target (absent when the per-display
/// detail lookup failed), and the path's source mode index.
pub struct PathInput {
    pub identity: DisplayIdentity,
    pub name_units: Option<Vec<u16>>,
    pub mode_idx: u32,
}

impl View for PathInput {
    type V = PathInputView;

    open spec fn view(&self) -> PathInputView {
        PathInputView {
            identity: self.identity,
            name_units: if self.name_units is Some {
                Some(self.name_units->0@)
            } else {
                None
            },
            mode_idx: self.mode_idx,
        }
    }
}

/// One row of the normalized topology view.
pub struct DisplayEntry {
    pub identity: DisplayIdentity,
    /// De-terminated, human-readable device name.
    pub friendly_name: String,
    pub x: i32,
    pub y: i32,
    pub width: u32,
    pub height: u32,
}

/// Ghost projection of a display entry.
pub ghost struct DisplayEntryView {
    pub identity: DisplayIdentity,
    pub friendly_name: Seq<char>,
    pub x: i32,
    pub y: i32,
    pub width: u32,
    pub height: u32,
}

impl View for DisplayEntry {
    type V = DisplayEntryView;

    open spec fn view(&self) -> DisplayEntryView {
        DisplayEntryView {
            identity: self.identity,
            friendly_name: self.friendly_name@,
            x: self.x,
            y: self.y,
            width: self.width,
            height: self.height,
        }
    }
}

/// The ghost projections of a sequence of path rows.
pub open spec fn path_views(paths: Seq<PathInput>) -> Seq<PathInputView> {
    paths.map_values(|p: PathInput| p@)
}

/// The ghost projections of a sequence of display entries.
pub open spec fn entry_views(entries: Seq<DisplayEntry>) -> Seq<DisplayEntryView> {
    entries.map_values(|e: DisplayEntry| e@)
}

/// The entry one path row yields: the path's identity, its de-terminated
/// decoded friendly name, and geometry resolved from the mode table.
pub open spec fn spec_entry_of(p: PathInputView, modes: Seq<SourceModeRow>) -> DisplayEntryView {
    let g = spec_geometry(p.mode_idx, modes);
    DisplayEntryView {
        identity: p.identity,
        friendly_name: utf16_lossy(spec_trim_trailing_zeros(p.name_units->0)),
        x: g.x,
        y: g.y,
        width: g.width,
        height: g.height,
    }
}

/// The entries a sequence of path rows yields, in path order: rows whose name
/// lookup failed are skipped, the rest never abort the enumeration.
pub open spec fn spec_entries(
    paths: Seq<PathInputView>,
    modes: Seq<SourceModeRow>,
) -> Seq<DisplayEntryView>
    decreases paths.len(),
{
    if paths.len() == 0 {
        Seq::empty()
    } else {
        let rest = spec_entries(paths.drop_last(), modes);
        if paths.last().name_units is Some {
            rest.push(spec_entry_of(paths.last(), modes))
        } else {
            rest
        }
    }
}

/// Non-decreasing in x-position: left-to-right reading order.
pub open spec fn sorted_by_x(s: Seq<DisplayEntryView>) -> bool {
    forall|i: int, j: int| 0 <= i <= j < s.len() ==> s[i].x <= s[j].x
}

/// Moving the element at `j` down one slot swaps it with its left neighbour
/// and keeps every entry of the sequence.
proof fn lemma_shift_down_is_swap(s: Seq<DisplayEntry>, j: int)
    requires
        0 < j < s.len(),
    ensures
        entry_views(s.remove(j).insert(j - 1, s[j])) =~= entry_views(s).update(j, entry_views(s)[j - 1]).update(j - 1, entry_views(s)[j]),
        entry_views(s.remove(j).insert(j - 1, s[j])).to_multiset() == entry_views(s).to_multiset(),
{
    broadcast use vstd::seq_lib::group_to_multiset_ensures;
    broadcast use vstd::multiset::group_multiset_axioms;

    let vv = entry_views(s);
    let swapped = vv.update(j, vv[j - 1]).update(j - 1, vv[j]);
    assert(entry_views(s.remove(j).insert(j - 1, s[j])) =~= swapped);
    assert(swapped =~= vv.remove(j).insert(j - 1, vv[j]));
    assert(vv.remove(j).to_multiset() == vv.to_multiset().remove(vv[j]));
    assert(vv.remove(j).insert(j - 1, vv[j]).to_multiset() == vv.remove(j).to_multiset().insert(
        vv[j],
    ));
    assert(vv.contains(vv[j]));
    assert(vv.to_multiset().count(vv[j]) > 0);
    assert(vv.to_multiset().remove(vv[j]).insert(vv[j]) =~= vv.to_multiset());
}

/// Sorts display entries into non-decreasing x order. The result holds
/// exactly the entries given.
pub fn sort_entries_by_x(entries: &mut Vec<DisplayEntry>)
    ensures
        sorted_by_x(entry_views(final(entries)@)),
        entry_views(final(entries)@).to_multiset() == entry_views(old(entries)@).to_multiset(),
{
    let ghost orig = entries@;
    let mut i: usize = 1;
    while i < entries.len()
        invariant
            i >= 1,
            entries@.len() == orig.len(),
            entry_views(entries@).to_multiset() == entry_views(orig).to_multiset(),
            forall|a: int, b: int|
                0 <= a <= b < i as int && b < entries@.len() ==> entry_views(entries@)[a].x
                    <= entry_views(entries@)[b].x,
        decreases entries@.len() - i,
    {
        let mut j: usize = i;
        while j > 0 && entries[j - 1].x > entries[j].x
            invariant
                j <= i < entries@.len(),
                entries@.len() == orig.len(),
                entry_views(entries@).to_multiset() == entry_views(orig).to_multiset(),
                forall|a: int, b: int|
                    0 <= a <= b <= i as int && a != j as int && b != j as int ==> entry_views(
                        entries@,
                    )[a].x <= entry_views(entries@)[b].x,
                forall|a: int|
                    (j as int) < a <= i as int ==> entry_views(entries@)[j as int].x
                        <= entry_views(entries@)[a].x,
            decreases j,
        {
            let ghost before = entries@;
            let e = entries.remove(j);
            entries.insert(j - 1, e);
            proof {
                lemma_shift_down_is_swap(before, j as int);
            }
            j = j - 1;
        }
        proof {
            let vv = entry_views(entries@);
            assert forall|a: int, b: int| 0 <= a <= b <= i as int implies vv[a].x <= vv[b].x by {
                if a == j as int {
                } else if b == j as int {
                    assert(j > 0);
                    assert(entries@[j as int - 1]@.x <= entries@[j as int]@.x);
                    assert(vv[j as int - 1].x <= vv[j as int].x);
                    if a < j as int - 1 {
                        assert(vv[a].x <= vv[j as int - 1].x);
                    }
                }
            }
        }
        i = i + 1;
    }
}

/// Normalizes raw path rows into the ordered topology view: rows whose name
/// lookup failed are skipped, each friendly name is de-terminated and
/// decoded, each geometry is resolved from the mode table, and the entries
/// come out sorted left to right by x-position. An empty path list yields an
/// empty view, never an error.
pub fn build_display_entries(paths: &Vec<PathInput>, modes: &Vec<SourceModeRow>) -> (r: Vec<
    DisplayEntry,
>)
    ensures
        entry_views(r@).to_multiset() == spec_entries(path_views(paths@), modes@).to_multiset(),
        r@.len() == spec_entries(path_views(paths@), modes@).len(),
        sorted_by_x(entry_views(r@)),
{
    let ghost pv = path_views(paths@);
    let mut out: Vec<DisplayEntry> = Vec::new();
    let mut i: usize = 0;
    while i < paths.len()
        invariant
            i <= paths@.len(),
            pv == path_views(paths@),
            entry_views(out@) == spec_entries(pv.take(i as int), modes@),
        decreases paths@.len() - i,
    {
        let p = &paths[i];
        let ghost out_before = out@;
        if let Some(units) = &p.name_units {
            let trimmed = trim_trailing_zeros(units);
            let name = decode_utf16_lossy(&trimmed);
            let g = resolve_geometry(p.mode_idx, modes);
            let e = DisplayEntry {
                identity: p.identity,
                friendly_name: name,
                x: g.x,
                y: g.y,
                width: g.width,
                height: g.height,
            };
            proof {
                assert(e@ == spec_entry_of(pv[i as int], modes@));
            }
            out.push(e);
            proof {
                assert(entry_views(out@) =~= entry_views(out_before).push(e@));
            }
        }
        proof {
            assert(pv.take(i as int + 1).drop_last() =~= pv.take(i as int));
            assert(pv.take(i as int + 1).last() == pv[i as int]);
        }
        i = i + 1;
    }
    proof {
        assert(pv.take(paths@.len() as int) =~= pv);
    }
    sort_entries_by_x(&mut out);
    proof {
        broadcast use vstd::seq_lib::group_to_multiset_ensures;

        assert(entry_views(out@).to_multiset().len() == spec_entries(pv, modes@).to_multiset().len());
    }
    out
}

} // verus!
