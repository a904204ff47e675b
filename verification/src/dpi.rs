//! DPI scale resolution: maps the OS-reported relative scale range onto the
//! fixed table of absolute percentages, and plans the relative delta that an
//! OS commit expects when a new percentage is applied.

use vstd::prelude::*;

verus! {

/// Number of entries in the fixed DPI percentage table.
pub const DPI_TABLE_LEN: usize = 12;

/// The absolute percentage stored at position `i` of the fixed DPI table.
pub open spec fn dpi_value_at(i: int) -> u32 {
    if i == 0 {
        100
    } else if i == 1 {
        125
    } else if i == 2 {
        150
    } else if i == 3 {
        175
    } else if i == 4 {
        200
    } else if i == 5 {
        225
    } else if i == 6 {
        250
    } else if i == 7 {
        300
    } else if i == 8 {
        350
    } else if i == 9 {
        400
    } else if i == 10 {
        450
    } else {
        500
    }
}

/// The fixed, ascending table of legal absolute DPI percentages.
pub open spec fn dpi_table() -> Seq<u32> {
    Seq::new(DPI_TABLE_LEN as nat, |i: int| dpi_value_at(i))
}

/// The table is strictly ascending, so every value occurs at most once.
pub proof fn lemma_table_strictly_ascending()
    ensures
        forall|i: int, j: int|
            0 <= i < j < dpi_table().len() ==> dpi_table()[i] < dpi_table()[j],
{
}

/// Executable copy of the fixed DPI percentage table.
pub fn dpi_values() -> (v: Vec<u32>)
    ensures
        v@ == dpi_table(),
{
    let mut v: Vec<u32> = Vec::new();
    v.push(100);
    v.push(125);
    v.push(150);
    v.push(175);
    v.push(200);
    v.push(225);
    v.push(250);
    v.push(300);
    v.push(350);
    v.push(400);
    v.push(450);
    v.push(500);
    proof {
        assert(v@ =~= dpi_table());
    }
    v
}

/// Snapshot of one display's DPI scaling state, in absolute percentages.
#[derive(Clone, Copy, Debug, PartialEq, Eq, Structural)]
pub struct DpiScalingInfo {
    pub minimum: u32,
    pub maximum: u32,
    pub current: u32,
    pub recommended: u32,
    pub valid: bool,
}

/// The defaulted snapshot returned whenever the relative range cannot be
/// resolved against the table.
pub open spec fn invalid_info() -> DpiScalingInfo {
    DpiScalingInfo { minimum: 100, maximum: 100, current: 100, recommended: 100, valid: false }
}

impl DpiScalingInfo {
    /// The defaulted, invalid snapshot.
    pub fn invalid() -> (r: DpiScalingInfo)
        ensures
            r == invalid_info(),
    {
        DpiScalingInfo { minimum: 100, maximum: 100, current: 100, recommended: 100, valid: false }
    }

    /// The three percentages are ordered as a snapshot of a resolvable range
    /// reports them.
    pub open spec fn consistent(self) -> bool {
        self.minimum <= self.current && self.current <= self.maximum
    }
}

/// `v` clamped into `[lo, hi]`, checking the lower bound first.
pub open spec fn clamp_int(v: int, lo: int, hi: int) -> int {
    if v < lo {
        lo
    } else if v > hi {
        hi
    } else {
        v
    }
}

/// Absolute value of the reported minimum: the table position of the
/// recommended (relative zero) point.
pub open spec fn min_abs_of(min_rel: int) -> int {
    if min_rel < 0 {
        -min_rel
    } else {
        min_rel
    }
}

/// Table index holding the recommended percentage.
pub open spec fn rec_index_of(min_rel: int) -> int {
    min_abs_of(min_rel)
}

/// Table index holding the current percentage, after clamping the current
/// relative value into the reported range.
pub open spec fn cur_index_of(min_rel: int, cur_rel: int, max_rel: int) -> int {
    min_abs_of(min_rel) + clamp_int(cur_rel, min_rel, max_rel)
}

/// Table index holding the maximum percentage.
pub open spec fn max_index_of(min_rel: int, max_rel: int) -> int {
    min_abs_of(min_rel) + max_rel
}

/// All three derived table indices lie inside the table.
pub open spec fn indices_ok(min_rel: int, cur_rel: int, max_rel: int) -> bool {
    &&& 0 <= rec_index_of(min_rel) < dpi_table().len()
    &&& 0 <= cur_index_of(min_rel, cur_rel, max_rel) < dpi_table().len()
    &&& 0 <= max_index_of(min_rel, max_rel) < dpi_table().len()
}

/// What resolving a reported relative range yields: the table values at the
/// three derived indices when all of them are in bounds, and the defaulted
/// invalid snapshot otherwise.
pub open spec fn spec_resolve(min_rel: int, cur_rel: int, max_rel: int) -> DpiScalingInfo {
    if indices_ok(min_rel, cur_rel, max_rel) {
        DpiScalingInfo {
            minimum: 100,
            maximum: dpi_table()[max_index_of(min_rel, max_rel)],
            current: dpi_table()[cur_index_of(min_rel, cur_rel, max_rel)],
            recommended: dpi_table()[rec_index_of(min_rel)],
            valid: true,
        }
    } else {
        invalid_info()
    }
}

/// Resolves an OS-reported relative DPI range into absolute percentages.
///
/// The current relative value is clamped into `[min_rel, max_rel]`; the
/// recommended value sits `|min_rel|` slots above the table start. If any
/// derived index falls outside the table, the whole descriptor is distrusted
/// and the defaulted invalid snapshot is returned.
pub fn resolve_scaling(min_rel: i32, cur_rel: i32, max_rel: i32) -> (info: DpiScalingInfo)
    ensures
        info == spec_resolve(min_rel as int, cur_rel as int, max_rel as int),
{
    let table = dpi_values();

    let mut cur: i32 = cur_rel;
    if cur < min_rel {
        cur = min_rel;
    } else if cur > max_rel {
        cur = max_rel;
    }

    let min_abs: i64 = if min_rel < 0 {
        -(min_rel as i64)
    } else {
        min_rel as i64
    };
    let cur_index: i64 = min_abs + cur as i64;
    let rec_index: i64 = min_abs;
    let max_index: i64 = min_abs + max_rel as i64;
    let count: i64 = DPI_TABLE_LEN as i64;

    if rec_index < 0 || rec_index >= count {
        return DpiScalingInfo::invalid();
    }
    if cur_index < 0 || cur_index >= count {
        return DpiScalingInfo::invalid();
    }
    if max_index < 0 || max_index >= count {
        return DpiScalingInfo::invalid();
    }

    DpiScalingInfo {
        minimum: 100,
        maximum: table[max_index as usize],
        current: table[cur_index as usize],
        recommended: table[rec_index as usize],
        valid: true,
    }
}

/// Finds the table position of `v`, if `v` is a legal table percentage.
fn find_table_index(table: &Vec<u32>, v: u32) -> (r: Option<usize>)
    requires
        table@ == dpi_table(),
    ensures
        r is Some ==> 0 <= r->0 < dpi_table().len() && dpi_table()[r->0 as int] == v
            && r->0 == dpi_table().index_of(v),
        r is None ==> !dpi_table().contains(v),
{
    let mut i: usize = 0;
    let mut found: Option<usize> = None;
    while i < table.len()
        invariant
            table@ == dpi_table(),
            i <= table@.len(),
            found is Some ==> found->0 < i && table@[found->0 as int] == v,
            found is None ==> forall|j: int| 0 <= j < i ==> table@[j] != v,
        decreases table@.len() - i,
    {
        if table[i] == v {
            found = Some(i);
        }
        i = i + 1;
    }
    proof {
        if let Some(k) = found {
            assert(dpi_table().contains(v)) by {
                assert(dpi_table()[k as int] == v);
            }
            let w = dpi_table().index_of(v);
            assert(0 <= w < dpi_table().len() && dpi_table()[w] == v);
            lemma_table_strictly_ascending();
            assert(w == k as int);
        } else {
            assert(forall|j: int| 0 <= j < dpi_table().len() ==> dpi_table()[j] != v);
        }
    }
    found
}

/// What applying a new DPI percentage requires of the OS.
#[derive(Clone, Copy, Debug, PartialEq, Eq, Structural)]
pub enum DpiWritePlan {
    /// The snapshot is invalid: nothing may be committed.
    Invalid,
    /// The target already equals the current percentage: report success
    /// without an OS commit.
    AlreadySet,
    /// The clamped target or the recommended value has no table position:
    /// report failure without an OS commit.
    NotInTable,
    /// Commit the carried relative delta, anchored at the recommended value.
    Commit(i32),
}

/// What planning a write yields: fail on an invalid snapshot, skip the commit
/// when the target is already current, clamp the target into
/// `[minimum, maximum]`, and otherwise commit the distance from the
/// recommended value's table position to the clamped target's.
pub open spec fn spec_plan(info: DpiScalingInfo, target: u32) -> DpiWritePlan {
    if !info.valid {
        DpiWritePlan::Invalid
    } else if target == info.current {
        DpiWritePlan::AlreadySet
    } else {
        let clamped = clamp_int(target as int, info.minimum as int, info.maximum as int) as u32;
        if dpi_table().contains(clamped) && dpi_table().contains(info.recommended) {
            DpiWritePlan::Commit(
                (dpi_table().index_of(clamped) - dpi_table().index_of(info.recommended)) as i32,
            )
        } else {
            DpiWritePlan::NotInTable
        }
    }
}

/// Plans the OS commit for changing a display's DPI percentage to `target`,
/// given the display's current snapshot.
pub fn plan_dpi_write(info: &DpiScalingInfo, target: u32) -> (plan: DpiWritePlan)
    ensures
        plan == spec_plan(*info, target),
{
    if !info.valid {
        return DpiWritePlan::Invalid;
    }
    if target == info.current {
        return DpiWritePlan::AlreadySet;
    }

    let mut clamped: u32 = target;
    if clamped < info.minimum {
        clamped = info.minimum;
    } else if clamped > info.maximum {
        clamped = info.maximum;
    }

    let table = dpi_values();
    let idx_to_set = find_table_index(&table, clamped);
    let idx_recommended = find_table_index(&table, info.recommended);
    match (idx_to_set, idx_recommended) {
        (Some(a), Some(b)) => DpiWritePlan::Commit(a as i32 - b as i32),
        _ => DpiWritePlan::NotInTable,
    }
}

/// Whether `v` is one of the legal table percentages.
pub fn is_table_value(v: u32) -> (r: bool)
    ensures
        r <==> dpi_table().contains(v),
{
    let table = dpi_values();
    match find_table_index(&table, v) {
        Some(_) => true,
        None => false,
    }
}

/// A relative range whose recommended point lies inside it and whose top
/// index stays inside the table resolves successfully: the snapshot is valid,
/// its percentages are ordered, and the recommended value sits `|min_rel|`
/// slots above the table start.
pub proof fn lemma_resolve_valid_range(min_rel: int, cur_rel: int, max_rel: int)
    requires
        min_rel <= max_rel,
        0 <= max_rel,
        min_abs_of(min_rel) + max_rel < dpi_table().len(),
        min_abs_of(min_rel) + min_rel >= 0,
    ensures
        spec_resolve(min_rel, cur_rel, max_rel).valid,
        spec_resolve(min_rel, cur_rel, max_rel).minimum
            <= spec_resolve(min_rel, cur_rel, max_rel).current,
        spec_resolve(min_rel, cur_rel, max_rel).current
            <= spec_resolve(min_rel, cur_rel, max_rel).maximum,
        spec_resolve(min_rel, cur_rel, max_rel).recommended
            == dpi_table()[min_abs_of(min_rel)],
{
    lemma_table_strictly_ascending();
    assert(indices_ok(min_rel, cur_rel, max_rel));
    let ci = cur_index_of(min_rel, cur_rel, max_rel);
    let mi = max_index_of(min_rel, max_rel);
    assert(ci <= mi);
    assert(dpi_table()[0] == 100);
    assert(dpi_table()[0] <= dpi_table()[ci]);
    assert(dpi_table()[ci] <= dpi_table()[mi]);
}

/// A relative range that drives any of the three derived indices outside the
/// table resolves to the defaulted, invalid snapshot.
pub proof fn lemma_resolve_out_of_range_defaults(min_rel: int, cur_rel: int, max_rel: int)
    requires
        !indices_ok(min_rel, cur_rel, max_rel),
    ensures
        spec_resolve(min_rel, cur_rel, max_rel) == invalid_info(),
{
}

/// Writing the percentage that is already current plans no OS commit and
/// reports success.
pub proof fn lemma_write_current_is_noop(info: DpiScalingInfo, target: u32)
    requires
        info.valid,
        target == info.current,
    ensures
        spec_plan(info, target) == DpiWritePlan::AlreadySet,
{
}

/// Round trip: after a planned commit is honored by the OS — so that a fresh
/// read reports the committed delta as the current relative value over the
/// unchanged range — the re-resolved current percentage equals the written
/// target clamped into `[minimum, maximum]`. A planned no-op leaves the
/// current percentage equal to that clamp already.
pub proof fn lemma_write_read_round_trip(min_rel: int, cur_rel: int, max_rel: int, target: u32)
    requires
        min_rel <= 0,
        spec_resolve(min_rel, cur_rel, max_rel).valid,
    ensures
        spec_plan(spec_resolve(min_rel, cur_rel, max_rel), target) is AlreadySet
            ==> spec_resolve(min_rel, cur_rel, max_rel).current == clamp_int(
                target as int,
                spec_resolve(min_rel, cur_rel, max_rel).minimum as int,
                spec_resolve(min_rel, cur_rel, max_rel).maximum as int,
            ),
        spec_plan(spec_resolve(min_rel, cur_rel, max_rel), target) is Commit
            ==> spec_resolve(
                min_rel,
                spec_plan(spec_resolve(min_rel, cur_rel, max_rel), target)->Commit_0 as int,
                max_rel,
            ).current == clamp_int(
                target as int,
                spec_resolve(min_rel, cur_rel, max_rel).minimum as int,
                spec_resolve(min_rel, cur_rel, max_rel).maximum as int,
            ),
{
    lemma_table_strictly_ascending();
    let info = spec_resolve(min_rel, cur_rel, max_rel);
    let min_abs = min_abs_of(min_rel);
    let ri = rec_index_of(min_rel);
    let ci = cur_index_of(min_rel, cur_rel, max_rel);
    let mi = max_index_of(min_rel, max_rel);
    assert(indices_ok(min_rel, cur_rel, max_rel));
    assert(min_abs == -min_rel);
    assert(min_rel <= max_rel) by {
        assert(mi >= 0);
    }
    assert(ci <= mi);
    assert(dpi_table()[0] == 100);
    assert(info.minimum <= info.current && info.current <= info.maximum) by {
        assert(dpi_table()[0] <= dpi_table()[ci]);
        assert(dpi_table()[ci] <= dpi_table()[mi]);
    }
    let clamped = clamp_int(target as int, info.minimum as int, info.maximum as int) as u32;
    if spec_plan(info, target) is AlreadySet {
        assert(target == info.current);
    }
    if spec_plan(info, target) is Commit {
        assert(dpi_table().contains(clamped) && dpi_table().contains(info.recommended));
        let c = dpi_table().index_of(clamped);
        assert(0 <= c < dpi_table().len() && dpi_table()[c] == clamped);
        let w = dpi_table().index_of(info.recommended);
        assert(0 <= w < dpi_table().len() && dpi_table()[w] == info.recommended);
        assert(info.recommended == dpi_table()[ri]);
        assert(w == ri);
        // The clamped target cannot sit above the maximum's table position.
        assert(clamped <= dpi_table()[mi]);
        assert(c <= mi) by {
            if c > mi {
                assert(dpi_table()[mi] < dpi_table()[c]);
            }
        }
        let delta = c - ri;
        assert(spec_plan(info, target)->Commit_0 as int == delta);
        // A fresh read of the committed delta needs no clamping and lands on
        // the clamped target's table position.
        assert(min_rel <= delta <= max_rel);
        assert(clamp_int(delta, min_rel, max_rel) == delta);
        assert(cur_index_of(min_rel, delta, max_rel) == c);
        assert(indices_ok(min_rel, delta, max_rel));
        assert(spec_resolve(min_rel, delta, max_rel).current == clamped);
    }
}

/// Writing a percentage below the reported minimum plans exactly what writing
/// the minimum itself plans.
pub proof fn lemma_write_clamps_below_minimum(info: DpiScalingInfo, target: u32)
    requires
        info.valid,
        info.consistent(),
        target < info.minimum,
        info.current != info.minimum,
    ensures
        spec_plan(info, target) == spec_plan(info, info.minimum),
{
}

/// Writing a percentage above the reported maximum plans exactly what writing
/// the maximum itself plans.
pub proof fn lemma_write_clamps_above_maximum(info: DpiScalingInfo, target: u32)
    requires
        info.valid,
        info.consistent(),
        target > info.maximum,
        info.current != info.maximum,
    ensures
        spec_plan(info, target) == spec_plan(info, info.maximum),
{
}

} // verus!
