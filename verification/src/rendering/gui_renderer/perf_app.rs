//! The performance panel: timers are named `system.stage`; the panel shows one
//! table per system, systems by name, each system's stages from the slowest
//! mean down.
use vstd::prelude::*;

verus! {

/// `a` comes before `b` in the lexicographic order of their characters, the
/// order in which `str` compares.
pub open spec fn text_less(a: Seq<char>, b: Seq<char>) -> bool
    decreases a.len(),
{
    if a.len() == 0 {
        b.len() > 0
    } else if b.len() == 0 {
        false
    } else if a[0] != b[0] {
        a[0] < b[0]
    } else {
        text_less(a.drop_first(), b.drop_first())
    }
}

/// `text_less` is irreflexive.
pub proof fn lemma_text_less_irreflexive(a: Seq<char>)
    ensures
        !text_less(a, a),
    decreases a.len(),
{
    if a.len() > 0 {
        lemma_text_less_irreflexive(a.drop_first());
    }
}

/// Of two different texts, one comes before the other.
pub proof fn lemma_text_less_total(a: Seq<char>, b: Seq<char>)
    requires
        a != b,
    ensures
        text_less(a, b) || text_less(b, a),
    decreases a.len(),
{
    if a.len() > 0 && b.len() > 0 && a[0] == b[0] {
        if a.drop_first() == b.drop_first() {
            assert(a =~= seq![a[0]] + a.drop_first());
            assert(b =~= seq![b[0]] + b.drop_first());
        }
        lemma_text_less_total(a.drop_first(), b.drop_first());
    } else if a.len() == 0 && b.len() == 0 {
        assert(a =~= b);
    }
}

/// `text_less` is transitive.
pub proof fn lemma_text_less_transitive(a: Seq<char>, b: Seq<char>, c: Seq<char>)
    requires
        text_less(a, b),
        text_less(b, c),
    ensures
        text_less(a, c),
    decreases a.len(),
{
    if a.len() > 0 && b.len() > 0 && c.len() > 0 && a[0] == b[0] && b[0] == c[0] {
        lemma_text_less_transitive(a.drop_first(), b.drop_first(), c.drop_first());
    }
}

/// At the first position where two texts differ, the one with the smaller
/// character there comes first.
pub proof fn lemma_text_less_first_difference(a: Seq<char>, b: Seq<char>, k: int)
    requires
        0 <= k < a.len(),
        k < b.len(),
        a.take(k) == b.take(k),
        a[k] != b[k],
    ensures
        text_less(a, b) == (a[k] < b[k]),
    decreases k,
{
    if k > 0 {
        assert(a[0] == a.take(k)[0]);
        assert(b[0] == b.take(k)[0]);
        assert(a.drop_first().take(k - 1) =~= a.take(k).drop_first());
        assert(b.drop_first().take(k - 1) =~= b.take(k).drop_first());
        lemma_text_less_first_difference(a.drop_first(), b.drop_first(), k - 1);
    }
}

/// A text comes before every longer text that it begins.
pub proof fn lemma_text_less_proper_prefix(a: Seq<char>, b: Seq<char>)
    requires
        a.len() < b.len(),
        b.take(a.len() as int) == a,
    ensures
        text_less(a, b),
    decreases a.len(),
{
    if a.len() > 0 {
        assert(b[0] == b.take(a.len() as int)[0]);
        assert(b.drop_first().take(a.len() - 1) =~= a.drop_first());
        lemma_text_less_proper_prefix(a.drop_first(), b.drop_first());
    }
}

/// No text comes before a text that it begins with (itself included).
pub proof fn lemma_text_less_not_before_prefix(a: Seq<char>, b: Seq<char>)
    requires
        b.len() <= a.len(),
        a.take(b.len() as int) == b,
    ensures
        !text_less(a, b),
    decreases b.len(),
{
    if b.len() > 0 {
        assert(a[0] == a.take(b.len() as int)[0]);
        assert(a.drop_first().take(b.len() - 1) =~= b.drop_first());
        lemma_text_less_not_before_prefix(a.drop_first(), b.drop_first());
    }
}

/// Whether `a` comes before `b` in `str` order.
pub fn str_less(a: &str, b: &str) -> (r: bool)
    ensures
        r == text_less(a@, b@),
{
    let la = a.unicode_len();
    let lb = b.unicode_len();
    let mut i: usize = 0;
    assert(a@.skip(0) =~= a@);
    assert(b@.skip(0) =~= b@);
    while i < la && i < lb
        invariant
            la == a@.len(),
            lb == b@.len(),
            i <= la,
            i <= lb,
            a@.subrange(0, i as int) == b@.subrange(0, i as int),
            text_less(a@, b@) == text_less(a@.skip(i as int), b@.skip(i as int)),
        decreases la - i,
    {
        let ca = a.get_char(i);
        let cb = b.get_char(i);
        assert(a@.skip(i as int)[0] == ca);
        assert(b@.skip(i as int)[0] == cb);
        if ca != cb {
            return ca < cb;
        }
        assert(a@.skip(i as int).drop_first() =~= a@.skip(i + 1));
        assert(b@.skip(i as int).drop_first() =~= b@.skip(i + 1));
        assert(a@.subrange(0, i + 1) =~= a@.subrange(0, i as int).push(ca));
        assert(b@.subrange(0, i + 1) =~= b@.subrange(0, i as int).push(cb));
        i = i + 1;
    }
    assert(a@.skip(i as int).len() == la - i);
    la < lb
}

/// Index of the first `.` in `s` at or after `from`, or the length of `s`
/// when there is none.
pub open spec fn dot_from(s: Seq<char>, from: int) -> int
    decreases s.len() - from,
{
    if from < 0 || from >= s.len() {
        s.len() as int
    } else if s[from] == '.' {
        from
    } else {
        dot_from(s, from + 1)
    }
}

/// The system part of a timer name: what precedes its first `.`.
pub open spec fn system_of(name: Seq<char>) -> Seq<char> {
    name.subrange(0, dot_from(name, 0))
}

/// The stage part of a timer name: what lies between its first `.` and the
/// next one, or the end.
pub open spec fn stage_of(name: Seq<char>) -> Seq<char> {
    name.subrange(dot_from(name, 0) + 1, dot_from(name, dot_from(name, 0) + 1))
}

proof fn lemma_dot_from_bounds(s: Seq<char>, from: int)
    requires
        0 <= from <= s.len(),
    ensures
        from <= dot_from(s, from) <= s.len(),
        dot_from(s, from) < s.len() ==> s[dot_from(s, from)] == '.',
        forall|j: int| from <= j < dot_from(s, from) ==> s[j] != '.',
    decreases s.len() - from,
{
    if from < s.len() && s[from] != '.' {
        lemma_dot_from_bounds(s, from + 1);
    }
}

proof fn lemma_dot_found(s: Seq<char>)
    requires
        s.contains('.'),
    ensures
        dot_from(s, 0) < s.len(),
{
    lemma_dot_from_bounds(s, 0);
    let k = choose|k: int| 0 <= k < s.len() && s[k] == '.';
    if dot_from(s, 0) == s.len() {
        assert(s[k] != '.');
    }
}

/// Index of the first `.` of `s` at or after `from`, or its length.
fn find_dot(s: &str, from: usize) -> (d: usize)
    requires
        from <= s@.len(),
    ensures
        d == dot_from(s@, from as int),
{
    let len = s.unicode_len();
    let mut i = from;
    while i < len
        invariant
            len == s@.len(),
            from <= i <= len,
            dot_from(s@, from as int) == dot_from(s@, i as int),
        decreases len - i,
    {
        if s.get_char(i) == '.' {
            return i;
        }
        i = i + 1;
    }
    i
}

/// Splits a timer name `system.stage[.rest]` into its system and stage.
pub fn split_name(name: &str) -> (r: (String, String))
    requires
        name@.contains('.'),
    ensures
        r.0@ == system_of(name@),
        r.1@ == stage_of(name@),
{
    proof {
        lemma_dot_found(name@);
    }
    let len = name.unicode_len();
    let d1 = find_dot(name, 0);
    assert(d1 < len);
    proof {
        lemma_dot_from_bounds(name@, d1 + 1);
    }
    let d2 = find_dot(name, d1 + 1);
    let system = String::from_str(name.substring_char(0, d1));
    let stage = String::from_str(name.substring_char(d1 + 1, d2));
    (system, stage)
}

/// One stage of a system: its name and the index of its timer in the list of
/// timers that was grouped.
pub struct StageTimer {
    pub stage: String,
    pub entry: usize,
}

/// The stages of one system.
pub struct SystemTimers {
    pub system: String,
    pub stages: Vec<StageTimer>,
}

/// The mean recorded by the timer of a stage.
pub open spec fn mean_of(entries: Seq<(String, u64)>, st: StageTimer) -> u64 {
    entries[st.entry as int].1
}

/// Systems are in strictly increasing name order.
pub open spec fn systems_sorted(out: Seq<SystemTimers>) -> bool {
    forall|g1: int, g2: int|
        0 <= g1 < g2 < out.len() ==> text_less(#[trigger] out[g1].system@, #[trigger] out[g2].system@)
}

/// Stages are in non-increasing order of their mean.
pub open spec fn stages_sorted(entries: Seq<(String, u64)>, stages: Seq<StageTimer>) -> bool {
    forall|k1: int, k2: int|
        0 <= k1 < k2 < stages.len() ==> mean_of(entries, #[trigger] stages[k1]) >= mean_of(
            entries,
            #[trigger] stages[k2],
        )
}

/// No timer is listed twice among `stages`.
pub open spec fn distinct_entries(stages: Seq<StageTimer>) -> bool {
    forall|k1: int, k2: int|
        0 <= k1 < stages.len() && 0 <= k2 < stages.len() && k1 != k2 ==> (#[trigger] stages[k1]).entry
            != (#[trigger] stages[k2]).entry
}

/// Stage `st` belongs to system `system`: its timer, one of the first `upto`,
/// is named `system.stage`.
pub open spec fn stage_fits(entries: Seq<(String, u64)>, system: Seq<char>, st: StageTimer, upto: int) -> bool {
    &&& st.entry < upto
    &&& system_of(entries[st.entry as int].0@) == system
    &&& st.stage@ == stage_of(entries[st.entry as int].0@)
}

/// A system's table is well built from the first `upto` timers.
pub open spec fn group_ok(entries: Seq<(String, u64)>, grp: SystemTimers, upto: int) -> bool {
    &&& grp.stages@.len() > 0
    &&& stages_sorted(entries, grp.stages@)
    &&& distinct_entries(grp.stages@)
    &&& forall|k: int|
        0 <= k < grp.stages@.len() ==> stage_fits(entries, grp.system@, #[trigger] grp.stages@[k], upto)
}

/// System `g` of `out` lists timer `e`.
pub open spec fn lists(out: Seq<SystemTimers>, g: int, e: int) -> bool {
    &&& 0 <= g < out.len()
    &&& exists|k: int| 0 <= k < out[g].stages@.len() && (#[trigger] out[g].stages@[k]).entry == e
}

/// `out` groups the first `upto` timers of `entries` by system: systems by
/// name, each system's stages by decreasing mean, each timer listed once,
/// under its own system.
pub open spec fn grouped(entries: Seq<(String, u64)>, out: Seq<SystemTimers>, upto: int) -> bool {
    &&& systems_sorted(out)
    &&& forall|g: int| 0 <= g < out.len() ==> group_ok(entries, #[trigger] out[g], upto)
    &&& forall|e: int| 0 <= e < upto ==> #[trigger] listed(out, e)
}

/// Some system of `out` lists timer `e`.
pub open spec fn listed(out: Seq<SystemTimers>, e: int) -> bool {
    exists|g: int| #[trigger] lists(out, g, e)
}

/// Position of the system `sys` among the sorted systems: every earlier
/// system comes before it, and the system there, if any, is `sys` (`true`) or
/// comes after it (`false`).
fn find_system(out: &Vec<SystemTimers>, sys: &String) -> (r: (usize, bool))
    requires
        systems_sorted(out@),
    ensures
        r.0 <= out@.len(),
        forall|j: int| 0 <= j < r.0 ==> text_less(#[trigger] out@[j].system@, sys@),
        r.1 ==> r.0 < out@.len() && out@[r.0 as int].system@ == sys@,
        !r.1 && r.0 < out@.len() ==> text_less(sys@, out@[r.0 as int].system@),
{
    let mut h: usize = 0;
    while h < out.len()
        invariant
            h <= out@.len(),
            forall|j: int| 0 <= j < h ==> text_less(#[trigger] out@[j].system@, sys@),
        decreases out@.len() - h,
    {
        if out[h].system == *sys {
            return (h, true);
        }
        if !str_less(out[h].system.as_str(), sys.as_str()) {
            proof {
                lemma_text_less_total(out@[h as int].system@, sys@);
            }
            return (h, false);
        }
        h = h + 1;
    }
    (h, false)
}

/// Position at which a stage whose mean is `mean` goes among stages sorted by
/// decreasing mean: after every stage whose mean is at least `mean`.
fn stage_slot(entries: &Vec<(String, u64)>, stages: &Vec<StageTimer>, mean: u64) -> (q: usize)
    requires
        forall|k: int| 0 <= k < stages@.len() ==> (#[trigger] stages@[k]).entry < entries@.len(),
        stages_sorted(entries@, stages@),
    ensures
        q <= stages@.len(),
        forall|k: int| 0 <= k < q ==> mean_of(entries@, #[trigger] stages@[k]) >= mean,
        forall|k: int| q <= k < stages@.len() ==> mean_of(entries@, #[trigger] stages@[k]) < mean,
{
    let mut q: usize = 0;
    while q < stages.len()
        invariant
            q <= stages@.len(),
            forall|k: int| 0 <= k < stages@.len() ==> (#[trigger] stages@[k]).entry < entries@.len(),
            forall|k: int| 0 <= k < q ==> mean_of(entries@, #[trigger] stages@[k]) >= mean,
            stages_sorted(entries@, stages@),
        decreases stages@.len() - q,
    {
        if entries[stages[q].entry].1 < mean {
            assert forall|k: int| q <= k < stages@.len() implies mean_of(entries@, #[trigger] stages@[k])
                < mean by {
                if k > q {
                    assert(mean_of(entries@, stages@[q as int]) >= mean_of(entries@, stages@[k]));
                }
            }
            return q;
        }
        q = q + 1;
    }
    q
}

proof fn lemma_group_ok_grows(entries: Seq<(String, u64)>, grp: SystemTimers, upto: int)
    requires
        group_ok(entries, grp, upto),
    ensures
        group_ok(entries, grp, upto + 1),
{
    assert forall|k: int| 0 <= k < grp.stages@.len() implies stage_fits(
        entries,
        grp.system@,
        #[trigger] grp.stages@[k],
        upto + 1,
    ) by {
        assert(stage_fits(entries, grp.system@, grp.stages@[k], upto));
    }
}

/// Adding timer `i` as stage `st` at position `q` of the existing system `h`
/// keeps the grouping well built.
proof fn lemma_add_stage(
    entries: Seq<(String, u64)>,
    out: Seq<SystemTimers>,
    h: int,
    q: int,
    st: StageTimer,
    ng: SystemTimers,
    i: int,
)
    requires
        grouped(entries, out, i),
        0 <= h < out.len(),
        0 <= i < entries.len(),
        st.entry == i,
        stage_fits(entries, out[h].system@, st, i + 1),
        ng.system@ == out[h].system@,
        0 <= q <= out[h].stages@.len(),
        ng.stages@ == out[h].stages@.insert(q, st),
        forall|k: int| 0 <= k < q ==> mean_of(entries, #[trigger] out[h].stages@[k]) >= mean_of(entries, st),
        forall|k: int|
            q <= k < out[h].stages@.len() ==> mean_of(entries, #[trigger] out[h].stages@[k]) < mean_of(
                entries,
                st,
            ),
    ensures
        grouped(entries, out.update(h, ng), i + 1),
{
    let out2 = out.update(h, ng);
    let old_st = out[h].stages@;
    let new_st = ng.stages@;
    old_st.insert_ensures(q, st);
    assert(group_ok(entries, out[h], i));
    assert forall|g1: int, g2: int| 0 <= g1 < g2 < out2.len() implies text_less(
        #[trigger] out2[g1].system@,
        #[trigger] out2[g2].system@,
    ) by {
        assert(text_less(out[g1].system@, out[g2].system@));
    }
    assert(stages_sorted(entries, new_st)) by {
        assert forall|k1: int, k2: int| 0 <= k1 < k2 < new_st.len() implies mean_of(
            entries,
            #[trigger] new_st[k1],
        ) >= mean_of(entries, #[trigger] new_st[k2]) by {
            if k2 < q {
                assert(mean_of(entries, old_st[k1]) >= mean_of(entries, old_st[k2]));
            } else if k2 == q {
                assert(mean_of(entries, old_st[k1]) >= mean_of(entries, st));
            } else if k1 < q {
                assert(new_st[k2] == old_st[k2 - 1]);
                assert(mean_of(entries, old_st[k1]) >= mean_of(entries, old_st[k2 - 1]));
            } else if k1 == q {
                assert(new_st[k2] == old_st[k2 - 1]);
                assert(mean_of(entries, old_st[k2 - 1]) < mean_of(entries, st));
            } else {
                assert(new_st[k1] == old_st[k1 - 1]);
                assert(new_st[k2] == old_st[k2 - 1]);
                assert(mean_of(entries, old_st[k1 - 1]) >= mean_of(entries, old_st[k2 - 1]));
            }
        }
    }
    assert forall|k: int| 0 <= k < new_st.len() implies stage_fits(
        entries,
        ng.system@,
        #[trigger] new_st[k],
        i + 1,
    ) && (k != q ==> new_st[k].entry < i) by {
        if k < q {
            assert(stage_fits(entries, out[h].system@, old_st[k], i));
        } else if k > q {
            assert(new_st[k] == old_st[k - 1]);
            assert(stage_fits(entries, out[h].system@, old_st[k - 1], i));
        }
    }
    assert(distinct_entries(new_st)) by {
        assert forall|k1: int, k2: int|
            0 <= k1 < new_st.len() && 0 <= k2 < new_st.len() && k1 != k2 implies (
            #[trigger] new_st[k1]).entry != (#[trigger] new_st[k2]).entry by {
            if k1 != q && k2 != q {
                let o1 = if k1 < q { k1 } else { k1 - 1 };
                let o2 = if k2 < q { k2 } else { k2 - 1 };
                assert(new_st[k1] == old_st[o1]);
                assert(new_st[k2] == old_st[o2]);
                assert(old_st[o1].entry != old_st[o2].entry);
            } else if k1 == q {
                assert(stage_fits(entries, ng.system@, new_st[k2], i + 1) && new_st[k2].entry < i);
            } else {
                assert(stage_fits(entries, ng.system@, new_st[k1], i + 1) && new_st[k1].entry < i);
            }
        }
    }
    assert(group_ok(entries, ng, i + 1));
    assert forall|g: int| 0 <= g < out2.len() implies group_ok(entries, #[trigger] out2[g], i + 1) by {
        if g != h {
            assert(group_ok(entries, out[g], i));
            lemma_group_ok_grows(entries, out[g], i);
        }
    }
    assert forall|e: int| 0 <= e < i + 1 implies #[trigger] listed(out2, e) by {
        if e == i {
            assert(out2[h] == ng);
            assert(out2[h].stages@[q].entry == e);
            assert(lists(out2, h, e));
        } else {
            assert(listed(out, e));
            let g0 = choose|g: int| #[trigger] lists(out, g, e);
            let k0 = choose|k: int| 0 <= k < out[g0].stages@.len() && (#[trigger] out[g0].stages@[k]).entry == e;
            if g0 == h {
                let k1 = if k0 < q { k0 } else { k0 + 1 };
                assert(out2[g0].stages@[k1].entry == e);
                assert(lists(out2, g0, e));
            } else {
                assert(out2[g0].stages@[k0].entry == e);
                assert(lists(out2, g0, e));
            }
        }
    }
}

proof fn lemma_insert_system_sorted(out: Seq<SystemTimers>, h: int, ng: SystemTimers)
    requires
        systems_sorted(out),
        0 <= h <= out.len(),
        forall|j: int| 0 <= j < h ==> text_less(#[trigger] out[j].system@, ng.system@),
        h < out.len() ==> text_less(ng.system@, out[h].system@),
    ensures
        systems_sorted(out.insert(h, ng)),
{
    let out2 = out.insert(h, ng);
    out.insert_ensures(h, ng);
    assert forall|g1: int, g2: int| 0 <= g1 < g2 < out2.len() implies text_less(
        #[trigger] out2[g1].system@,
        #[trigger] out2[g2].system@,
    ) by {
        if g2 < h {
            assert(text_less(out[g1].system@, out[g2].system@));
        } else if g2 == h {
        } else {
            assert(out2[g2] == out[g2 - 1]);
            if g2 - 1 > h {
                assert(text_less(out[h].system@, out[g2 - 1].system@));
                lemma_text_less_transitive(ng.system@, out[h].system@, out[g2 - 1].system@);
            }
            if g1 < h {
                lemma_text_less_transitive(out[g1].system@, ng.system@, out[g2 - 1].system@);
            } else if g1 > h {
                assert(out2[g1] == out[g1 - 1]);
                assert(text_less(out[g1 - 1].system@, out[g2 - 1].system@));
            }
        }
    }
}

proof fn lemma_insert_system_groups(entries: Seq<(String, u64)>, out: Seq<SystemTimers>, h: int, ng: SystemTimers, i: int)
    requires
        forall|g: int| 0 <= g < out.len() ==> group_ok(entries, #[trigger] out[g], i),
        0 <= h <= out.len(),
        group_ok(entries, ng, i + 1),
    ensures
        forall|g: int| 0 <= g < out.insert(h, ng).len() ==> group_ok(entries, #[trigger] out.insert(h, ng)[g], i + 1),
{
    let out2 = out.insert(h, ng);
    out.insert_ensures(h, ng);
    assert forall|g: int| 0 <= g < out2.len() implies group_ok(entries, #[trigger] out2[g], i + 1) by {
        if g < h {
            lemma_group_ok_grows(entries, out[g], i);
        } else if g > h {
            assert(out2[g] == out[g - 1]);
            lemma_group_ok_grows(entries, out[g - 1], i);
        }
    }
}

proof fn lemma_insert_system_listed(out: Seq<SystemTimers>, h: int, ng: SystemTimers, i: int)
    requires
        forall|e: int| 0 <= e < i ==> #[trigger] listed(out, e),
        0 <= h <= out.len(),
        ng.stages@.len() == 1,
        ng.stages@[0].entry == i,
    ensures
        forall|e: int| 0 <= e < i + 1 ==> #[trigger] listed(out.insert(h, ng), e),
{
    let out2 = out.insert(h, ng);
    out.insert_ensures(h, ng);
    assert forall|e: int| 0 <= e < i + 1 implies #[trigger] listed(out2, e) by {
        if e == i {
            assert(out2[h].stages@[0].entry == e);
            assert(lists(out2, h, e));
        } else {
            assert(listed(out, e));
            let g0 = choose|g: int| #[trigger] lists(out, g, e);
            let k0 = choose|k: int| 0 <= k < out[g0].stages@.len() && (#[trigger] out[g0].stages@[k]).entry == e;
            let g1 = if g0 < h { g0 } else { g0 + 1 };
            assert(out2[g1] == out[g0]);
            assert(out2[g1].stages@[k0].entry == e);
            assert(lists(out2, g1, e));
        }
    }
}

/// Adding timer `i` as the only stage of a new system placed at `h`, between
/// the systems whose names come before its name and those whose names come
/// after, keeps the grouping well built.
proof fn lemma_add_system(entries: Seq<(String, u64)>, out: Seq<SystemTimers>, h: int, ng: SystemTimers, i: int)
    requires
        grouped(entries, out, i),
        0 <= h <= out.len(),
        0 <= i < entries.len(),
        forall|j: int| 0 <= j < h ==> text_less(#[trigger] out[j].system@, ng.system@),
        h < out.len() ==> text_less(ng.system@, out[h].system@),
        ng.stages@.len() == 1,
        ng.stages@[0].entry == i,
        stage_fits(entries, ng.system@, ng.stages@[0], i + 1),
    ensures
        grouped(entries, out.insert(h, ng), i + 1),
{
    lemma_insert_system_sorted(out, h, ng);
    assert(group_ok(entries, ng, i + 1));
    lemma_insert_system_groups(entries, out, h, ng, i);
    lemma_insert_system_listed(out, h, ng, i);
}

/// Groups timers named `system.stage` by system, for the performance panel:
/// one table per system in order of system name, each listing its stages in
/// order of decreasing mean, with every timer listed once. Each entry is a
/// timer's name and its mean.
pub fn group_timers(entries: &Vec<(String, u64)>) -> (out: Vec<SystemTimers>)
    requires
        forall|i: int| 0 <= i < entries@.len() ==> (#[trigger] entries@[i]).0@.contains('.'),
    ensures
        grouped(entries@, out@, entries@.len() as int),
{
    let mut out: Vec<SystemTimers> = Vec::new();
    let n = entries.len();
    let mut i: usize = 0;
    while i < n
        invariant
            n == entries@.len(),
            i <= n,
            forall|i: int| 0 <= i < entries@.len() ==> (#[trigger] entries@[i]).0@.contains('.'),
            grouped(entries@, out@, i as int),
        decreases n - i,
    {
        let (sys, stage) = split_name(entries[i].0.as_str());
        let mean = entries[i].1;
        let st = StageTimer { stage, entry: i };
        assert(stage_fits(entries@, sys@, st, i + 1));
        let (h, found) = find_system(&out, &sys);
        if found {
            assert(group_ok(entries@, out@[h as int], i as int));
            assert forall|k: int| 0 <= k < out@[h as int].stages@.len() implies (
            #[trigger] out@[h as int].stages@[k]).entry < entries@.len() by {
                assert(stage_fits(entries@, out@[h as int].system@, out@[h as int].stages@[k], i as int));
            }
            let q = stage_slot(entries, &out[h].stages, mean);
            let ghost old_out = out@;
            out[h].stages.insert(q, st);
            proof {
                lemma_add_stage(entries@, old_out, h as int, q as int, st, out@[h as int], i as int);
                assert(out@ == old_out.update(h as int, out@[h as int]));
            }
        } else {
            let mut stages: Vec<StageTimer> = Vec::new();
            stages.push(st);
            let ng = SystemTimers { system: sys, stages };
            let ghost old_out = out@;
            out.insert(h, ng);
            proof {
                lemma_add_system(entries@, old_out, h as int, ng, i as int);
            }
        }
        i = i + 1;
    }
    out
}

/// In a grouping, no timer is listed twice: two listed stages with the same
/// timer are the same stage of the same system.
pub proof fn lemma_listed_once(entries: Seq<(String, u64)>, out: Seq<SystemTimers>, n: int, g1: int, k1: int, g2: int, k2: int)
    requires
        grouped(entries, out, n),
        0 <= g1 < out.len(),
        0 <= g2 < out.len(),
        0 <= k1 < out[g1].stages@.len(),
        0 <= k2 < out[g2].stages@.len(),
        out[g1].stages@[k1].entry == out[g2].stages@[k2].entry,
    ensures
        g1 == g2,
        k1 == k2,
{
    assert(group_ok(entries, out[g1], n));
    assert(group_ok(entries, out[g2], n));
    assert(stage_fits(entries, out[g1].system@, out[g1].stages@[k1], n));
    assert(stage_fits(entries, out[g2].system@, out[g2].stages@[k2], n));
    lemma_text_less_irreflexive(out[g1].system@);
    if g1 < g2 {
        assert(text_less(out[g1].system@, out[g2].system@));
    } else if g2 < g1 {
        assert(text_less(out[g2].system@, out[g1].system@));
    }
}

/// The performance panel.
pub struct PerfApp;

impl PerfApp {
    /// Whether the timers are reset at simulation tick `tick`: only at the
    /// hundredth, so that start-up does not weigh on the statistics.
    pub fn should_reset(tick: u128) -> (r: bool)
        ensures
            r == (tick == 100),
    {
        tick == 100
    }
}

} // verus!
