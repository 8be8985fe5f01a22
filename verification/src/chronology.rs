//! Queues of time-stamped entries kept in chronological order.

use std::collections::VecDeque;
use vstd::prelude::*;

verus! {

/// Something that happened at a known instant.
pub trait Stamped {
    /// The instant, in clock ticks.
    spec fn stamp(&self) -> u64;

    /// Returns the instant, in clock ticks.
    fn timestamp(&self) -> (t: u64)
        ensures
            t == self.stamp(),
    ;
}

/// No entry is followed by an older one.
pub open spec fn chronological<E: Stamped>(s: Seq<E>) -> bool {
    forall|i: int, j: int| 0 <= i <= j < s.len() ==> s[i].stamp() <= s[j].stamp()
}

/// Every entry is followed by later ones only.
pub open spec fn strictly_chronological<E: Stamped>(s: Seq<E>) -> bool {
    forall|i: int, j: int| 0 <= i < j < s.len() ==> s[i].stamp() < s[j].stamp()
}

/// An entry stamped `t` keeps `s` chronological when it is inserted at `pos`.
pub open spec fn fits<E: Stamped>(s: Seq<E>, pos: int, t: u64) -> bool {
    &&& 0 <= pos <= s.len()
    &&& forall|i: int| 0 <= i < pos ==> s[i].stamp() <= t
    &&& forall|i: int| pos <= i < s.len() ==> t <= s[i].stamp()
}

/// Where some entry of `s` is stamped `t`, the one at `pos` is.
pub open spec fn precedes_equal<E: Stamped>(s: Seq<E>, pos: int, t: u64) -> bool {
    (exists|i: int| 0 <= i < s.len() && #[trigger] s[i].stamp() == t) ==> {
        &&& 0 <= pos < s.len()
        &&& s[pos].stamp() == t
    }
}

/// `pos` is the place in `s` of an entry stamped `t`, as [`inserted`] has it.
pub open spec fn is_place<E: Stamped>(s: Seq<E>, pos: int, t: u64) -> bool {
    &&& fits(s, pos, t)
    &&& if s.len() == 0 || s.last().stamp() <= t {
        pos == s.len()
    } else {
        precedes_equal(s, pos, t)
    }
}

/// `r` is `s` with `entry` at a place that keeps it chronological. An entry that is not
/// older than the newest goes to the end. A late entry goes right before one that shares its
/// stamp, where there is any.
pub open spec fn inserted<E: Stamped>(s: Seq<E>, entry: E, r: Seq<E>) -> bool {
    if s.len() == 0 || s.last().stamp() <= entry.stamp() {
        r == s.push(entry)
    } else {
        exists|pos: int| #[trigger]
            fits(s, pos, entry.stamp()) && precedes_equal(s, pos, entry.stamp()) && r == s.insert(
                pos,
                entry,
            )
    }
}

/// The last `limit` entries of `s`, or all of them where there are no more.
pub open spec fn newest<E>(s: Seq<E>, limit: nat) -> Seq<E> {
    if s.len() > limit {
        s.subrange(s.len() - limit, s.len() as int)
    } else {
        s
    }
}

/// Looks for an entry stamped `t`: `Ok` with the index of one, or `Err` with the only
/// place at which such an entry would fit.
pub fn search<E: Stamped>(entries: &VecDeque<E>, t: u64) -> (r: Result<usize, usize>)
    requires
        chronological(entries@),
    ensures
        match r {
            Ok(i) => i < entries@.len() && entries@[i as int].stamp() == t,
            Err(i) => {
                &&& i <= entries@.len()
                &&& forall|j: int| 0 <= j < i ==> entries@[j].stamp() < t
                &&& forall|j: int| i <= j < entries@.len() ==> t < entries@[j].stamp()
            },
        },
{
    let mut low: usize = 0;
    let mut high: usize = entries.len();
    while low < high
        invariant
            low <= high <= entries@.len(),
            chronological(entries@),
            forall|j: int| 0 <= j < low ==> entries@[j].stamp() < t,
            forall|j: int| high <= j < entries@.len() ==> t < entries@[j].stamp(),
        decreases high - low,
    {
        let mid: usize = low + (high - low) / 2;
        let found: u64 = entries[mid].timestamp();
        if found == t {
            return Ok(mid);
        }
        if found < t {
            low = mid + 1;
        } else {
            high = mid;
        }
    }
    Err(low)
}

/// Inserts `entry` at its chronological place.
pub fn insert<E: Stamped>(entries: &mut VecDeque<E>, entry: E)
    requires
        chronological(old(entries)@),
    ensures
        inserted(old(entries)@, entry, final(entries)@),
        chronological(final(entries)@),
{
    let t: u64 = entry.timestamp();
    let n: usize = entries.len();
    if n == 0 || entries[n - 1].timestamp() <= t {
        entries.push_back(entry);
    } else {
        let pos: usize = match search(entries, t) {
            Ok(i) => i,
            Err(i) => i,
        };
        assert(fits(entries@, pos as int, t));
        entries.insert(pos, entry);
    }
}

/// Drops the oldest entries until at most `limit` are left.
pub fn evict<E>(entries: &mut VecDeque<E>, limit: usize)
    ensures
        final(entries)@ == newest(old(entries)@, limit as nat),
{
    while entries.len() > limit
        invariant
            newest(entries@, limit as nat) == newest(old(entries)@, limit as nat),
        decreases entries@.len(),
    {
        let ghost before = entries@;
        entries.pop_front();
        assert(newest(entries@, limit as nat) =~= newest(before, limit as nat));
    }
}

/// Entries that were dropped before an arrival would have been dropped after it too.
pub proof fn newest_of_push<E>(s: Seq<E>, entry: E, limit: nat)
    ensures
        newest(newest(s, limit).push(entry), limit) == newest(s.push(entry), limit),
{
    assert(newest(newest(s, limit).push(entry), limit) =~= newest(s.push(entry), limit));
}

/// The newest entries of a sequence are those of any end of it that is long enough.
pub proof fn newest_of_suffix<E>(s: Seq<E>, dropped: int, limit: nat)
    requires
        0 <= dropped <= s.len(),
        dropped == 0 || s.len() - dropped >= limit,
    ensures
        newest(s.skip(dropped), limit) == newest(s, limit),
{
    assert(newest(s.skip(dropped), limit) =~= newest(s, limit));
}

/// Dropping the oldest entries keeps the order.
pub proof fn newest_stays_chronological<E: Stamped>(s: Seq<E>, limit: nat)
    requires
        chronological(s),
    ensures
        chronological(newest(s, limit)),
        newest(s, limit).len() <= limit,
{
}

/// The place at which `entry` stands in `r`, as [`inserted`] puts it.
pub proof fn place_of<E: Stamped>(s: Seq<E>, entry: E, r: Seq<E>) -> (pos: int)
    requires
        chronological(s),
        inserted(s, entry, r),
    ensures
        is_place(s, pos, entry.stamp()),
        r == s.insert(pos, entry),
{
    if s.len() == 0 || s.last().stamp() <= entry.stamp() {
        assert forall|i: int| 0 <= i < s.len() implies s[i].stamp() <= entry.stamp() by {
            assert(s[i].stamp() <= s[s.len() - 1].stamp());
        }
        assert(s.insert(s.len() as int, entry) =~= s.push(entry));
        s.len() as int
    } else {
        choose|pos: int| #[trigger]
            fits(s, pos, entry.stamp()) && precedes_equal(s, pos, entry.stamp()) && r == s.insert(
                pos,
                entry,
            )
    }
}

/// Two sequences with the same entries, each in strict order of time, are equal.
pub proof fn strict_order_is_unique<E: Stamped>(a: Seq<E>, b: Seq<E>)
    requires
        strictly_chronological(a),
        strictly_chronological(b),
        forall|e: E| #[trigger] a.contains(e) <==> b.contains(e),
    ensures
        a == b,
    decreases a.len(),
{
    if a.len() == 0 {
        if b.len() > 0 {
            assert(b.contains(b[0]));
            assert(a.contains(b[0]));
        }
        assert(a =~= b);
    } else {
        assert(a.contains(a.last()));
        assert(b.contains(a.last()));
        assert(b.contains(b.last()));
        assert(a.contains(b.last()));
        let p = choose|p: int| 0 <= p < b.len() && b[p] == a.last();
        let q = choose|q: int| 0 <= q < a.len() && a[q] == b.last();
        assert(a.last() == b.last()) by {
            if p < b.len() - 1 && q < a.len() - 1 {
                assert(b[p].stamp() < b[b.len() - 1].stamp());
                assert(a[q].stamp() < a[a.len() - 1].stamp());
            }
        }
        let x = a.drop_last();
        let y = b.drop_last();
        assert forall|e: E| #[trigger] x.contains(e) <==> y.contains(e) by {
            if x.contains(e) {
                let i = choose|i: int| 0 <= i < x.len() && x[i] == e;
                assert(a[i].stamp() < a[a.len() - 1].stamp());
                assert(a.contains(e));
                let j = choose|j: int| 0 <= j < b.len() && b[j] == e;
                assert(y[j] == e);
            }
            if y.contains(e) {
                let i = choose|i: int| 0 <= i < y.len() && y[i] == e;
                assert(b[i].stamp() < b[b.len() - 1].stamp());
                assert(b.contains(e));
                assert(a.contains(e));
                let j = choose|j: int| 0 <= j < a.len() && a[j] == e;
                assert(x[j] == e);
            }
        }
        strict_order_is_unique(x, y);
        assert(a =~= x.push(a.last()));
        assert(b =~= y.push(b.last()));
    }
}

/// Inserting an entry of a new instant keeps the instants distinct and adds that entry
/// alone.
pub proof fn inserting_adds_one<E: Stamped>(s: Seq<E>, entry: E, r: Seq<E>)
    requires
        strictly_chronological(s),
        forall|i: int| 0 <= i < s.len() ==> #[trigger] s[i].stamp() != entry.stamp(),
        inserted(s, entry, r),
    ensures
        r.len() == s.len() + 1,
        strictly_chronological(r),
        forall|e: E| #[trigger] r.contains(e) <==> s.contains(e) || e == entry,
{
    assert(chronological(s)) by {
        assert forall|i: int, j: int| 0 <= i <= j < s.len() implies s[i].stamp()
            <= s[j].stamp() by {
            if i < j {
                assert(s[i].stamp() < s[j].stamp());
            }
        }
    }
    let pos = place_of(s, entry, r);
    assert forall|i: int| 0 <= i < pos implies s[i].stamp() < entry.stamp() by {
        assert(s[i].stamp() <= entry.stamp());
    }
    assert forall|i: int| pos <= i < s.len() implies entry.stamp() < s[i].stamp() by {
        assert(entry.stamp() <= s[i].stamp());
    }
    assert forall|e: E| #[trigger] r.contains(e) <==> s.contains(e) || e == entry by {
        if r.contains(e) {
            let i = choose|i: int| 0 <= i < r.len() && r[i] == e;
            if i < pos {
                assert(s[i] == e);
            } else if i > pos {
                assert(s[i - 1] == e);
            }
        }
        if s.contains(e) {
            let i = choose|i: int| 0 <= i < s.len() && s[i] == e;
            if i < pos {
                assert(r[i] == e);
            } else {
                assert(r[i + 1] == e);
            }
        }
        assert(r[pos] == entry);
    }
}

/// There is a place for every entry in a chronological sequence.
proof fn some_place_fits<E: Stamped>(s: Seq<E>, t: u64) -> (pos: int)
    requires
        chronological(s),
    ensures
        fits(s, pos, t),
    decreases s.len(),
{
    if s.len() == 0 || s.last().stamp() <= t {
        assert forall|i: int| 0 <= i < s.len() implies s[i].stamp() <= t by {
            assert(s[i].stamp() <= s[s.len() - 1].stamp());
        }
        s.len() as int
    } else {
        let front = s.drop_last();
        assert(chronological(front));
        let pos = some_place_fits(front, t);
        assert forall|i: int| 0 <= i < pos implies s[i].stamp() <= t by {
            assert(front[i].stamp() <= t);
        }
        assert forall|i: int| pos <= i < s.len() implies t <= s[i].stamp() by {
            if i < front.len() {
                assert(t <= front[i].stamp());
            }
        }
        pos
    }
}

/// An entry of a new instant has one place only.
proof fn one_place_fits<E: Stamped>(s: Seq<E>, t: u64, a: int, b: int)
    requires
        forall|i: int| 0 <= i < s.len() ==> #[trigger] s[i].stamp() != t,
        fits(s, a, t),
        fits(s, b, t),
    ensures
        a == b,
{
    if a < b {
        assert(s[a].stamp() != t);
    } else if b < a {
        assert(s[b].stamp() != t);
    }
}

/// Dropping the oldest entries before an insertion makes no difference to what is left
/// after it.
proof fn newest_of_inserted<E: Stamped>(
    s: Seq<E>,
    entry: E,
    limit: nat,
    r: Seq<E>,
    all: Seq<E>,
)
    requires
        chronological(s),
        forall|i: int| 0 <= i < s.len() ==> #[trigger] s[i].stamp() != entry.stamp(),
        inserted(newest(s, limit), entry, r),
        inserted(s, entry, all),
    ensures
        newest(r, limit) == newest(all, limit),
{
    let t = entry.stamp();
    let kept = newest(s, limit);
    let dropped = s.len() - kept.len();
    newest_stays_chronological(s, limit);
    let p = place_of(kept, entry, r);
    let q = place_of(s, entry, all);
    assert forall|i: int| 0 <= i < kept.len() implies kept[i] == s[i + dropped] by {
    }
    assert forall|i: int| 0 <= i < kept.len() implies #[trigger] kept[i].stamp() != t by {
        assert(s[i + dropped].stamp() != t);
    }
    let expected = if q >= dropped {
        q - dropped
    } else {
        0
    };
    assert(fits(kept, expected, t)) by {
        assert forall|i: int| expected <= i < kept.len() implies t <= kept[i].stamp() by {
            assert(t <= s[i + dropped].stamp());
        }
        assert forall|i: int| 0 <= i < expected implies kept[i].stamp() <= t by {
            assert(s[i + dropped].stamp() <= t);
        }
    }
    one_place_fits(kept, t, p, expected);
    assert(newest(r, limit) =~= newest(all, limit));
}

/// Of two entries of different, new instants, it does not matter which one is inserted
/// first, even where the oldest entries are dropped each time.
pub proof fn insertion_order_does_not_matter<E: Stamped>(
    s: Seq<E>,
    x: E,
    y: E,
    limit: nat,
    with_x: Seq<E>,
    x_then_y: Seq<E>,
    with_y: Seq<E>,
    y_then_x: Seq<E>,
)
    requires
        strictly_chronological(s),
        x.stamp() != y.stamp(),
        forall|i: int|
            0 <= i < s.len() ==> #[trigger] s[i].stamp() != x.stamp() && s[i].stamp() != y.stamp(),
        inserted(s, x, with_x),
        inserted(newest(with_x, limit), y, x_then_y),
        inserted(s, y, with_y),
        inserted(newest(with_y, limit), x, y_then_x),
    ensures
        newest(x_then_y, limit) == newest(y_then_x, limit),
{
    let xy = both_inserted(s, x, y, with_x);
    let yx = both_inserted(s, y, x, with_y);
    newest_of_inserted(with_x, y, limit, x_then_y, xy);
    newest_of_inserted(with_y, x, limit, y_then_x, yx);
    strict_order_is_unique(xy, yx);
}

/// A second entry can be inserted after a first.
proof fn both_inserted<E: Stamped>(s: Seq<E>, x: E, y: E, with_x: Seq<E>) -> (all: Seq<E>)
    requires
        strictly_chronological(s),
        x.stamp() != y.stamp(),
        forall|i: int|
            0 <= i < s.len() ==> #[trigger] s[i].stamp() != x.stamp() && s[i].stamp() != y.stamp(),
        inserted(s, x, with_x),
    ensures
        chronological(with_x),
        forall|i: int| 0 <= i < with_x.len() ==> #[trigger] with_x[i].stamp() != y.stamp(),
        inserted(with_x, y, all),
        strictly_chronological(all),
        forall|e: E| #[trigger] all.contains(e) <==> s.contains(e) || e == x || e == y,
{
    inserting_adds_one(s, x, with_x);
    assert forall|i: int| 0 <= i < with_x.len() implies #[trigger] with_x[i].stamp()
        != y.stamp() by {
        assert(with_x.contains(with_x[i]));
    }
    assert(chronological(with_x)) by {
        assert forall|i: int, j: int| 0 <= i <= j < with_x.len() implies with_x[i].stamp()
            <= with_x[j].stamp() by {
            if i < j {
                assert(with_x[i].stamp() < with_x[j].stamp());
            }
        }
    }
    let pos = some_place_fits(with_x, y.stamp());
    let all = if with_x.len() == 0 || with_x.last().stamp() <= y.stamp() {
        with_x.push(y)
    } else {
        with_x.insert(pos, y)
    };
    inserting_adds_one(with_x, y, all);
    all
}

} // verus!
