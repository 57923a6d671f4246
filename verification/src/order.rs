//! Moving an item of a list to another place by drag and drop.
use vstd::prelude::*;

verus! {

/// Where an item lands that leaves place `from` of a list and is dropped at
/// the boundary `target`, counted before it left.
pub open spec fn landing(len: int, from: int, target: int) -> int {
    let t = if target > from {
        target - 1
    } else {
        target
    };
    if t < len - 1 {
        t
    } else {
        len - 1
    }
}

/// The list after the item at `from` was dropped at the boundary `target`.
pub open spec fn moved<T>(s: Seq<T>, from: int, target: int) -> Seq<T> {
    if from >= s.len() {
        s
    } else {
        s.remove(from).insert(landing(s.len() as int, from, target), s[from])
    }
}

/// Moves the item at `from` to the boundary `target` and says where it
/// landed. Where there is no such item nothing moves.
pub fn move_item<T>(v: &mut Vec<T>, from: usize, target: usize) -> (r: Option<usize>)
    ensures
        final(v)@ == moved(old(v)@, from as int, target as int),
        r == (if from < old(v)@.len() {
            Some(landing(old(v)@.len() as int, from as int, target as int) as usize)
        } else {
            None
        }),
{
    if from >= v.len() {
        return None;
    }
    let item: T = v.remove(from);
    let wanted: usize = if target > from {
        target - 1
    } else {
        target
    };
    let at: usize = if wanted < v.len() {
        wanted
    } else {
        v.len()
    };
    v.insert(at, item);
    Some(at)
}

/// How many of the flags are set.
pub open spec fn count_set(flags: Seq<bool>) -> nat
    decreases flags.len(),
{
    if flags.len() == 0 {
        0
    } else {
        count_set(flags.drop_last()) + if flags.last() {
            1nat
        } else {
            0nat
        }
    }
}

/// The boundary that the pointer is at: behind as many items as it has the
/// middle of behind it.
pub fn boundary(passed: &Vec<bool>) -> (r: usize)
    ensures
        r == count_set(passed@),
        r <= passed@.len(),
{
    let mut n: usize = 0;
    let mut i: usize = 0;
    while i < passed.len()
        invariant
            i <= passed@.len(),
            n == count_set(passed@.take(i as int)),
            n <= i,
        decreases passed@.len() - i,
    {
        assert(passed@.take(i + 1).drop_last() =~= passed@.take(i as int));
        if passed[i] {
            n = n + 1;
        }
        i = i + 1;
    }
    assert(passed@.take(i as int) =~= passed@);
    n
}

// ---- laws ----

/// Moving keeps every item, and puts the moved one where it landed.
pub proof fn law_move_keeps_items<T>(s: Seq<T>, from: int, target: int)
    requires
        0 <= from < s.len(),
        0 <= target,
    ensures
        moved(s, from, target).len() == s.len(),
        0 <= landing(s.len() as int, from, target) < s.len(),
        moved(s, from, target)[landing(s.len() as int, from, target)] == s[from],
        moved(s, from, target).to_multiset() == s.to_multiset(),
{
    let at = landing(s.len() as int, from, target);
    let rest = s.remove(from);
    let m = moved(s, from, target);
    assert(m.remove(at) =~= rest);
    vstd::seq_lib::to_multiset_remove(s, from);
    vstd::seq_lib::to_multiset_remove(m, at);
    s.to_multiset_ensures();
    m.to_multiset_ensures();
    assert(s.to_multiset() =~= rest.to_multiset().insert(s[from]));
    assert(m.to_multiset() =~= rest.to_multiset().insert(s[from]));
}

/// Moving keeps the other items in their order.
pub proof fn law_move_keeps_order<T>(s: Seq<T>, from: int, target: int)
    requires
        0 <= from < s.len(),
        0 <= target,
    ensures
        moved(s, from, target).remove(landing(s.len() as int, from, target)) == s.remove(from),
{
    assert(moved(s, from, target).remove(landing(s.len() as int, from, target)) =~= s.remove(from));
}

/// The item goes to the boundary between what stood before `target` and what
/// stood from `target` on.
pub proof fn law_move_to_boundary<T>(s: Seq<T>, from: int, target: int)
    requires
        0 <= from < s.len(),
        0 <= target <= s.len(),
    ensures
        from < target ==> moved(s, from, target) == s.take(target).remove(from).push(s[from])
            + s.skip(target),
        target <= from ==> moved(s, from, target) == s.take(target).push(s[from]) + s.skip(
            target,
        ).remove(from - target),
{
    if from < target {
        assert(moved(s, from, target) =~= s.take(target).remove(from).push(s[from]) + s.skip(
            target,
        ));
    } else {
        assert(moved(s, from, target) =~= s.take(target).push(s[from]) + s.skip(target).remove(
            from - target,
        ));
    }
}

/// Dropped at either boundary of its own place, an item does not move.
pub proof fn law_move_nowhere<T>(s: Seq<T>, from: int)
    requires
        0 <= from < s.len(),
    ensures
        moved(s, from, from) == s,
        moved(s, from, from + 1) == s,
{
    assert(moved(s, from, from) =~= s);
    assert(moved(s, from, from + 1) =~= s);
}

/// A move can be undone by dragging the item back to its old boundary.
pub proof fn law_move_back<T>(s: Seq<T>, from: int, target: int)
    requires
        0 <= from < s.len(),
        0 <= target,
    ensures
        ({
            let at = landing(s.len() as int, from, target);
            let back = if from <= at {
                from
            } else {
                from + 1
            };
            moved(moved(s, from, target), at, back) == s
        }),
{
    let at = landing(s.len() as int, from, target);
    let back = if from <= at {
        from
    } else {
        from + 1
    };
    assert(moved(moved(s, from, target), at, back) =~= s);
}

/// Dropped beyond the last boundary, an item goes to the end, and what is not
/// there does not move.
pub proof fn law_move_beyond<T>(s: Seq<T>, from: int, target: int)
    requires
        0 <= from,
    ensures
        from < s.len() && target >= s.len() ==> moved(s, from, target) == s.remove(from).push(
            s[from],
        ),
        from >= s.len() ==> moved(s, from, target) == s,
{
    if from < s.len() && target >= s.len() {
        assert(moved(s, from, target) =~= s.remove(from).push(s[from]));
    }
}

/// The boundary lies behind the items that were passed: with as many passed as
/// `n` and none behind them it is boundary `n`, and items are counted one by
/// one.
pub proof fn law_boundary_counts(a: Seq<bool>, b: Seq<bool>, n: nat)
    ensures
        count_set(a + b) == count_set(a) + count_set(b),
        count_set(Seq::new(n, |i: int| true)) == n,
        count_set(Seq::new(n, |i: int| false)) == 0,
    decreases b.len() + n,
{
    if b.len() == 0 {
        assert(a + b =~= a);
    } else {
        law_boundary_counts(a, b.drop_last(), 0);
        assert((a + b).drop_last() =~= a + b.drop_last());
        assert((a + b).last() == b.last());
    }
    if n > 0 {
        law_boundary_counts(a, Seq::empty(), (n - 1) as nat);
        assert(Seq::new(n, |i: int| true).drop_last() =~= Seq::new((n - 1) as nat, |i: int| true));
        assert(Seq::new(n, |i: int| false).drop_last() =~= Seq::new((n - 1) as nat, |i: int| false));
    }
}

} // verus!
