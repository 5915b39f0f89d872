use vstd::multiset::Multiset;
use vstd::prelude::*;

verus! {

/// The live collection after a removal at `i` that moves the last body into slot `i`.
pub open spec fn swap_out<T>(s: Seq<T>, i: int) -> Seq<T> {
    s.update(i, s.last()).drop_last()
}

/// The live collection after every marked index at or above `from` has been removed,
/// from the highest index down.
pub open spec fn swept<T>(s: Seq<T>, eaten: Seq<bool>, from: int) -> Seq<T>
    decreases eaten.len() - from,
{
    if from >= eaten.len() {
        s
    } else {
        let rest = swept(s, eaten, from + 1);
        if eaten[from] {
            swap_out(rest, from)
        } else {
            rest
        }
    }
}

/// The bodies taken out by `swept(s, eaten, from)`, in the order of removal
/// (highest starting index first).
pub open spec fn picked<T>(s: Seq<T>, eaten: Seq<bool>, from: int) -> Seq<T>
    decreases eaten.len() - from,
{
    if from >= eaten.len() {
        Seq::empty()
    } else {
        let rest = picked(s, eaten, from + 1);
        if eaten[from] {
            rest.push(s[from])
        } else {
            rest
        }
    }
}

/// How many indices at or above `from` are marked.
pub open spec fn num_eaten(eaten: Seq<bool>, from: int) -> nat
    decreases eaten.len() - from,
{
    if from >= eaten.len() {
        0
    } else {
        num_eaten(eaten, from + 1) + if eaten[from] { 1nat } else { 0nat }
    }
}

/// Where the body that started at index `p` stands in `swept(s, eaten, from)`:
/// it moves only when it was the last body and the slot it moves into was emptied.
pub open spec fn player_after<T>(s: Seq<T>, eaten: Seq<bool>, p: int, from: int) -> int
    decreases eaten.len() - from,
{
    if from >= eaten.len() {
        p
    } else {
        let q = player_after(s, eaten, p, from + 1);
        if eaten[from] && q == swept(s, eaten, from + 1).len() - 1 {
            from
        } else {
            q
        }
    }
}

/// Taking the body at `i` out by moving the last one into its slot loses nothing else.
proof fn lemma_swap_out_multiset<T>(s: Seq<T>, i: int)
    requires
        0 <= i < s.len(),
    ensures
        swap_out(s, i).to_multiset().insert(s[i]) == s.to_multiset(),
{
    broadcast use vstd::seq_lib::group_to_multiset_ensures, vstd::multiset::group_multiset_axioms;

    let u = s.update(i, s.last());
    vstd::seq_lib::to_multiset_update(s, i, s.last());
    assert(u =~= swap_out(s, i).push(s.last()));
    vstd::seq_lib::to_multiset_build(swap_out(s, i), s.last());
    let w = swap_out(s, i);
    assert(u.to_multiset() == s.to_multiset().insert(s.last()).remove(s[i]));
    assert(u.to_multiset() == w.to_multiset().insert(s.last()));
    assert(s.to_multiset().count(s[i]) > 0) by {
        vstd::seq_lib::to_multiset_contains(s, s[i]);
    }
    assert forall|x: T| #[trigger] w.to_multiset().count(x) == s.to_multiset().remove(s[i]).count(x) by {
        assert(u.to_multiset().count(x) == w.to_multiset().insert(s.last()).count(x));
        assert(u.to_multiset().count(x) == s.to_multiset().insert(s.last()).remove(s[i]).count(x));
    }
    assert(w.to_multiset() =~= s.to_multiset().remove(s[i]));
    assert(swap_out(s, i).to_multiset().insert(s[i]) =~= s.to_multiset());
}

/// Removal from the highest marked index down leaves the bodies below `from` in place
/// and, together with the bodies it took out, holds exactly the bodies it started with.
proof fn lemma_swept_conserves<T>(s: Seq<T>, eaten: Seq<bool>, from: int)
    requires
        eaten.len() == s.len(),
        0 <= from <= s.len(),
    ensures
        from <= swept(s, eaten, from).len(),
        forall|t: int| 0 <= t < from ==> #[trigger] swept(s, eaten, from)[t] == s[t],
        swept(s, eaten, from).to_multiset().add(picked(s, eaten, from).to_multiset())
            == s.to_multiset(),
    decreases s.len() - from,
{
    broadcast use vstd::seq_lib::group_to_multiset_ensures, vstd::multiset::group_multiset_axioms;

    if from == s.len() {
        assert(picked(s, eaten, from).to_multiset() =~= Multiset::empty());
        assert(s.to_multiset().add(Multiset::empty()) =~= s.to_multiset());
    } else {
        lemma_swept_conserves(s, eaten, from + 1);
        let r = swept(s, eaten, from + 1);
        let q = picked(s, eaten, from + 1);
        assert(r[from] == s[from]);
        if eaten[from] {
            lemma_swap_out_multiset(r, from);
            vstd::seq_lib::to_multiset_build(q, s[from]);
            assert(swap_out(r, from).to_multiset().add(q.push(s[from]).to_multiset())
                =~= swap_out(r, from).to_multiset().insert(s[from]).add(q.to_multiset()));
        }
    }
}

/// Every body of the collection either survives a removal or is handed back by it, once.
pub proof fn lemma_removal_conserves_bodies<T>(s: Seq<T>, eaten: Seq<bool>)
    requires
        eaten.len() == s.len(),
    ensures
        swept(s, eaten, 0).to_multiset().add(picked(s, eaten, 0).to_multiset()) == s.to_multiset(),
{
    lemma_swept_conserves(s, eaten, 0);
}

/// The player: the index of its own body inside the live body collection.
pub struct Player {
    pub id: usize,
}

impl Player {
    /// A player whose body stands at index `id` of the live collection.
    pub fn at(id: usize) -> (r: Player)
        ensures
            r.id == id,
    {
        Player { id }
    }

    /// Adds the player's body at the end of the live collection and tracks it there.
    pub fn new<T>(bodies: &mut Vec<T>, body: T) -> (r: Player)
        ensures
            final(bodies)@ == old(bodies)@.push(body),
            r.id == old(bodies)@.len(),
            final(bodies)@[r.id as int] == body,
    {
        let id = bodies.len();
        bodies.push(body);
        Player { id }
    }

    /// Removes every body marked in `eaten` from `bodies`, highest index first, each by
    /// moving the last body into its slot, and keeps `self.id` on the player's body.
    /// Returns the removed bodies in the order they were taken out.
    pub fn remove_eaten<T>(&mut self, bodies: &mut Vec<T>, eaten: &Vec<bool>) -> (removed: Vec<T>)
        requires
            old(self).id < old(bodies)@.len(),
            eaten@.len() == old(bodies)@.len(),
            !eaten@[old(self).id as int],
        ensures
            final(bodies)@ == swept(old(bodies)@, eaten@, 0),
            removed@ == picked(old(bodies)@, eaten@, 0),
            final(bodies)@.len() == old(bodies)@.len() - num_eaten(eaten@, 0),
            final(self).id == player_after(old(bodies)@, eaten@, old(self).id as int, 0),
            final(self).id < final(bodies)@.len(),
            final(bodies)@[final(self).id as int] == old(bodies)@[old(self).id as int],
    {
        let ghost s0 = bodies@;
        let ghost p0 = self.id as int;
        let mut removed: Vec<T> = Vec::new();
        let mut i: usize = eaten.len();
        while i > 0
            invariant
                i <= eaten@.len() == s0.len(),
                !eaten@[p0],
                0 <= p0 < s0.len(),
                bodies@ == swept(s0, eaten@, i as int),
                removed@ == picked(s0, eaten@, i as int),
                bodies@.len() == s0.len() - num_eaten(eaten@, i as int),
                self.id == player_after(s0, eaten@, p0, i as int),
                i <= bodies@.len(),
                bodies@.subrange(0, i as int) == s0.subrange(0, i as int),
                self.id < bodies@.len(),
                self.id == p0 || self.id >= i,
                bodies@[self.id as int] == s0[p0],
            decreases i,
        {
            let k = i - 1;
            if eaten[k] {
                let ghost before = bodies@;
                let last = bodies.len() - 1;
                assert(before.subrange(0, i as int)[k as int] == s0.subrange(0, i as int)[k as int]);
                let b = bodies.swap_remove(k);
                removed.push(b);
                if self.id == last {
                    self.id = k;
                }
                assert(bodies@.subrange(0, k as int) =~= s0.subrange(0, k as int)) by {
                    assert forall|t: int| 0 <= t < k implies bodies@[t] == s0[t] by {
                        assert(before.subrange(0, i as int)[t] == s0.subrange(0, i as int)[t]);
                    }
                }
            } else {
                assert(bodies@.subrange(0, k as int) =~= s0.subrange(0, k as int)) by {
                    assert forall|t: int| 0 <= t < k implies bodies@[t] == s0[t] by {
                        assert(bodies@.subrange(0, i as int)[t] == s0.subrange(0, i as int)[t]);
                    }
                }
            }
            i = k;
        }
        removed
    }
}

} // verus!
