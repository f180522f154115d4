//! Set-associative tag array with a Not-MRU replacement policy.
//!
//! An address is split into a line number (`addr >> laddrbits`) which serves
//! as the tag, and a set index (`line % nset`).  On insertion the first
//! invalid way of the set is filled; if every way is valid, the way just
//! after the most-recently-used one is evicted (`(mru + 1) % nway`).
//! A cache built with `capacity == 0` has no sets and treats every
//! operation as a silent no-op.

use vstd::prelude::*;

verus! {

/// Geometry of a cache: log2 of the line size, total line capacity, and
/// associativity (ways per set).
pub struct CacheParams {
    pub laddrbits: usize,
    pub capacity: usize,
    pub assoc: usize,
}

/// Set-associative tag array with per-set MRU tracking and Not-MRU victim
/// selection.
pub struct NmruCache {
    pub nset: usize,
    pub nway: usize,
    pub laddrbits: usize,
    pub tags: Vec<Vec<(bool, u64)>>,
    pub mru: Vec<usize>,
}

impl NmruCache {
    /// Shape invariant: `nset` sets of `nway` ways each, every MRU pointer
    /// a valid way index, and a shiftable line-size exponent.
    pub open spec fn wf(self) -> bool {
        &&& self.tags@.len() == self.nset
        &&& forall|s: int| 0 <= s < self.nset ==> (#[trigger] self.tags@[s])@.len() == self.nway
        &&& self.mru@.len() == self.nset
        &&& forall|s: int| 0 <= s < self.nset ==> (#[trigger] self.mru@[s]) < self.nway
        &&& self.laddrbits < 64
        &&& (self.nset > 0 ==> self.nway > 0)
    }

    /// The line number of an address: the address without its offset bits.
    /// The line number is also the tag stored in the array.
    pub open spec fn spec_line(self, addr: u64) -> u64 {
        addr >> (self.laddrbits as u64)
    }

    /// The set an address maps to.
    pub open spec fn spec_set(self, addr: u64) -> int
        recommends
            self.nset > 0,
    {
        self.spec_line(addr) as int % (self.nset as int)
    }

    /// Way `w` of set `s` holds a valid entry for line number `line`.
    pub open spec fn way_hit(self, s: int, w: int, line: u64) -> bool {
        self.tags@[s]@[w].0 && self.tags@[s]@[w].1 == line
    }

    /// Some valid way of the address's set holds the address's tag.
    pub open spec fn spec_lookup(self, addr: u64) -> bool {
        &&& self.nset > 0
        &&& exists|w: int|
            0 <= w < self.nway && self.way_hit(self.spec_set(addr), w, self.spec_line(addr))
    }

    /// The first invalid way of set `s` at or after way `w`, or -1 if every
    /// way from `w` on is valid.
    pub open spec fn first_invalid_from(self, s: int, w: int) -> int
        decreases self.nway - w when 0 <= w <= self.nway
    {
        if w >= self.nway {
            -1
        } else if !self.tags@[s]@[w].0 {
            w
        } else {
            self.first_invalid_from(s, w + 1)
        }
    }

    /// The first way of set `s` at or after way `w` that hits `line`,
    /// or -1 if none does.
    pub open spec fn first_match_from(self, s: int, w: int, line: u64) -> int
        decreases self.nway - w when 0 <= w <= self.nway
    {
        if w >= self.nway {
            -1
        } else if self.way_hit(s, w, line) {
            w
        } else {
            self.first_match_from(s, w + 1, line)
        }
    }

    /// The way an insertion into set `s` fills: the first invalid way, or,
    /// with every way valid, the way just after the most-recently-used one.
    pub open spec fn spec_victim(self, s: int) -> int
        recommends
            0 <= s < self.nset,
            self.nway > 0,
    {
        let fi = self.first_invalid_from(s, 0);
        if fi >= 0 {
            fi
        } else {
            (self.mru@[s] + 1) % (self.nway as int)
        }
    }

    /// No line number is held by two distinct valid ways of one set.
    pub open spec fn ways_distinct(self) -> bool {
        forall|s: int, w1: int, w2: int|
            0 <= s < self.nset && 0 <= w1 < self.nway && 0 <= w2 < self.nway && w1 != w2
                && (#[trigger] self.tags@[s]@[w1]).0 && (#[trigger] self.tags@[s]@[w2]).0
                ==> self.tags@[s]@[w1].1 != self.tags@[s]@[w2].1
    }

    /// How `insert` changes a cache: a no-op without sets, otherwise the
    /// victim way of the address's set is overwritten with a valid entry
    /// for the address's line and everything else is kept.
    pub open spec fn insert_post(pre: NmruCache, post: NmruCache, addr: u64) -> bool {
        if pre.nset == 0 {
            post == pre
        } else {
            let s = pre.spec_set(addr);
            let w = pre.spec_victim(s);
            &&& post.nset == pre.nset
            &&& post.nway == pre.nway
            &&& post.laddrbits == pre.laddrbits
            &&& post.mru@ == pre.mru@
            &&& post.tags@.len() == pre.tags@.len()
            &&& forall|s2: int|
                0 <= s2 < pre.nset && s2 != s ==> #[trigger] post.tags@[s2] == pre.tags@[s2]
            &&& post.tags@[s]@.len() == pre.tags@[s]@.len()
            &&& forall|w2: int|
                0 <= w2 < pre.nway && w2 != w ==> #[trigger] post.tags@[s]@[w2] == pre.tags@[s]@[w2]
            &&& post.tags@[s]@[w] == (true, pre.spec_line(addr))
        }
    }

    /// How `access` changes a cache: a no-op without sets, otherwise the
    /// MRU pointer of the address's set moves to the first way that hits
    /// the address's line and the tag array is kept.
    pub open spec fn access_post(pre: NmruCache, post: NmruCache, addr: u64) -> bool {
        if pre.nset == 0 {
            post == pre
        } else {
            let s = pre.spec_set(addr);
            &&& post.nset == pre.nset
            &&& post.nway == pre.nway
            &&& post.laddrbits == pre.laddrbits
            &&& post.tags@ == pre.tags@
            &&& post.mru@.len() == pre.mru@.len()
            &&& forall|s2: int|
                0 <= s2 < pre.nset && s2 != s ==> #[trigger] post.mru@[s2] == pre.mru@[s2]
            &&& post.mru@[s] == pre.first_match_from(s, 0, pre.spec_line(addr))
        }
    }

    /// Builds an empty cache of the given geometry: `capacity / assoc` sets
    /// of `assoc` ways, every way invalid, every MRU pointer at way 0.
    pub fn new(p: &CacheParams) -> (c: NmruCache)
        requires
            p.assoc > 0,
            p.laddrbits < 64,
        ensures
            c.wf(),
            c.ways_distinct(),
            c.nset == p.capacity / p.assoc,
            c.nway == p.assoc,
            c.laddrbits == p.laddrbits,
            forall|s: int, w: int|
                0 <= s < c.nset && 0 <= w < c.nway ==> #[trigger] c.tags@[s]@[w] == (false, 0u64),
            forall|s: int| 0 <= s < c.nset ==> #[trigger] c.mru@[s] == 0,
    {
        let nset = p.capacity / p.assoc;
        let nway = p.assoc;
        let mut tags: Vec<Vec<(bool, u64)>> = Vec::new();
        let mut mru: Vec<usize> = Vec::new();
        let mut s: usize = 0;
        while s < nset
            invariant
                s <= nset,
                tags@.len() == s,
                mru@.len() == s,
                forall|i: int| 0 <= i < s ==> (#[trigger] tags@[i])@.len() == nway,
                forall|i: int, w: int|
                    0 <= i < s && 0 <= w < nway ==> #[trigger] tags@[i]@[w] == (false, 0u64),
                forall|i: int| 0 <= i < s ==> #[trigger] mru@[i] == 0usize,
            decreases nset - s,
        {
            let mut row: Vec<(bool, u64)> = Vec::new();
            let mut w: usize = 0;
            while w < nway
                invariant
                    w <= nway,
                    row@.len() == w,
                    forall|j: int| 0 <= j < w ==> #[trigger] row@[j] == (false, 0u64),
                decreases nway - w,
            {
                row.push((false, 0));
                w = w + 1;
            }
            tags.push(row);
            mru.push(0);
            s = s + 1;
        }
        NmruCache { nset, nway, laddrbits: p.laddrbits, tags, mru }
    }

    /// True iff the address's set holds a valid entry for its line.
    pub fn lookup(&self, addr: u64) -> (r: bool)
        requires
            self.wf(),
        ensures
            r == self.spec_lookup(addr),
    {
        if self.nset == 0 {
            return false;
        }
        let line = addr >> (self.laddrbits as u64);
        let set = (line % (self.nset as u64)) as usize;
        assert(set as int == self.spec_set(addr));
        let mut wi: usize = 0;
        while wi < self.nway
            invariant
                self.wf(),
                self.nset > 0,
                wi <= self.nway,
                line == self.spec_line(addr),
                set as int == self.spec_set(addr),
                set < self.nset,
                forall|w: int| 0 <= w < wi ==> !self.way_hit(set as int, w, line),
            decreases self.nway - wi,
        {
            let e = self.tags[set][wi];
            if e.0 && e.1 == line {
                assert(self.way_hit(set as int, wi as int, line));
                return true;
            }
            wi = wi + 1;
        }
        false
    }

    /// Installs the address's line into its set, filling the first invalid
    /// way or evicting the Not-MRU victim.  The MRU pointer is not touched.
    pub fn insert(&mut self, addr: u64)
        requires
            old(self).wf(),
        ensures
            final(self).wf(),
            NmruCache::insert_post(*old(self), *final(self), addr),
    {
        if self.nset == 0 {
            return;
        }
        let line = addr >> (self.laddrbits as u64);
        let set = (line % (self.nset as u64)) as usize;
        assert(set as int == self.spec_set(addr));
        let ghost sg = set as int;
        let mut wi: usize = 0;
        let mut inv_way: usize = 0;
        let mut has_inv = false;
        while wi < self.nway
            invariant
                self.wf(),
                self.nset > 0,
                wi <= self.nway,
                set < self.nset,
                sg == set as int,
                has_inv ==> self.first_invalid_from(sg, 0) == inv_way && inv_way < self.nway,
                !has_inv ==> self.first_invalid_from(sg, 0) == self.first_invalid_from(sg, wi as int),
            decreases self.nway - wi,
        {
            if !has_inv {
                let e = self.tags[set][wi];
                if !e.0 {
                    inv_way = wi;
                    has_inv = true;
                }
            }
            wi = wi + 1;
        }
        let victim: usize = if has_inv {
            inv_way
        } else {
            assert(self.first_invalid_from(sg, 0) == -1);
            (self.mru[set] + 1) % self.nway
        };
        assert(victim as int == self.spec_victim(sg));
        assert(victim < self.nway);
        let row = &mut self.tags[set];
        row.set(victim, (true, line));
    }

    /// Moves the set's MRU pointer to the way holding the address's line.
    /// The address must be present (checked by `lookup`); on a cache
    /// without sets the call is a no-op.
    pub fn access(&mut self, addr: u64)
        requires
            old(self).wf(),
            old(self).nset > 0 ==> old(self).spec_lookup(addr),
        ensures
            final(self).wf(),
            NmruCache::access_post(*old(self), *final(self), addr),
    {
        if self.nset == 0 {
            return;
        }
        let line = addr >> (self.laddrbits as u64);
        let set = (line % (self.nset as u64)) as usize;
        assert(set as int == self.spec_set(addr));
        let ghost sg = set as int;
        let mut wi: usize = 0;
        let mut m: usize = 0;
        let mut found = false;
        while wi < self.nway
            invariant
                self.wf(),
                self.nset > 0,
                wi <= self.nway,
                set < self.nset,
                sg == set as int,
                line == self.spec_line(addr),
                found ==> self.first_match_from(sg, 0, line) == m && m < self.nway,
                !found ==> self.first_match_from(sg, 0, line)
                    == self.first_match_from(sg, wi as int, line),
                !found ==> forall|w: int| 0 <= w < wi ==> !self.way_hit(sg, w, line),
            decreases self.nway - wi,
        {
            if !found {
                let e = self.tags[set][wi];
                if e.0 && e.1 == line {
                    m = wi;
                    found = true;
                }
            }
            wi = wi + 1;
        }
        assert(found) by {
            if !found {
                assert(forall|w: int| 0 <= w < self.nway ==> !self.way_hit(sg, w, line));
                assert(!self.spec_lookup(addr));
            }
        }
        self.mru.set(set, m);
    }
}

/// The first-invalid-way scan either fails or lands on an invalid way
/// within the set.
pub proof fn lemma_first_invalid_from_bound(c: NmruCache, s: int, w: int)
    requires
        c.wf(),
        0 <= w <= c.nway,
    ensures
        ({
            let r = c.first_invalid_from(s, w);
            r == -1 || (w <= r < c.nway && !c.tags@[s]@[r].0)
        }),
    decreases c.nway - w,
{
    if w < c.nway && c.tags@[s]@[w].0 {
        lemma_first_invalid_from_bound(c, s, w + 1);
    }
}

/// The first-matching-way scan either fails or lands on a way that hits
/// the line.
pub proof fn lemma_first_match_from_bound(c: NmruCache, s: int, w: int, line: u64)
    requires
        c.wf(),
        0 <= w <= c.nway,
    ensures
        ({
            let r = c.first_match_from(s, w, line);
            r == -1 || (w <= r < c.nway && c.way_hit(s, r, line))
        }),
    decreases c.nway - w,
{
    if w < c.nway && !c.way_hit(s, w, line) {
        lemma_first_match_from_bound(c, s, w + 1, line);
    }
}

/// Inserting an absent line keeps the ways of every set distinct: the
/// overwritten victim is the only way that can hold the new line.
pub proof fn lemma_insert_preserves_distinct(pre: NmruCache, post: NmruCache, addr: u64)
    requires
        pre.wf(),
        pre.ways_distinct(),
        !pre.spec_lookup(addr),
        NmruCache::insert_post(pre, post, addr),
    ensures
        post.ways_distinct(),
{
    if pre.nset == 0 {
        assert(post == pre);
    } else {
        let s = pre.spec_set(addr);
        let v = pre.spec_victim(s);
        let line = pre.spec_line(addr);
        assert forall|s2: int, w1: int, w2: int|
            0 <= s2 < post.nset && 0 <= w1 < post.nway && 0 <= w2 < post.nway && w1 != w2
                && (#[trigger] post.tags@[s2]@[w1]).0 && (#[trigger] post.tags@[s2]@[w2]).0
            implies post.tags@[s2]@[w1].1 != post.tags@[s2]@[w2].1 by {
            if s2 != s {
                assert(post.tags@[s2] == pre.tags@[s2]);
            } else {
                if w1 != v && w2 != v {
                    assert(post.tags@[s]@[w1] == pre.tags@[s]@[w1]);
                    assert(post.tags@[s]@[w2] == pre.tags@[s]@[w2]);
                } else if w1 == v {
                    assert(post.tags@[s]@[w1].1 == line);
                    assert(post.tags@[s]@[w2] == pre.tags@[s]@[w2]);
                    assert(!pre.way_hit(s, w2, line));
                } else {
                    assert(post.tags@[s]@[w2].1 == line);
                    assert(post.tags@[s]@[w1] == pre.tags@[s]@[w1]);
                    assert(!pre.way_hit(s, w1, line));
                }
            }
        }
    }
}

/// Moving the MRU pointer never touches the tag array, so it keeps the
/// ways of every set distinct.
pub proof fn lemma_access_preserves_distinct(pre: NmruCache, post: NmruCache, addr: u64)
    requires
        pre.ways_distinct(),
        NmruCache::access_post(pre, post, addr),
    ensures
        post.ways_distinct(),
{
    if pre.nset == 0 {
        assert(post == pre);
    }
}

/// Inserting a line and then accessing it leaves the line present:
/// a subsequent lookup of the same address succeeds.
pub proof fn lemma_insert_access_lookup(c0: NmruCache, c1: NmruCache, c2: NmruCache, addr: u64)
    requires
        c0.wf(),
        c0.nset > 0,
        NmruCache::insert_post(c0, c1, addr),
        NmruCache::access_post(c1, c2, addr),
    ensures
        c2.spec_lookup(addr),
{
    let s = c0.spec_set(addr);
    let v = c0.spec_victim(s);
    assert(0 <= s < c0.nset);
    lemma_first_invalid_from_bound(c0, s, 0);
    assert(0 <= v < c0.nway);
    assert(c1.tags@[s]@[v] == (true, c0.spec_line(addr)));
    assert(c1.spec_line(addr) == c0.spec_line(addr));
    assert(c1.spec_set(addr) == s);
    assert(0 <= v < c1.nway);
    assert(c1.way_hit(s, v, c1.spec_line(addr)));
    assert(c1.spec_lookup(addr));
    assert(c2.tags@ == c1.tags@);
    assert(c2.spec_set(addr) == c1.spec_set(addr));
    assert(c2.way_hit(s, v, c2.spec_line(addr)));
}

/// With one way per set the cache is direct-mapped: whatever the MRU
/// state, the insertion victim is always way 0.
pub proof fn lemma_direct_mapped_victim(c: NmruCache, s: int)
    requires
        c.wf(),
        c.nway == 1,
        0 <= s < c.nset,
    ensures
        c.spec_victim(s) == 0,
{
    let fi = c.first_invalid_from(s, 0);
    lemma_first_invalid_from_bound(c, s, 0);
    if fi >= 0 {
        assert(fi == 0);
    } else {
        assert(c.mru@[s] < 1);
        assert((c.mru@[s] + 1) % (c.nway as int) == 0);
    }
}

} // verus!
