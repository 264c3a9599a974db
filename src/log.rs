//! Per-key append-only logs with commit pointers.
use vstd::prelude::*;
use crate::message::strings_view;

verus! {

/// What a node knows of one key: its commit pointer, if one was ever set,
/// and the values of its log, the value at offset `i` at position `i`.
pub struct KeyLog {
    pub committed: Option<usize>,
    pub msgs: Seq<usize>,
}

/// The log of key `k` in `m`; empty where `k` was never seen.
pub open spec fn log_of(m: Map<Seq<char>, KeyLog>, k: Seq<char>) -> Seq<usize> {
    if m.contains_key(k) {
        m[k].msgs
    } else {
        Seq::empty()
    }
}

/// The commit pointer of key `k` in `m`.
pub open spec fn commit_of(m: Map<Seq<char>, KeyLog>, k: Seq<char>) -> Option<usize> {
    if m.contains_key(k) {
        m[k].committed
    } else {
        None
    }
}

/// `m` after value `v` is appended to the log of key `k`.
pub open spec fn appended(m: Map<Seq<char>, KeyLog>, k: Seq<char>, v: usize) -> Map<
    Seq<char>,
    KeyLog,
> {
    m.insert(k, KeyLog { committed: commit_of(m, k), msgs: log_of(m, k).push(v) })
}

/// `m` after the commit pointer of key `k` is overwritten with `n`.
pub open spec fn committed(m: Map<Seq<char>, KeyLog>, k: Seq<char>, n: usize) -> Map<
    Seq<char>,
    KeyLog,
> {
    m.insert(k, KeyLog { committed: Some(n), msgs: log_of(m, k) })
}

/// `m` after the commit pointers `s` are written in order.
pub open spec fn committed_all(m: Map<Seq<char>, KeyLog>, s: Seq<(Seq<char>, usize)>) -> Map<
    Seq<char>,
    KeyLog,
>
    decreases s.len(),
{
    if s.len() == 0 {
        m
    } else {
        committed(committed_all(m, s.drop_last()), s.last().0, s.last().1)
    }
}

/// The entries of `msgs` at offset `o` and beyond, each with its offset.
pub open spec fn entries_from(msgs: Seq<usize>, o: int) -> Seq<(usize, usize)> {
    Seq::new(
        if o < msgs.len() {
            (msgs.len() - o) as nat
        } else {
            0
        },
        |i: int| ((o + i) as usize, msgs[o + i]),
    )
}

/// What a poll for the requested offsets `s` answers from `m`: for each
/// requested key that `m` knows, in request order, its entries from the
/// requested offset on.
pub open spec fn polled(m: Map<Seq<char>, KeyLog>, s: Seq<(Seq<char>, usize)>) -> Seq<
    (Seq<char>, Seq<(usize, usize)>),
>
    decreases s.len(),
{
    if s.len() == 0 {
        Seq::empty()
    } else {
        let prev = polled(m, s.drop_last());
        let k = s.last().0;
        if m.contains_key(k) {
            prev.push((k, entries_from(m[k].msgs, s.last().1 as int)))
        } else {
            prev
        }
    }
}

/// The commit pointers of the keys `keys` in `m`, in request order; keys
/// without a pointer are left out.
pub open spec fn listed(m: Map<Seq<char>, KeyLog>, keys: Seq<Seq<char>>) -> Seq<
    (Seq<char>, usize),
>
    decreases keys.len(),
{
    if keys.len() == 0 {
        Seq::empty()
    } else {
        let prev = listed(m, keys.drop_last());
        match commit_of(m, keys.last()) {
            Some(n) => prev.push((keys.last(), n)),
            None => prev,
        }
    }
}

/// A key-to-offset mapping as plain values.
pub open spec fn offsets_view(v: Seq<(String, usize)>) -> Seq<(Seq<char>, usize)> {
    v.map_values(|p: (String, usize)| (p.0@, p.1))
}

/// A poll answer as plain values.
pub open spec fn polled_view(v: Seq<(String, Vec<(usize, usize)>)>) -> Seq<
    (Seq<char>, Seq<(usize, usize)>),
> {
    v.map_values(|p: (String, Vec<(usize, usize)>)| (p.0@, p.1@))
}

/// The state of one key: its commit pointer and its log.
pub struct COAM {
    pub commited_offset: Option<usize>,
    pub msgs: Vec<usize>,
}

impl COAM {
    /// The key's state as plain values.
    pub open spec fn view(&self) -> KeyLog {
        KeyLog { committed: self.commited_offset, msgs: self.msgs@ }
    }

    /// No commit pointer and an empty log.
    pub fn new() -> (r: COAM)
        ensures
            r@ == (KeyLog { committed: None, msgs: Seq::empty() }),
    {
        COAM { commited_offset: None, msgs: Vec::new() }
    }
}

/// The logs and commit pointers of all keys a node has seen.
pub struct Messages {
    map: Vec<(String, COAM)>,
}

impl Messages {
    /// No key is held twice.
    pub closed spec fn wf(&self) -> bool {
        forall|i: int, j: int|
            0 <= i < self.map@.len() && 0 <= j < self.map@.len() && self.map@[i].0@
                == self.map@[j].0@ ==> i == j
    }

    spec fn has(&self, k: Seq<char>) -> bool {
        exists|i: int| 0 <= i < self.map@.len() && self.map@[i].0@ == k
    }

    spec fn index_of(&self, k: Seq<char>) -> int {
        choose|i: int| 0 <= i < self.map@.len() && self.map@[i].0@ == k
    }

    /// What is held of each key seen.
    pub closed spec fn view(&self) -> Map<Seq<char>, KeyLog> {
        Map::new(|k: Seq<char>| self.has(k), |k: Seq<char>| self.map@[self.index_of(k)].1@)
    }

    proof fn lemma_index_of(&self, i: int)
        requires
            self.wf(),
            0 <= i < self.map@.len(),
        ensures
            self.has(self.map@[i].0@),
            self.index_of(self.map@[i].0@) == i,
            self@.contains_key(self.map@[i].0@),
            self@[self.map@[i].0@] == self.map@[i].1@,
    {
        let k = self.map@[i].0@;
        assert(self.has(k));
        let j = self.index_of(k);
        assert(self.map@[j].0@ == k);
    }

    /// No key yet.
    pub fn new() -> (r: Messages)
        ensures
            r.wf(),
            r@ == Map::<Seq<char>, KeyLog>::empty(),
    {
        let r = Messages { map: Vec::new() };
        assert(r@ =~= Map::<Seq<char>, KeyLog>::empty());
        r
    }

    /// The position of `key`, if it is held.
    fn find(&self, key: &String) -> (r: Option<usize>)
        requires
            self.wf(),
        ensures
            match r {
                Some(i) => i < self.map@.len() && self.map@[i as int].0@ == key@,
                None => !self@.contains_key(key@),
            },
    {
        let mut i: usize = 0;
        while i < self.map.len()
            invariant
                i <= self.map@.len(),
                forall|j: int| 0 <= j < i ==> self.map@[j].0@ != key@,
            decreases self.map@.len() - i,
        {
            if self.map[i].0 == *key {
                return Some(i);
            }
            i = i + 1;
        }
        None
    }

    /// The position of `key`, which is added with an empty log and no commit
    /// pointer if it was not held yet.
    fn entry(&mut self, key: String) -> (r: usize)
        requires
            old(self).wf(),
        ensures
            final(self).wf(),
            r < final(self).map@.len(),
            final(self).map@[r as int].0@ == key@,
            old(self)@.contains_key(key@) ==> final(self)@ == old(self)@,
            !old(self)@.contains_key(key@) ==> final(self)@ == old(self)@.insert(
                key@,
                KeyLog { committed: None, msgs: Seq::empty() },
            ),
    {
        match self.find(&key) {
            Some(i) => {
                proof {
                    self.lemma_index_of(i as int);
                }
                i
            },
            None => {
                let ghost prev = *self;
                let ghost k = key@;
                self.map.push((key, COAM::new()));
                let n = self.map.len() - 1;
                assert forall|i: int, j: int|
                    0 <= i < self.map@.len() && 0 <= j < self.map@.len() && self.map@[i].0@
                        == self.map@[j].0@ implies i == j by {
                    if i < n && j < n {
                        assert(prev.map@[i] == self.map@[i]);
                        assert(prev.map@[j] == self.map@[j]);
                    } else if i < n {
                        assert(prev.map@[i] == self.map@[i]);
                        prev.lemma_index_of(i);
                    } else if j < n {
                        assert(prev.map@[j] == self.map@[j]);
                        prev.lemma_index_of(j);
                    }
                }
                assert forall|k2: Seq<char>| #[trigger]
                    self@.contains_key(k2) == prev@.insert(
                        k,
                        KeyLog { committed: None, msgs: Seq::empty() },
                    ).contains_key(k2) by {
                    if k2 == k {
                        assert(self.map@[n as int].0@ == k);
                    }
                    if self.has(k2) {
                        let i = self.index_of(k2);
                        if i < n {
                            assert(prev.map@[i] == self.map@[i]);
                        }
                    }
                    if prev.has(k2) {
                        let i = prev.index_of(k2);
                        assert(prev.map@[i] == self.map@[i]);
                    }
                }
                assert forall|k2: Seq<char>| #[trigger] self@.contains_key(k2) implies self@[k2]
                    == prev@.insert(k, KeyLog { committed: None, msgs: Seq::empty() })[k2] by {
                    let i = self.index_of(k2);
                    self.lemma_index_of(i);
                    if i < n {
                        assert(prev.map@[i] == self.map@[i]);
                        prev.lemma_index_of(i);
                    }
                }
                assert(self@ =~= prev@.insert(k, KeyLog { committed: None, msgs: Seq::empty() }));
                n
            },
        }
    }

    proof fn lemma_update(prev: &Messages, next: &Messages, i: int)
        requires
            prev.wf(),
            0 <= i < prev.map@.len(),
            next.map@.len() == prev.map@.len(),
            next.map@[i].0@ == prev.map@[i].0@,
            forall|j: int| 0 <= j < prev.map@.len() && j != i ==> next.map@[j] == prev.map@[j],
        ensures
            next.wf(),
            next@ == prev@.insert(prev.map@[i].0@, next.map@[i].1@),
    {
        let k = prev.map@[i].0@;
        assert forall|a: int, b: int|
            0 <= a < next.map@.len() && 0 <= b < next.map@.len() && next.map@[a].0@
                == next.map@[b].0@ implies a == b by {
            assert(prev.map@[a].0@ == next.map@[a].0@);
            assert(prev.map@[b].0@ == next.map@[b].0@);
        }
        assert forall|k2: Seq<char>| #[trigger]
            next@.contains_key(k2) == prev@.insert(k, next.map@[i].1@).contains_key(k2) by {
            if next.has(k2) {
                let a = next.index_of(k2);
                assert(prev.map@[a].0@ == next.map@[a].0@);
            }
            if prev.has(k2) {
                let a = prev.index_of(k2);
                assert(prev.map@[a].0@ == next.map@[a].0@);
            }
            if k2 == k {
                assert(next.map@[i].0@ == k);
            }
        }
        assert forall|k2: Seq<char>| #[trigger] next@.contains_key(k2) implies next@[k2]
            == prev@.insert(k, next.map@[i].1@)[k2] by {
            let a = next.index_of(k2);
            next.lemma_index_of(a);
            if a != i {
                assert(prev.map@[a] == next.map@[a]);
                prev.lemma_index_of(a);
            }
        }
        assert(next@ =~= prev@.insert(k, next.map@[i].1@));
    }

    /// Appends `msg` to the log of `key` and returns the offset it got: the
    /// length of that log before.
    pub fn add_msg(&mut self, key: String, msg: usize) -> (r: usize)
        requires
            old(self).wf(),
        ensures
            final(self).wf(),
            final(self)@ == appended(old(self)@, key@, msg),
            r == log_of(old(self)@, key@).len(),
    {
        let ghost k = key@;
        let i = self.entry(key);
        let ghost mid = *self;
        proof {
            mid.lemma_index_of(i as int);
        }
        self.map[i].1.msgs.push(msg);
        proof {
            Messages::lemma_update(&mid, self, i as int);
        }
        let r = self.map[i].1.msgs.len() - 1;
        assert(self@ =~= appended(old(self)@, k, msg));
        r
    }

    /// Overwrites the commit pointer of each key in `offsets`, in order.
    pub fn insert_commited_offsets(&mut self, offsets: Vec<(String, usize)>)
        requires
            old(self).wf(),
        ensures
            final(self).wf(),
            final(self)@ == committed_all(old(self)@, offsets_view(offsets@)),
    {
        let ghost s = offsets_view(offsets@);
        let mut i: usize = 0;
        while i < offsets.len()
            invariant
                self.wf(),
                i <= offsets@.len(),
                s == offsets_view(offsets@),
                self@ == committed_all(old(self)@, s.take(i as int)),
            decreases offsets@.len() - i,
        {
            let key = offsets[i].0.clone();
            let n = offsets[i].1;
            let ghost before = self@;
            let j = self.entry(key);
            let ghost mid = *self;
            proof {
                mid.lemma_index_of(j as int);
            }
            self.map[j].1.commited_offset = Some(n);
            proof {
                Messages::lemma_update(&mid, self, j as int);
                assert(s.take(i + 1).drop_last() =~= s.take(i as int));
            }
            assert(self@ =~= committed(before, s[i as int].0, n));
            i = i + 1;
        }
        assert(s.take(i as int) =~= s);
    }

    /// For each requested key that is held, in request order, its entries
    /// from the requested offset on.
    pub fn get_msgs(&self, offsets: &Vec<(String, usize)>) -> (r: Vec<(String, Vec<(usize, usize)>)>)
        requires
            self.wf(),
        ensures
            polled_view(r@) == polled(self@, offsets_view(offsets@)),
    {
        let ghost s = offsets_view(offsets@);
        let mut r: Vec<(String, Vec<(usize, usize)>)> = Vec::new();
        let mut i: usize = 0;
        while i < offsets.len()
            invariant
                self.wf(),
                i <= offsets@.len(),
                s == offsets_view(offsets@),
                polled_view(r@) == polled(self@, s.take(i as int)),
            decreases offsets@.len() - i,
        {
            proof {
                assert(s.take(i + 1).drop_last() =~= s.take(i as int));
            }
            match self.find(&offsets[i].0) {
                Some(j) => {
                    proof {
                        self.lemma_index_of(j as int);
                    }
                    let msgs = &self.map[j].1.msgs;
                    let o = offsets[i].1;
                    let mut entries: Vec<(usize, usize)> = Vec::new();
                    let mut t: usize = o;
                    while t < msgs.len()
                        invariant
                            o <= t,
                            t <= msgs@.len() || t == o,
                            entries@ =~= Seq::new(
                                (t - o) as nat,
                                |x: int| ((o + x) as usize, msgs@[o + x]),
                            ),
                        decreases msgs@.len() - t,
                    {
                        entries.push((t, msgs[t]));
                        t = t + 1;
                    }
                    assert(entries@ =~= entries_from(msgs@, o as int));
                    let ghost r0 = r@;
                    r.push((offsets[i].0.clone(), entries));
                    assert(polled_view(r@) =~= polled_view(r0).push((s[i as int].0, entries@)));
                },
                None => {},
            }
            i = i + 1;
        }
        assert(s.take(i as int) =~= s);
        r
    }

    /// The commit pointer of each requested key that has one, in request
    /// order.
    pub fn get_commited_offsets(&self, keys: &Vec<String>) -> (r: Vec<(String, usize)>)
        requires
            self.wf(),
        ensures
            offsets_view(r@) == listed(self@, strings_view(keys@)),
    {
        let ghost s = strings_view(keys@);
        let mut r: Vec<(String, usize)> = Vec::new();
        let mut i: usize = 0;
        while i < keys.len()
            invariant
                self.wf(),
                i <= keys@.len(),
                s == strings_view(keys@),
                offsets_view(r@) == listed(self@, s.take(i as int)),
            decreases keys@.len() - i,
        {
            proof {
                assert(s.take(i + 1).drop_last() =~= s.take(i as int));
            }
            match self.find(&keys[i]) {
                Some(j) => {
                    proof {
                        self.lemma_index_of(j as int);
                    }
                    match self.map[j].1.commited_offset {
                        Some(n) => {
                            let ghost r0 = r@;
                            r.push((keys[i].clone(), n));
                            assert(offsets_view(r@) =~= offsets_view(r0).push((s[i as int], n)));
                        },
                        None => {},
                    }
                },
                None => {},
            }
            i = i + 1;
        }
        assert(s.take(i as int) =~= s);
        r
    }
}

} // verus!
