//! The play queue of the active output: the paths waiting to be played,
//! in order.

use vstd::prelude::*;
use crate::models::QueueMode;
use crate::text::str_eq;

verus! {

/// Index of the first occurrence of `x`.
pub open spec fn index_of(s: Seq<Seq<char>>, x: Seq<char>) -> Option<int>
    decreases s.len(),
{
    if s.len() == 0 {
        None
    } else if s[0] == x {
        Some(0)
    } else {
        match index_of(s.drop_first(), x) {
            Some(i) => Some(i + 1),
            None => None,
        }
    }
}

/// The queue after a play request with a queue mode: `Keep` leaves it,
/// `Replace` empties it, `Append` adds the path unless it is queued.
pub open spec fn apply_mode_spec(items: Seq<Seq<char>>, path: Seq<char>, mode: QueueMode) -> Seq<Seq<char>> {
    match mode {
        QueueMode::Keep => items,
        QueueMode::Replace => Seq::empty(),
        QueueMode::Append => if items.contains(path) {
            items
        } else {
            items.push(path)
        },
    }
}

/// The queue after removing a path: its first occurrence goes.
pub open spec fn remove_spec(items: Seq<Seq<char>>, path: Seq<char>) -> Seq<Seq<char>> {
    match index_of(items, path) {
        Some(i) => items.remove(i),
        None => items,
    }
}

/// The queue after playing a queued path: it and everything ahead of it
/// go.
pub open spec fn play_from_spec(items: Seq<Seq<char>>, path: Seq<char>) -> Seq<Seq<char>> {
    match index_of(items, path) {
        Some(i) => items.skip(i + 1),
        None => items,
    }
}

/// The views of strings.
pub open spec fn string_views(v: Seq<String>) -> Seq<Seq<char>> {
    v.map_values(|s: String| s@)
}

/// The views after a push.
pub proof fn lemma_views_push(v: Seq<String>, x: String)
    ensures
        string_views(v.push(x)) == string_views(v).push(x@),
{
    let a = string_views(v.push(x));
    let b = string_views(v).push(x@);
    assert(a.len() == b.len());
    assert forall|k: int| 0 <= k < a.len() implies a[k] == b[k] by {
        if k < v.len() {
            assert(v.push(x)[k] == v[k]);
        } else {
            assert(v.push(x)[k] == x);
        }
    }
    assert(a =~= b);
}

/// The views of a prefix.
pub proof fn lemma_views_take(v: Seq<String>, i: int)
    requires
        0 <= i < v.len(),
    ensures
        string_views(v).take(i + 1) == string_views(v).take(i).push(v[i]@),
{
    assert(string_views(v).take(i + 1) =~= string_views(v).take(i).push(v[i]@));
}

/// Where the first occurrence stands, when there is one.
pub proof fn lemma_index_of(s: Seq<Seq<char>>, x: Seq<char>)
    ensures
        index_of(s, x) matches Some(i) ==> (0 <= i < s.len() && s[i] == x && forall|j: int|
            0 <= j < i ==> #[trigger] s[j] != x),
        index_of(s, x) is None <==> !s.contains(x),
    decreases s.len(),
{
    if s.len() > 0 {
        let t = s.drop_first();
        lemma_index_of(t, x);
        if s[0] != x {
            assert forall|j: int| 0 < j < s.len() implies #[trigger] s[j] == t[j - 1] by {}
            if t.contains(x) {
                let k = choose|k: int| 0 <= k < t.len() && t[k] == x;
                assert(s[k + 1] == x);
            }
            if s.contains(x) {
                let k = choose|k: int| 0 <= k < s.len() && s[k] == x;
                assert(t[k - 1] == x);
            }
        } else {
            assert(s[0] == x);
        }
    }
}

/// The play queue.
pub struct PlayQueue {
    items: Vec<String>,
}

impl View for PlayQueue {
    type V = Seq<Seq<char>>;

    closed spec fn view(&self) -> Seq<Seq<char>> {
        string_views(self.items@)
    }
}

impl PlayQueue {
    /// An empty queue.
    pub fn new() -> (r: Self)
        ensures
            r@ == Seq::<Seq<char>>::empty(),
    {
        let r = PlayQueue { items: Vec::new() };
        assert(r@ =~= Seq::<Seq<char>>::empty());
        r
    }

    /// Number of queued paths.
    pub fn len(&self) -> (r: usize)
        ensures
            r == self@.len(),
    {
        self.items.len()
    }

    /// The queued paths, in order.
    pub fn items(&self) -> (r: Vec<String>)
        ensures
            string_views(r@) == self@,
    {
        let mut out: Vec<String> = Vec::new();
        let mut i: usize = 0;
        while i < self.items.len()
            invariant
                i <= self.items@.len(),
                string_views(out@) == string_views(self.items@).take(i as int),
            decreases self.items@.len() - i,
        {
            let s = self.items[i].clone();
            let ghost before = out@;
            out.push(s);
            assert(out@ == before.push(self.items@[i as int]));
            proof {
                lemma_views_push(before, self.items@[i as int]);
                lemma_views_take(self.items@, i as int);
            }
            i = i + 1;
        }
        assert(string_views(self.items@).take(self.items@.len() as int) =~= string_views(self.items@));
        out
    }

    fn position(&self, path: &str) -> (r: Option<usize>)
        ensures
            match index_of(self@, path@) {
                Some(i) => r == Some(i as usize),
                None => r is None,
            },
    {
        proof {
            lemma_index_of(self@, path@);
        }
        let mut i: usize = 0;
        while i < self.items.len()
            invariant
                i <= self.items@.len(),
                self@ == string_views(self.items@),
                forall|j: int| 0 <= j < i ==> #[trigger] self@[j] != path@,
                index_of(self@, path@) matches Some(k) ==> (0 <= k < self@.len() && self@[k] == path@ && forall|j: int|
                    0 <= j < k ==> #[trigger] self@[j] != path@),
                index_of(self@, path@) is None <==> !self@.contains(path@),
            decreases self.items@.len() - i,
        {
            if str_eq(self.items[i].as_str(), path) {
                assert(self@[i as int] == path@);
                proof {
                    match index_of(self@, path@) {
                        Some(k) => {
                            if k < i {
                                assert(self@[k] != path@);
                            }
                            if k > i {
                                assert(self@[i as int] != path@);
                            }
                        },
                        None => {
                            assert(self@.contains(path@));
                        },
                    }
                }
                return Some(i);
            }
            i = i + 1;
        }
        proof {
            if let Some(k) = index_of(self@, path@) {
                assert(self@[k] != path@);
            }
        }
        None
    }

    /// Whether a path is queued.
    pub fn contains(&self, path: &str) -> (r: bool)
        ensures
            r == self@.contains(path@),
    {
        proof {
            lemma_index_of(self@, path@);
        }
        self.position(path).is_some()
    }

    /// Applies the queue mode of a play request for `path`.
    pub fn apply_queue_mode(&mut self, path: &str, mode: QueueMode)
        ensures
            final(self)@ == apply_mode_spec(old(self)@, path@, mode),
    {
        match mode {
            QueueMode::Keep => {},
            QueueMode::Replace => {
                self.items = Vec::new();
                assert(self@ =~= Seq::<Seq<char>>::empty());
            },
            QueueMode::Append => {
                if !self.contains(path) {
                    let ghost before = self@;
                    self.items.push(path.to_string());
                    assert(self@ =~= before.push(path@));
                }
            },
        }
    }

    /// Appends paths in order; returns how many were added.
    pub fn add_paths(&mut self, paths: Vec<String>) -> (r: usize)
        ensures
            final(self)@ == old(self)@ + string_views(paths@),
            r == paths@.len(),
    {
        let n = paths.len();
        let mut i: usize = 0;
        while i < n
            invariant
                n == paths@.len(),
                i <= n,
                self@ == old(self)@ + string_views(paths@).take(i as int),
            decreases n - i,
        {
            let ghost before = self@;
            let p = paths[i].clone();
            self.items.push(p);
            assert(self@ =~= before.push(paths@[i as int]@));
            assert(string_views(paths@).take(i + 1) =~= string_views(paths@).take(i as int).push(paths@[i as int]@));
            i = i + 1;
        }
        assert(string_views(paths@).take(n as int) =~= string_views(paths@));
        n
    }

    /// Puts paths at the front, in the order given; returns how many were
    /// added.
    pub fn add_next_paths(&mut self, paths: Vec<String>) -> (r: usize)
        ensures
            final(self)@ == string_views(paths@) + old(self)@,
            r == paths@.len(),
    {
        let n = paths.len();
        let mut fresh: Vec<String> = paths;
        let mut i: usize = 0;
        let ghost front = string_views(fresh@);
        while i < self.items.len()
            invariant
                i <= self.items@.len(),
                self.items@ == old(self).items@,
                string_views(fresh@) == front + string_views(self.items@).take(i as int),
            decreases self.items@.len() - i,
        {
            let s = self.items[i].clone();
            let ghost before = fresh@;
            fresh.push(s);
            assert(fresh@ == before.push(self.items@[i as int]));
            proof {
                lemma_views_push(before, self.items@[i as int]);
                lemma_views_take(self.items@, i as int);
                assert(front + string_views(self.items@).take(i + 1) =~= (front + string_views(self.items@).take(i as int)).push(self.items@[i as int]@));
            }
            i = i + 1;
        }
        assert(string_views(self.items@).take(self.items@.len() as int) =~= string_views(self.items@));
        self.items = fresh;
        n
    }

    /// Removes the first occurrence of a path; tells whether it was queued.
    pub fn remove_path(&mut self, path: &str) -> (r: bool)
        ensures
            final(self)@ == remove_spec(old(self)@, path@),
            r == old(self)@.contains(path@),
    {
        proof {
            lemma_index_of(self@, path@);
        }
        let ghost before = self@;
        assert(before.len() == self.items@.len());
        let n = self.items.len();
        let pos = self.position(path);
        match pos {
            Some(i) => {
                proof {
                    match index_of(before, path@) {
                        Some(k) => {
                            assert(0 <= k < before.len());
                            assert(pos == Some(k as usize));
                            assert(k == i);
                        },
                        None => {},
                    }
                }
                self.items.remove(i);
                assert(self@ =~= before.remove(i as int));
                assert(remove_spec(before, path@) == before.remove(i as int));
                true
            },
            None => false,
        }
    }

    /// Drops the queued items up to and including `path`; tells whether it
    /// was queued.
    pub fn play_from(&mut self, path: &str) -> (r: bool)
        ensures
            final(self)@ == play_from_spec(old(self)@, path@),
            r == old(self)@.contains(path@),
    {
        proof {
            lemma_index_of(self@, path@);
        }
        let ghost before = self@;
        assert(before.len() == self.items@.len());
        match self.position(path) {
            Some(i) => {
                assert(i < self.items.len());
                let mut rest: Vec<String> = Vec::new();
                let mut j: usize = i + 1;
                while j < self.items.len()
                    invariant
                        i < self.items@.len(),
                        i + 1 <= j <= self.items@.len(),
                        self@ == before,
                        string_views(rest@) == before.subrange(i + 1, j as int),
                    decreases self.items@.len() - j,
                {
                    let s = self.items[j].clone();
                    let ghost rb = rest@;
                    rest.push(s);
                    assert(rest@ == rb.push(self.items@[j as int]));
                    proof {
                        lemma_views_push(rb, self.items@[j as int]);
                        assert(before[j as int] == self.items@[j as int]@);
                        assert(before.subrange(i + 1, j + 1) =~= before.subrange(i + 1, j as int).push(before[j as int]));
                    }
                    j = j + 1;
                }
                self.items = rest;
                assert(self@ =~= before.skip(i + 1));
                true
            },
            None => false,
        }
    }

    /// Empties the queue.
    pub fn clear(&mut self)
        ensures
            final(self)@ == Seq::<Seq<char>>::empty(),
    {
        self.items = Vec::new();
        assert(self@ =~= Seq::<Seq<char>>::empty());
    }

    /// Takes the next path off the front, when there is one.
    pub fn pop_next(&mut self) -> (r: Option<String>)
        ensures
            old(self)@.len() == 0 ==> r is None && final(self)@ == old(self)@,
            old(self)@.len() > 0 ==> (r matches Some(p) && p@ == old(self)@[0] && final(self)@
                == old(self)@.drop_first()),
    {
        if self.items.len() == 0 {
            return None;
        }
        let ghost before = self@;
        let p = self.items.remove(0);
        assert(self@ =~= before.drop_first());
        Some(p)
    }
}

/// Appending a path that a play request already appended changes nothing.
pub proof fn law_append_is_idempotent(items: Seq<Seq<char>>, path: Seq<char>)
    ensures
        apply_mode_spec(apply_mode_spec(items, path, QueueMode::Append), path, QueueMode::Append)
            == apply_mode_spec(items, path, QueueMode::Append),
        apply_mode_spec(items, path, QueueMode::Append).contains(path),
{
    if !items.contains(path) {
        assert(items.push(path)[items.len() as int] == path);
    }
}

/// Removing a path just added to a queue that did not hold it gives the
/// queue back.
pub proof fn law_remove_undoes_add(items: Seq<Seq<char>>, path: Seq<char>)
    requires
        !items.contains(path),
    ensures
        remove_spec(items.push(path), path) == items,
{
    let s = items.push(path);
    lemma_index_of(s, path);
    lemma_index_of(items, path);
    match index_of(s, path) {
        Some(i) => {
            if i < items.len() {
                assert(items[i] == path);
            }
            assert(s.remove(i) =~= items);
        },
        None => {
            assert(s[items.len() as int] == path);
        },
    }
}

/// Playing a queued path leaves exactly what was queued after it, and it
/// no longer stands first.
pub proof fn law_play_from_keeps_what_follows(items: Seq<Seq<char>>, path: Seq<char>, i: int)
    requires
        0 <= i < items.len(),
        items[i] == path,
        !items.take(i).contains(path),
    ensures
        play_from_spec(items, path) == items.skip(i + 1),
{
    lemma_index_of(items, path);
    match index_of(items, path) {
        Some(k) => {
            if k < i {
                assert(items.take(i)[k] == path);
            }
            if k > i {
                assert(items[i] != path);
            }
        },
        None => {
            assert(items.contains(path));
        },
    }
}

/// What a queue-clear request clears: `(queue, history)`; without a body
/// the queue is cleared and the history kept.
pub fn clear_options(req: Option<&crate::models::QueueClearRequest>) -> (r: (bool, bool))
    ensures
        r == match req {
            Some(q) => (q.clear_queue, q.clear_history),
            None => (true, false),
        },
{
    match req {
        Some(q) => (q.clear_queue, q.clear_history),
        None => (true, false),
    }
}

/// The answer to an add request: `added {count}`.
pub fn added_message(count: usize) -> (r: String)
    ensures
        r@ == "added "@ + crate::text::decimal(count as int),
{
    let mut c: Vec<char> = Vec::new();
    crate::text::push_str_chars(&mut c, "added ");
    crate::text::push_digits(&mut c, count as u64);
    crate::strings::string_from_chars(c.as_slice())
}

} // verus!
