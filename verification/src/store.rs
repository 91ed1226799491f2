//! Consumer-side store of captured lines.
//!
//! The store appends drained lines in arrival order, keeps at most
//! `MAX_LOG_LINES` of them — evicting the oldest first once the cap is
//! reached — and presents the subset visible under the current search query.
//! It also owns the autoscroll mode, fed by the display layer's reports.

use vstd::prelude::*;

use crate::autoscroll::{next_mode, spec_target_offset, ScrollMode};
use crate::queue::{lemma_pushes_in_capacity_kept, queue_push_all_model, QUEUE_CAPACITY};
use crate::text::{line_visible, matches_query};

verus! {

/// Most lines the store keeps; beyond it, the oldest lines are evicted.
pub const MAX_LOG_LINES: usize = 50000;

/// Consumer-owned buffer of received lines, the active search query, and the
/// autoscroll mode.
pub struct LogStore {
    items: Vec<String>,
    query: String,
    scroll: ScrollMode,
}

/// One append under the cap: pushed when there is room, otherwise the oldest
/// line leaves first.
pub open spec fn evict_push_model(cur: Seq<Seq<char>>, line: Seq<char>) -> Seq<Seq<char>> {
    if cur.len() < MAX_LOG_LINES {
        cur.push(line)
    } else {
        cur.drop_first().push(line)
    }
}

/// The buffer after appending `new` to `cur` under the cap: the newest
/// `MAX_LOG_LINES` of the concatenation, in order.
pub open spec fn store_append_model(cur: Seq<Seq<char>>, new: Seq<Seq<char>>) -> Seq<Seq<char>> {
    let all = cur + new;
    if all.len() <= MAX_LOG_LINES {
        all
    } else {
        all.subrange(all.len() - MAX_LOG_LINES, all.len() as int)
    }
}

/// The lines of `lines` visible under `query`, in order.
pub open spec fn visible_model(lines: Seq<Seq<char>>, query: Seq<char>) -> Seq<Seq<char>> {
    lines.filter(|l: Seq<char>| line_visible(l, query))
}

/// Appending line by line agrees with appending all at once.
pub proof fn lemma_store_append_step(cur: Seq<Seq<char>>, new: Seq<Seq<char>>, i: int)
    requires
        0 <= i < new.len(),
        cur.len() <= MAX_LOG_LINES,
    ensures
        store_append_model(cur, new.take(i + 1)) == evict_push_model(
            store_append_model(cur, new.take(i)),
            new[i],
        ),
{
    let a = cur + new.take(i);
    let b = cur + new.take(i + 1);
    assert(b =~= a.push(new[i]));
    let m = store_append_model(cur, new.take(i));
    if a.len() < MAX_LOG_LINES {
        assert(store_append_model(cur, new.take(i + 1)) =~= m.push(new[i]));
    } else if a.len() == MAX_LOG_LINES {
        assert(store_append_model(cur, new.take(i + 1)) =~= m.drop_first().push(new[i]));
    } else {
        assert(m =~= a.subrange(a.len() - MAX_LOG_LINES, a.len() as int));
        assert(store_append_model(cur, new.take(i + 1)) =~= m.drop_first().push(new[i]));
    }
}

impl LogStore {
    /// The buffered lines, oldest first.
    pub closed spec fn lines(&self) -> Seq<Seq<char>> {
        self.items.deep_view()
    }

    /// The active search query.
    pub closed spec fn query(&self) -> Seq<char> {
        self.query@
    }

    /// The autoscroll mode.
    pub closed spec fn mode(&self) -> ScrollMode {
        self.scroll
    }

    /// The cap every store observes.
    pub open spec fn wf(&self) -> bool {
        self.lines().len() <= MAX_LOG_LINES
    }

    /// A fresh store: no lines, an empty query, and the view following new
    /// output.
    pub fn new() -> (s: LogStore)
        ensures
            s.lines() == Seq::<Seq<char>>::empty(),
            s.query() == Seq::<char>::empty(),
            s.mode() == ScrollMode::Following,
            s.wf(),
    {
        let s = LogStore { items: Vec::new(), query: String::new(), scroll: ScrollMode::Following };
        proof {
            assert(s.lines() =~= Seq::<Seq<char>>::empty());
        }
        s
    }

    /// Append one line under the cap.
    fn append_one(&mut self, line: String)
        requires
            old(self).wf(),
        ensures
            final(self).wf(),
            final(self).lines() == evict_push_model(old(self).lines(), line@),
            final(self).query() == old(self).query(),
            final(self).mode() == old(self).mode(),
    {
        if self.items.len() >= MAX_LOG_LINES {
            self.items.remove(0);
            proof {
                assert(self.items.deep_view() =~= old(self).lines().drop_first());
            }
        }
        let ghost before: Seq<Seq<char>> = self.items.deep_view();
        self.items.push(line);
        proof {
            assert(self.items.deep_view() =~= before.push(line@));
        }
    }

    /// Extend the buffer with drained lines, in the order received, evicting
    /// the oldest lines once the cap would be exceeded. The query and the
    /// autoscroll mode are untouched.
    pub fn append_all(&mut self, new: Vec<String>)
        requires
            old(self).wf(),
        ensures
            final(self).wf(),
            final(self).lines() == store_append_model(old(self).lines(), new.deep_view()),
            final(self).query() == old(self).query(),
            final(self).mode() == old(self).mode(),
    {
        let ghost orig: Seq<Seq<char>> = self.lines();
        let ghost orig_query: Seq<char> = self.query();
        let ghost orig_mode: ScrollMode = self.mode();
        let n = new.len();
        let mut i: usize = 0;
        proof {
            assert(new.deep_view().take(0) =~= Seq::<Seq<char>>::empty());
            assert(orig + Seq::<Seq<char>>::empty() =~= orig);
        }
        while i < n
            invariant
                i <= n,
                n == new.deep_view().len(),
                orig.len() <= MAX_LOG_LINES,
                self.wf(),
                self.lines() == store_append_model(orig, new.deep_view().take(i as int)),
                self.query() == orig_query,
                self.mode() == orig_mode,
            decreases n - i,
        {
            let line = new[i].clone();
            proof {
                assert(line@ == new.deep_view()[i as int]);
                lemma_store_append_step(orig, new.deep_view(), i as int);
            }
            self.append_one(line);
            i = i + 1;
        }
        proof {
            assert(new.deep_view().take(n as int) =~= new.deep_view());
        }
    }

    /// Replace the search query. The buffer and the autoscroll mode are
    /// untouched.
    pub fn set_query(&mut self, query: String)
        ensures
            final(self).query() == query@,
            final(self).lines() == old(self).lines(),
            final(self).mode() == old(self).mode(),
    {
        self.query = query;
    }

    /// Empty the buffer unconditionally. The query and the autoscroll mode
    /// are untouched.
    pub fn clear(&mut self)
        ensures
            final(self).lines() == Seq::<Seq<char>>::empty(),
            final(self).query() == old(self).query(),
            final(self).mode() == old(self).mode(),
            final(self).wf(),
    {
        self.items.clear();
        proof {
            assert(self.items.deep_view() =~= Seq::<Seq<char>>::empty());
        }
    }

    /// The lines visible under the current query, oldest first: every line
    /// while the query is empty, else exactly those whose lowercase form
    /// contains the query's lowercase form.
    pub fn visible_lines(&self) -> (r: Vec<String>)
        ensures
            r.deep_view() == visible_model(self.lines(), self.query()),
    {
        let mut r: Vec<String> = Vec::new();
        let n = self.items.len();
        let mut i: usize = 0;
        proof {
            assert(r.deep_view() =~= Seq::<Seq<char>>::empty());
            assert(self.lines().take(0) =~= Seq::<Seq<char>>::empty());
        }
        while i < n
            invariant
                i <= n,
                n == self.lines().len(),
                r.deep_view() == visible_model(self.lines().take(i as int), self.query()),
            decreases n - i,
        {
            let ghost prev: Seq<Seq<char>> = r.deep_view();
            let visible = matches_query(self.items[i].as_str(), self.query.as_str());
            proof {
                assert(self.lines()[i as int] == self.items@[i as int]@);
                lemma_visible_step(self.lines(), self.query(), i as int);
            }
            if visible {
                r.push(self.items[i].clone());
                proof {
                    assert(r.deep_view() =~= prev.push(self.lines()[i as int]));
                }
            }
            i = i + 1;
        }
        proof {
            assert(self.lines().take(n as int) =~= self.lines());
        }
        r
    }

    /// Fold one display report into the autoscroll mode. The buffer and the
    /// query are untouched.
    pub fn observe_scroll(&mut self, offset: u64, max: u64, scrolled: bool)
        requires
            offset <= max,
        ensures
            final(self).mode() == next_mode(old(self).mode(), offset, max, scrolled),
            final(self).lines() == old(self).lines(),
            final(self).query() == old(self).query(),
    {
        self.scroll.observe(offset, max, scrolled);
    }

    /// The scroll offset the display should apply for this render: the
    /// bottom while following, the reported offset while pinned.
    pub fn target_offset(&self, offset: u64, max: u64) -> (r: u64)
        ensures
            r == spec_target_offset(self.mode(), offset, max),
    {
        self.scroll.target_offset(offset, max)
    }
}

/// Growing a visible view one line at a time agrees with filtering all at
/// once.
pub proof fn lemma_visible_step(lines: Seq<Seq<char>>, query: Seq<char>, i: int)
    requires
        0 <= i < lines.len(),
    ensures
        visible_model(lines.take(i + 1), query) == (if line_visible(lines[i], query) {
            visible_model(lines.take(i), query).push(lines[i])
        } else {
            visible_model(lines.take(i), query)
        }),
{
    reveal(Seq::filter);
    assert(lines.take(i + 1).drop_last() =~= lines.take(i));
    assert(lines.take(i + 1).last() == lines[i]);
}

/// An empty query hides nothing: the visible view is the whole buffer.
pub proof fn lemma_visible_empty_query(lines: Seq<Seq<char>>)
    ensures
        visible_model(lines, Seq::<char>::empty()) == lines,
    decreases lines.len(),
{
    reveal(Seq::filter);
    if lines.len() == 0 {
        assert(visible_model(lines, Seq::<char>::empty()) =~= lines);
    } else {
        lemma_visible_empty_query(lines.drop_last());
        assert(line_visible(lines.last(), Seq::<char>::empty()));
        assert(visible_model(lines, Seq::<char>::empty()) =~= lines);
    }
}

/// Every visible line matches the query: under a non-empty query, its
/// lowercase form contains the query's lowercase form.
pub proof fn lemma_visible_only_matching(lines: Seq<Seq<char>>, query: Seq<char>)
    ensures
        forall|i: int|
            0 <= i < visible_model(lines, query).len() ==> line_visible(
                #[trigger] visible_model(lines, query)[i],
                query,
            ),
    decreases lines.len(),
{
    reveal(Seq::filter);
    if lines.len() > 0 {
        lemma_visible_only_matching(lines.drop_last(), query);
        assert(visible_model(lines, query) == (if line_visible(lines.last(), query) {
            visible_model(lines.drop_last(), query).push(lines.last())
        } else {
            visible_model(lines.drop_last(), query)
        }));
    }
}

/// After a clear, any query sees an empty view.
pub proof fn lemma_clear_hides_all(query: Seq<char>)
    ensures
        visible_model(Seq::<Seq<char>>::empty(), query) == Seq::<Seq<char>>::empty(),
{
    reveal(Seq::filter);
    assert(visible_model(Seq::<Seq<char>>::empty(), query) =~= Seq::<Seq<char>>::empty());
}

/// One stream writing alone is reproduced exactly: pushed in write order
/// through an empty queue, drained, appended to an empty store, and viewed
/// under an empty query, the lines come back unchanged and in order.
pub proof fn lemma_single_stream_round_trip(lines: Seq<Seq<char>>)
    requires
        lines.len() <= QUEUE_CAPACITY,
        lines.len() <= MAX_LOG_LINES,
    ensures
        queue_push_all_model(Seq::<Seq<char>>::empty(), lines) == lines,
        store_append_model(Seq::<Seq<char>>::empty(), lines) == lines,
        visible_model(store_append_model(Seq::<Seq<char>>::empty(), lines), Seq::<char>::empty())
            == lines,
{
    lemma_pushes_in_capacity_kept(Seq::<Seq<char>>::empty(), lines);
    assert(Seq::<Seq<char>>::empty() + lines =~= lines);
    lemma_visible_empty_query(lines);
}

/// The lines of a sequence of writes, in write order. A write pairs the
/// stream it came from — `true` for the error stream — with its line.
pub open spec fn write_lines(ws: Seq<(bool, Seq<char>)>) -> Seq<Seq<char>> {
    ws.map_values(|w: (bool, Seq<char>)| w.1)
}

/// The writes of one of the two streams, in write order.
pub open spec fn stream_writes(ws: Seq<(bool, Seq<char>)>, from_err: bool) -> Seq<
    (bool, Seq<char>),
> {
    ws.filter(|w: (bool, Seq<char>)| w.0 == from_err)
}

/// `sub` stands inside `sup`, in order, at the strictly increasing positions
/// `at`.
pub open spec fn embeds_at(sub: Seq<Seq<char>>, sup: Seq<Seq<char>>, at: Seq<int>) -> bool {
    &&& at.len() == sub.len()
    &&& forall|k: int| 0 <= k < at.len() ==> 0 <= #[trigger] at[k] < sup.len() && sup[at[k]] == sub[k]
    &&& forall|k: int| 0 < k < at.len() ==> at[k - 1] < #[trigger] at[k]
}

/// Each stream's lines stand inside the interleaving in their own write
/// order.
pub proof fn lemma_stream_order_kept(ws: Seq<(bool, Seq<char>)>, from_err: bool)
    ensures
        exists|at: Seq<int>|
            embeds_at(write_lines(stream_writes(ws, from_err)), write_lines(ws), at),
    decreases ws.len(),
{
    reveal(Seq::filter);
    if ws.len() == 0 {
        assert(embeds_at(
            write_lines(stream_writes(ws, from_err)),
            write_lines(ws),
            Seq::<int>::empty(),
        ));
    } else {
        lemma_stream_order_kept(ws.drop_last(), from_err);
        let at = choose|at: Seq<int>|
            embeds_at(
                write_lines(stream_writes(ws.drop_last(), from_err)),
                write_lines(ws.drop_last()),
                at,
            );
        assert(write_lines(ws) =~= write_lines(ws.drop_last()).push(ws.last().1));
        if ws.last().0 == from_err {
            assert(write_lines(stream_writes(ws, from_err)) =~= write_lines(
                stream_writes(ws.drop_last(), from_err),
            ).push(ws.last().1));
            let at2 = at.push(ws.len() - 1);
            assert(embeds_at(write_lines(stream_writes(ws, from_err)), write_lines(ws), at2));
        } else {
            assert(write_lines(stream_writes(ws, from_err)) =~= write_lines(
                stream_writes(ws.drop_last(), from_err),
            ));
            assert(embeds_at(write_lines(stream_writes(ws, from_err)), write_lines(ws), at));
        }
    }
}

/// Any interleaving of the two streams' writes is reproduced exactly: pushed
/// in arrival order through an empty queue, appended to an empty store, and
/// viewed under an empty query, the store shows the interleaved lines
/// themselves — so the collection of visible lines is the collection
/// written, and each stream's lines keep their own order inside the view.
pub proof fn lemma_interleaved_streams_kept(ws: Seq<(bool, Seq<char>)>)
    requires
        ws.len() <= QUEUE_CAPACITY,
        ws.len() <= MAX_LOG_LINES,
    ensures
        queue_push_all_model(Seq::<Seq<char>>::empty(), write_lines(ws)) == write_lines(ws),
        visible_model(
            store_append_model(Seq::<Seq<char>>::empty(), write_lines(ws)),
            Seq::<char>::empty(),
        ) == write_lines(ws),
        visible_model(
            store_append_model(Seq::<Seq<char>>::empty(), write_lines(ws)),
            Seq::<char>::empty(),
        ).to_multiset() == write_lines(ws).to_multiset(),
        exists|at: Seq<int>|
            embeds_at(write_lines(stream_writes(ws, false)), write_lines(ws), at),
        exists|at: Seq<int>|
            embeds_at(write_lines(stream_writes(ws, true)), write_lines(ws), at),
{
    lemma_single_stream_round_trip(write_lines(ws));
    lemma_stream_order_kept(ws, false);
    lemma_stream_order_kept(ws, true);
}

} // verus!
