//! The notifications shown in a corner of the window: each gets the next
//! sequence number, at most four are kept, and they leave when dismissed
//! or expired.
use vstd::prelude::*;
use std::collections::VecDeque;
use crate::palette::{rgb, Rgb};

verus! {

/// The most notifications shown at once.
pub const MAX_TOASTS: usize = 4;

/// How serious a notice is; it decides the notification's colours and how long it stays.
#[derive(Clone, Copy, Debug, PartialEq, Eq, Structural)]
pub enum NoticeLevel {
    Info,
    Success,
    Warning,
    Failure,
}

/// Seconds a notification of this level stays: two for information and
/// success, three for warnings, four for failures.
pub open spec fn seconds_shown(level: NoticeLevel) -> u64 {
    match level {
        NoticeLevel::Info => 2,
        NoticeLevel::Success => 2,
        NoticeLevel::Warning => 3,
        NoticeLevel::Failure => 4,
    }
}

impl NoticeLevel {
    /// Seconds a notification of this level stays.
    pub fn duration_secs(&self) -> (r: u64)
        ensures
            r == seconds_shown(*self),
    {
        match self {
            NoticeLevel::Info => 2,
            NoticeLevel::Success => 2,
            NoticeLevel::Warning => 3,
            NoticeLevel::Failure => 4,
        }
    }
}

/// A message for the user, with an optional title.
pub struct Notice {
    pub level: NoticeLevel,
    pub title: Option<String>,
    pub message: String,
}

/// The number after `seq`, wrapping to 0 after the largest.
pub open spec fn next_seq(seq: u64) -> u64 {
    if seq == u64::MAX {
        0
    } else {
        (seq + 1) as u64
    }
}

/// The notifications shown, oldest first, each with its number and payload.
pub struct ToastQueue<T> {
    seq: u64,
    items: VecDeque<(u64, T)>,
}

/// The entries of `items` whose number is not in `ids`, in order.
pub open spec fn without_ids<T>(items: Seq<(u64, T)>, ids: Seq<u64>) -> Seq<(u64, T)>
    decreases items.len(),
{
    if items.len() == 0 {
        Seq::empty()
    } else {
        let rest = without_ids(items.drop_last(), ids);
        if ids.contains(items.last().0) {
            rest
        } else {
            rest.push(items.last())
        }
    }
}

/// The entries of `items` whose flag is set, in order.
pub open spec fn flagged<T>(items: Seq<(u64, T)>, keep: Seq<bool>) -> Seq<(u64, T)>
    decreases items.len(),
{
    if items.len() == 0 {
        Seq::empty()
    } else {
        let rest = flagged(items.drop_last(), keep);
        if keep[items.len() - 1] {
            rest.push(items.last())
        } else {
            rest
        }
    }
}

impl<T> ToastQueue<T> {
    /// The entries shown, oldest first.
    pub closed spec fn entries(&self) -> Seq<(u64, T)> {
        self.items@
    }

    /// The number the last notification got (0 before any).
    pub closed spec fn last_seq(&self) -> u64 {
        self.seq
    }

    /// An empty queue.
    pub fn new() -> (r: Self)
        ensures
            r.entries() == Seq::<(u64, T)>::empty(),
            r.last_seq() == 0,
    {
        ToastQueue { seq: 0, items: VecDeque::new() }
    }

    /// Adds a notification under the next number, dropping the oldest ones
    /// beyond `MAX_TOASTS`; returns its number.
    pub fn push(&mut self, payload: T) -> (id: u64)
        ensures
            id == next_seq(old(self).last_seq()),
            final(self).last_seq() == id,
            ({
                let all = old(self).entries().push((id, payload));
                final(self).entries() == if all.len() > MAX_TOASTS {
                    all.skip(all.len() - MAX_TOASTS)
                } else {
                    all
                }
            }),
    {
        let id = if self.seq == u64::MAX { 0 } else { self.seq + 1 };
        self.seq = id;
        self.items.push_back((id, payload));
        let ghost all = self.items@;
        while self.items.len() > MAX_TOASTS
            invariant
                all.len() >= self.items.len(),
                self.items@ == all.skip(all.len() - self.items.len()),
                self.items.len() >= MAX_TOASTS || self.items@ == all,
                self.seq == id,
            decreases self.items.len(),
        {
            self.items.pop_front();
        }
        proof {
            if all.len() <= MAX_TOASTS {
                assert(self.items@ == all);
            } else {
                assert(self.items.len() == MAX_TOASTS);
            }
        }
        id
    }

    /// Removes the notifications with the given numbers.
    pub fn dismiss(&mut self, ids: &Vec<u64>)
        ensures
            final(self).entries() == without_ids(old(self).entries(), ids@),
            final(self).last_seq() == old(self).last_seq(),
    {
        let mut kept: VecDeque<(u64, T)> = VecDeque::new();
        let ghost start = self.items@;
        let total = self.items.len();
        let mut consumed: usize = 0;
        while self.items.len() > 0
            invariant
                consumed + self.items.len() == start.len() == total,
                self.items@ == start.skip(consumed as int),
                kept@ == without_ids(start.take(consumed as int), ids@),
                self.seq == old(self).seq,
            decreases self.items.len(),
        {
            let item = self.items.pop_front().unwrap();
            proof {
                assert(start.take(consumed + 1).drop_last() == start.take(consumed as int));
                assert(start.take(consumed + 1).last() == item);
                assert(start.skip(consumed + 1) == start.skip(consumed as int).drop_first());
            }
            let mut hit = false;
            let mut k: usize = 0;
            while k < ids.len()
                invariant
                    k <= ids.len(),
                    hit == (exists|j: int| 0 <= j < k && ids@[j] == item.0),
                decreases ids.len() - k,
            {
                if ids[k] == item.0 {
                    hit = true;
                }
                k = k + 1;
            }
            proof {
                if hit {
                    let j = choose|j: int| 0 <= j < ids.len() && ids@[j] == item.0;
                    assert(ids@.contains(item.0));
                } else {
                    assert(!ids@.contains(item.0));
                }
            }
            if !hit {
                kept.push_back(item);
            }
            consumed = consumed + 1;
        }
        proof {
            assert(start.take(consumed as int) == start);
        }
        self.items = kept;
    }

    /// Keeps only the notifications whose flag is set (one flag per
    /// notification, oldest first), as expiry decides.
    pub fn retain_flagged(&mut self, keep: &Vec<bool>)
        requires
            keep.len() == old(self).entries().len(),
        ensures
            final(self).entries() == flagged(old(self).entries(), keep@),
            final(self).last_seq() == old(self).last_seq(),
    {
        let mut kept: VecDeque<(u64, T)> = VecDeque::new();
        let ghost start = self.items@;
        let mut consumed: usize = 0;
        while self.items.len() > 0
            invariant
                consumed + self.items.len() == start.len(),
                keep.len() == start.len(),
                self.items@ == start.skip(consumed as int),
                kept@ == flagged(start.take(consumed as int), keep@),
                self.seq == old(self).seq,
            decreases self.items.len(),
        {
            let item = self.items.pop_front().unwrap();
            proof {
                assert(start.take(consumed + 1).drop_last() == start.take(consumed as int));
                assert(start.take(consumed + 1).last() == item);
                assert(start.skip(consumed + 1) == start.skip(consumed as int).drop_first());
            }
            if keep[consumed] {
                kept.push_back(item);
            }
            consumed = consumed + 1;
        }
        proof {
            assert(start.take(consumed as int) == start);
        }
        self.items = kept;
    }

    /// The number of notifications shown.
    pub fn len(&self) -> (r: usize)
        ensures
            r == self.entries().len(),
    {
        self.items.len()
    }

    /// The notification at `index`, oldest first: its number and payload.
    pub fn entry(&self, index: usize) -> (r: &(u64, T))
        requires
            index < self.entries().len(),
        ensures
            *r == self.entries()[index as int],
    {
        &self.items[index]
    }
}

/// After any push the queue shows at most `MAX_TOASTS` notifications, the
/// newest last.
pub proof fn lemma_push_keeps_at_most_four<T>(entries: Seq<(u64, T)>, item: (u64, T))
    ensures
        ({
            let all = entries.push(item);
            let shown = if all.len() > MAX_TOASTS {
                all.skip(all.len() - MAX_TOASTS)
            } else {
                all
            };
            shown.len() <= MAX_TOASTS && shown.last() == item
        }),
{
}

/// The colours of a notification: fill, border, text and title.
pub struct ToastColors {
    pub fill: Rgb,
    pub stroke: Rgb,
    pub text: Rgb,
    pub title: Rgb,
}

/// Fill, border, text and title colour for a level: blue for information,
/// green for success, amber for warnings, red for failures.
pub open spec fn toast_palette(level: NoticeLevel) -> (Rgb, Rgb, Rgb, Rgb) {
    match level {
        NoticeLevel::Info => (rgb(232, 242, 255), rgb(190, 214, 245), rgb(46, 92, 146), rgb(46, 92, 146)),
        NoticeLevel::Success => (rgb(233, 248, 241), rgb(176, 226, 198), rgb(46, 110, 78), rgb(46, 110, 78)),
        NoticeLevel::Warning => (rgb(255, 246, 230), rgb(238, 214, 165), rgb(138, 92, 20), rgb(138, 92, 20)),
        NoticeLevel::Failure => (rgb(255, 235, 238), rgb(242, 190, 198), rgb(156, 62, 78), rgb(156, 62, 78)),
    }
}

/// The colours of a notification of this level.
pub fn toast_colors(level: NoticeLevel) -> (r: ToastColors)
    ensures
        (r.fill, r.stroke, r.text, r.title) == toast_palette(level),
{
    let (fill, stroke, text) = match level {
        NoticeLevel::Info => (
            Rgb { r: 232, g: 242, b: 255 },
            Rgb { r: 190, g: 214, b: 245 },
            Rgb { r: 46, g: 92, b: 146 },
        ),
        NoticeLevel::Success => (
            Rgb { r: 233, g: 248, b: 241 },
            Rgb { r: 176, g: 226, b: 198 },
            Rgb { r: 46, g: 110, b: 78 },
        ),
        NoticeLevel::Warning => (
            Rgb { r: 255, g: 246, b: 230 },
            Rgb { r: 238, g: 214, b: 165 },
            Rgb { r: 138, g: 92, b: 20 },
        ),
        NoticeLevel::Failure => (
            Rgb { r: 255, g: 235, b: 238 },
            Rgb { r: 242, g: 190, b: 198 },
            Rgb { r: 156, g: 62, b: 78 },
        ),
    };
    ToastColors { fill, stroke, text, title: text }
}

/// Dismissing keeps, in their order, exactly the entries whose own number is
/// not among `ids`, wherever they stand in the queue.
pub proof fn lemma_dismiss_by_number<T>(items: Seq<(u64, T)>, ids: Seq<u64>)
    ensures
        without_ids(items, ids) == items.filter(|e: (u64, T)| !ids.contains(e.0)),
        forall|e: (u64, T)|
            #[trigger] without_ids(items, ids).contains(e) <==> items.contains(e) && !ids.contains(
                e.0,
            ),
    decreases items.len(),
{
    let pred = |e: (u64, T)| !ids.contains(e.0);
    reveal(Seq::filter);
    if items.len() > 0 {
        lemma_dismiss_by_number(items.drop_last(), ids);
    }
    assert(without_ids(items, ids) == items.filter(pred));
    assert forall|e: (u64, T)| #[trigger]
        without_ids(items, ids).contains(e) <==> items.contains(e) && !ids.contains(e.0) by {
        if items.contains(e) && pred(e) {
            let i = choose|i: int| 0 <= i < items.len() && items[i] == e;
            items.lemma_filter_contains(pred, i);
        }
        if items.filter(pred).contains(e) {
            items.lemma_filter_contains_rev(pred, e);
        }
    }
}

/// Expiry keeps, in their order, exactly the entries whose flag is set.
pub proof fn lemma_flagged_keeps_set_flags<T>(items: Seq<(u64, T)>, keep: Seq<bool>)
    requires
        keep.len() == items.len(),
    ensures
        flagged(items, keep).len() <= items.len(),
        forall|i: int|
            0 <= i < items.len() && keep[i] ==> flagged(items, keep).contains(#[trigger] items[i]),
        (forall|i: int| 0 <= i < items.len() ==> keep[i]) ==> flagged(items, keep) == items,
        (forall|i: int| 0 <= i < items.len() ==> !keep[i]) ==> flagged(items, keep).len() == 0,
    decreases items.len(),
{
    if items.len() > 0 {
        let rest = items.drop_last();
        let kr = keep.drop_last();
        lemma_flagged_keeps_set_flags(rest, kr);
        assert(flagged(rest, keep) == flagged(rest, kr)) by {
            lemma_flagged_prefix_flags(rest, keep, kr);
        }
        assert forall|i: int| 0 <= i < items.len() && keep[i] implies flagged(
            items,
            keep,
        ).contains(#[trigger] items[i]) by {
            if i < items.len() - 1 {
                assert(rest[i] == items[i]);
                assert(kr[i] == keep[i]);
                let r = flagged(rest, kr);
                let j = choose|j: int| 0 <= j < r.len() && r[j] == rest[i];
                if keep[items.len() - 1] {
                    assert(flagged(items, keep)[j] == items[i]);
                }
            } else {
                let f = flagged(items, keep);
                assert(f[f.len() - 1] == items[i]);
            }
        }
        if forall|i: int| 0 <= i < items.len() ==> keep[i] {
            assert(keep[items.len() - 1]);
            assert(items == rest.push(items.last()));
        }
    }
}

proof fn lemma_flagged_prefix_flags<T>(items: Seq<(u64, T)>, a: Seq<bool>, b: Seq<bool>)
    requires
        a.len() >= items.len(),
        b.len() >= items.len(),
        forall|i: int| 0 <= i < items.len() ==> a[i] == b[i],
    ensures
        flagged(items, a) == flagged(items, b),
    decreases items.len(),
{
    if items.len() > 0 {
        lemma_flagged_prefix_flags(items.drop_last(), a, b);
    }
}

} // verus!
