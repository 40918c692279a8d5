//! The launcher's log: a queue of lines that drops its oldest lines so
//! that it never holds more than its limit.
use vstd::prelude::*;
use std::collections::VecDeque;

verus! {

/// Lines of the log, oldest first, and the most lines it keeps.
pub struct LogBuffer {
    lines: VecDeque<String>,
    max_lines: usize,
}

/// How many of `len` lines are dropped before one more is added under the
/// limit `max`: enough to leave `max - 1`, or all of them when `max` is 0.
pub open spec fn dropped_before_push(len: nat, max: nat) -> nat {
    if len >= max {
        if max == 0 {
            len
        } else {
            (len - max + 1) as nat
        }
    } else {
        0
    }
}

/// The lines after `line` is added to `lines` under the limit `max`.
pub open spec fn lines_after_push<A>(lines: Seq<A>, max: nat, line: A) -> Seq<A> {
    lines.skip(dropped_before_push(lines.len(), max) as int).push(line)
}

impl LogBuffer {
    /// The lines, oldest first.
    pub closed spec fn contents(&self) -> Seq<Seq<char>> {
        self.lines@.map_values(|s: String| s@)
    }

    /// The limit on the number of lines.
    pub closed spec fn limit(&self) -> nat {
        self.max_lines as nat
    }

    /// An empty log keeping at most `max_lines` lines.
    pub fn new(max_lines: usize) -> (r: Self)
        ensures
            r.contents() == Seq::<Seq<char>>::empty(),
            r.limit() == max_lines,
    {
        let r = LogBuffer { lines: VecDeque::new(), max_lines };
        proof {
            assert(r.contents() =~= Seq::<Seq<char>>::empty());
        }
        r
    }

    /// Adds a line at the end, first dropping the oldest lines when the log is full.
    pub fn push(&mut self, line: String)
        ensures
            final(self).contents() == lines_after_push(old(self).contents(), old(self).limit(), line@),
            final(self).limit() == old(self).limit(),
    {
        let ghost start = self.lines@;
        let ghost drop = dropped_before_push(start.len(), self.max_lines as nat);
        if self.lines.len() >= self.max_lines {
            while self.lines.len() > 0 && self.lines.len() >= self.max_lines
                invariant
                    start.len() >= old(self).max_lines,
                    self.max_lines == old(self).max_lines,
                    start == old(self).lines@,
                    drop == dropped_before_push(start.len(), self.max_lines as nat),
                    self.lines.len() <= start.len(),
                    self.lines@ == start.skip(start.len() - self.lines.len()),
                    self.lines.len() + 1 >= self.max_lines,
                    start.len() - self.lines.len() <= drop,
                decreases self.lines.len(),
            {
                self.lines.pop_front();
            }
            proof {
                assert(start.len() - self.lines.len() == drop);
            }
        } else {
            proof {
                assert(start.skip(0) == start);
            }
        }
        let ghost line_view = line@;
        self.lines.push_back(line);
        proof {
            let d = dropped_before_push(start.len(), self.max_lines as nat);
            assert(self.lines@.map_values(|s: String| s@) =~= start.map_values(|s: String| s@).skip(
                d as int,
            ).push(line_view));
        }
    }

    /// Removes every line.
    pub fn clear(&mut self)
        ensures
            final(self).contents() == Seq::<Seq<char>>::empty(),
            final(self).limit() == old(self).limit(),
    {
        self.lines.clear();
        proof {
            assert(self.contents() =~= Seq::<Seq<char>>::empty());
        }
    }

    /// The number of lines held.
    pub fn len(&self) -> (r: usize)
        ensures
            r == self.contents().len(),
    {
        self.lines.len()
    }

    /// The line at `index`, counting from the oldest.
    pub fn line(&self, index: usize) -> (r: &String)
        requires
            index < self.contents().len(),
        ensures
            r@ == self.contents()[index as int],
    {
        &self.lines[index]
    }

    /// All lines joined by line feeds, as the log is saved to a file.
    pub fn joined(&self) -> (r: String)
        ensures
            r@ == joined_lines(self.contents()),
    {
        let mut out = String::new();
        let n = self.lines.len();
        let mut i: usize = 0;
        while i < n
            invariant
                n == self.lines@.len(),
                i <= n,
                out@ == joined_lines(self.lines@.map_values(|s: String| s@).take(i as int)),
            decreases n - i,
        {
            proof {
                let all = self.lines@.map_values(|s: String| s@);
                assert(all.take(i + 1).drop_last() == all.take(i as int));
                assert(all.take(i + 1).last() == self.lines@[i as int]@);
            }
            if i > 0 {
                out.append("\n");
            }
            out.append(self.lines[i].as_str());
            i = i + 1;
        }
        proof {
            let all = self.lines@.map_values(|s: String| s@);
            assert(all.take(n as int) == all);
        }
        out
    }
}

/// Lines joined with a line feed between each two (`[..].join("\n")`).
pub open spec fn joined_lines(lines: Seq<Seq<char>>) -> Seq<char>
    decreases lines.len(),
{
    if lines.len() == 0 {
        Seq::empty()
    } else if lines.len() == 1 {
        lines[0]
    } else {
        joined_lines(lines.drop_last()) + "\n"@ + lines.last()
    }
}

/// However many lines the log held, after a push it holds at most its limit
/// (at least the new line when the limit is 0), ends with the new line, and
/// keeps the newest of its earlier lines in order.
pub proof fn lemma_push_bounds<A>(lines: Seq<A>, max: nat, line: A)
    ensures
        lines_after_push(lines, max, line).len() <= if max == 0 { 1 } else { max },
        lines_after_push(lines, max, line).last() == line,
        lines_after_push(lines, max, line).drop_last().is_suffix_of(lines),
{
    let d = dropped_before_push(lines.len(), max);
    let kept = lines.skip(d as int);
    assert(lines_after_push(lines, max, line).drop_last() == kept);
    assert(kept =~= lines.subrange(lines.len() - kept.len(), lines.len() as int));
}

/// Pushing onto a log with limit `max` of at least one keeps exactly the
/// newest `min(len + 1, max)` lines: the newest `min(len, max - 1)` earlier
/// lines in their order, then the new line.
pub proof fn lemma_push_exact<A>(lines: Seq<A>, max: nat, line: A)
    requires
        max >= 1,
    ensures
        ({
            let kept: int = if lines.len() + 1 <= max { lines.len() as int } else { max - 1 };
            &&& lines_after_push(lines, max, line).len() == kept + 1
            &&& lines_after_push(lines, max, line) == lines.subrange(
                lines.len() - kept,
                lines.len() as int,
            ).push(line)
        }),
{
    let kept: int = if lines.len() + 1 <= max { lines.len() as int } else { max - 1 };
    assert(lines.skip(dropped_before_push(lines.len(), max) as int) =~= lines.subrange(
        lines.len() - kept,
        lines.len() as int,
    ));
}

/// The total length of `lines`.
pub open spec fn total_len(lines: Seq<Seq<char>>) -> nat
    decreases lines.len(),
{
    if lines.len() == 0 {
        0
    } else {
        total_len(lines.drop_last()) + lines.last().len()
    }
}

/// Adding a line after at least one other adds a line feed and the line to
/// the joined text; the joined text of one line is that line.
pub proof fn lemma_joined_push(lines: Seq<Seq<char>>, x: Seq<char>)
    ensures
        lines.len() == 0 ==> joined_lines(lines.push(x)) == x,
        lines.len() >= 1 ==> joined_lines(lines.push(x)) == joined_lines(lines) + seq!['\n'] + x,
{
    reveal_strlit("\n");
    assert(lines.push(x).drop_last() == lines);
    if lines.len() == 0 {
        assert(lines.push(x)[0] == x);
    }
}

/// The joined text is as long as all lines together plus one line feed
/// between each two of them.
pub proof fn lemma_joined_len(lines: Seq<Seq<char>>)
    requires
        lines.len() >= 1,
    ensures
        joined_lines(lines).len() == total_len(lines) + lines.len() - 1,
    decreases lines.len(),
{
    reveal_strlit("\n");
    if lines.len() > 1 {
        lemma_joined_len(lines.drop_last());
    } else {
        assert(lines.drop_last().len() == 0);
        assert(total_len(lines.drop_last()) == 0);
    }
}

} // verus!
