//! Gathering the summaries of a batch of items (issues, commits) one by
//! one, with two brakes: a number of summarised items and a number of words
//! of summary text. Once either is reached the batch closes and takes no
//! more text; it still counts the items that were tried.

use vstd::prelude::*;
use crate::text::chars_of;

verus! {

/// Whether `c` separates words.
pub open spec fn is_space(c: char) -> bool {
    c == ' ' || c == '\n' || c == '\t' || c == '\r'
}

/// The number of words of `s`: maximal runs of characters that are not
/// spaces.
pub open spec fn word_count(s: Seq<char>) -> nat
    decreases s.len(),
{
    if s.len() == 0 {
        0
    } else {
        word_count(s.drop_last()) + if !is_space(s.last()) && (s.len() == 1 || is_space(
            s[s.len() - 2],
        )) {
            1nat
        } else {
            0nat
        }
    }
}

/// The line that one summary adds: its prefix (a date), a space, the
/// summary and a line break.
pub open spec fn entry_line(prefix: Seq<char>, summary: Seq<char>) -> Seq<char> {
    prefix + seq![' '] + summary + seq!['\n']
}

/// A batch of commits closes once its summaries pass this many words.
pub const COMMIT_BATCH_WORDS: usize = 3_000;

/// A batch of issues closes after this many summaries.
pub const ISSUE_BATCH_ITEMS: usize = 50;

/// The summaries gathered so far and the counts of a batch.
pub struct SummaryBatch {
    pub summaries: String,
    /// Words of summary text gathered.
    pub words: u128,
    /// Items whose summary was gathered.
    pub processed: usize,
    /// Items recorded, summarised or not.
    pub attempted: usize,
    pub max_items: usize,
    pub max_words: usize,
    pub closed: bool,
}

/// The number of words of `s`.
pub fn count_words(s: &str) -> (n: usize)
    ensures
        n == word_count(s@),
{
    let v = chars_of(s);
    let mut n: usize = 0;
    let mut i: usize = 0;
    while i < v.len()
        invariant
            i <= v.len(),
            n <= i,
            n == word_count(v@.take(i as int)),
        decreases v.len() - i,
    {
        let ghost t = v@.take(i + 1);
        assert(t.drop_last() =~= v@.take(i as int));
        assert(t.last() == v@[i as int]);
        assert(i >= 1 ==> t[i - 1] == v@[i - 1]);
        let c = v[i];
        let space = c == ' ' || c == '\n' || c == '\t' || c == '\r';
        if !space {
            if i == 0 {
                n = n + 1;
            } else {
                let p = v[i - 1];
                if p == ' ' || p == '\n' || p == '\t' || p == '\r' {
                    n = n + 1;
                }
            }
        }
        i = i + 1;
    }
    assert(v@.take(v.len() as int) =~= v@);
    n
}

impl SummaryBatch {
    /// The batch is consistent: an open batch has room for one more item and
    /// has not passed its word limit.
    pub open spec fn wf(&self) -> bool {
        &&& self.processed <= self.attempted
        &&& !self.closed ==> self.processed < self.max_items && self.words <= self.max_words
    }

    /// An empty batch that closes after `max_items` summaries, or once its
    /// summaries pass `max_words` words. A batch with room for no item is
    /// closed from the start.
    pub fn new(max_items: usize, max_words: usize) -> (r: SummaryBatch)
        ensures
            r.wf(),
            r.summaries@ == Seq::<char>::empty(),
            r.words == 0,
            r.processed == 0,
            r.attempted == 0,
            r.max_items == max_items,
            r.max_words == max_words,
            r.closed == (max_items == 0),
    {
        SummaryBatch {
            summaries: String::new(),
            words: 0,
            processed: 0,
            attempted: 0,
            max_items,
            max_words,
            closed: max_items == 0,
        }
    }

    /// A batch of commits: no limit on the number of summaries, a limit of
    /// `COMMIT_BATCH_WORDS` words.
    pub fn for_commits() -> (r: SummaryBatch)
        ensures
            r.wf(),
            r.summaries@ == Seq::<char>::empty(),
            r.words == 0,
            r.processed == 0,
            r.attempted == 0,
            r.max_items == usize::MAX,
            r.max_words == COMMIT_BATCH_WORDS,
            !r.closed,
    {
        SummaryBatch::new(usize::MAX, COMMIT_BATCH_WORDS)
    }

    /// A batch of issues: at most `ISSUE_BATCH_ITEMS` summaries, no limit on
    /// the number of words.
    pub fn for_issues() -> (r: SummaryBatch)
        ensures
            r.wf(),
            r.summaries@ == Seq::<char>::empty(),
            r.words == 0,
            r.processed == 0,
            r.attempted == 0,
            r.max_items == ISSUE_BATCH_ITEMS,
            r.max_words == usize::MAX,
            !r.closed,
    {
        SummaryBatch::new(ISSUE_BATCH_ITEMS, usize::MAX)
    }

    /// Whether the batch still takes items.
    pub fn is_open(&self) -> (r: bool)
        ensures
            r == !self.closed,
    {
        !self.closed
    }

    /// Records one item of an open batch, counting it (the count stops at
    /// `usize::MAX`): its summary, if it has one, is gathered as the line
    /// `prefix summary`. The batch closes when it has
    /// gathered `max_items` summaries or passed `max_words` words. A closed
    /// batch is left as it is.
    pub fn record(&mut self, prefix: &str, outcome: Option<String>)
        requires
            old(self).wf(),
        ensures
            final(self).wf(),
            final(self).max_items == old(self).max_items,
            final(self).max_words == old(self).max_words,
            old(self).closed ==> *final(self) == *old(self),
            !old(self).closed && old(self).attempted < usize::MAX ==> final(self).attempted
                == old(self).attempted + 1,
            !old(self).closed && old(self).attempted == usize::MAX ==> final(self).attempted
                == usize::MAX,
            !old(self).closed && outcome is None ==> {
                &&& final(self).summaries == old(self).summaries
                &&& final(self).words == old(self).words
                &&& final(self).processed == old(self).processed
                &&& final(self).closed == old(self).closed
            },
            !old(self).closed && outcome is Some ==> {
                &&& final(self).summaries@ == old(self).summaries@ + entry_line(
                    prefix@,
                    outcome->0@,
                )
                &&& final(self).words == old(self).words + word_count(outcome->0@)
                &&& final(self).processed == old(self).processed + 1
                &&& final(self).closed == (final(self).processed >= old(self).max_items
                    || final(self).words > old(self).max_words)
            },
    {
        if self.closed {
            return;
        }
        if self.attempted < usize::MAX {
            self.attempted = self.attempted + 1;
        }
        match outcome {
            None => {},
            Some(s) => {
                let n = count_words(s.as_str());
                self.summaries.append(prefix);
                self.summaries.append(" ");
                self.summaries.append(s.as_str());
                self.summaries.append("\n");
                proof {
                    reveal_strlit(" ");
                    reveal_strlit("\n");
                }
                assert(self.summaries@ =~= old(self).summaries@ + entry_line(prefix@, s@));
                self.words = self.words + n as u128;
                self.processed = self.processed + 1;
                if self.processed >= self.max_items || self.words > self.max_words as u128 {
                    self.closed = true;
                }
            },
        }
    }

    /// The gathered summaries, or nothing when no item was summarised.
    pub fn finish(&self) -> (r: Option<String>)
        ensures
            self.processed == 0 ==> r is None,
            self.processed > 0 ==> r == Some(self.summaries),
    {
        if self.processed == 0 {
            None
        } else {
            Some(self.summaries.clone())
        }
    }
}

/// A batch that has passed its word limit is closed: from then on `record`
/// leaves it, its text and its counts as they are.
pub proof fn lemma_word_limit_closes(b: SummaryBatch)
    requires
        b.wf(),
        b.words > b.max_words,
    ensures
        b.closed,
{
}

} // verus!
