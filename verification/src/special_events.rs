//! Events that are not log records of their own but show in free text, such
//! as the host pausing or resuming.
//!
//! A matcher looks for its marker, widens every occurrence to the whole
//! lines that hold it, and joins widened ranges that touch or overlap, so
//! that one event gives one record however often its marker is printed.

use vstd::prelude::*;
use vstd::utf8::*;
use std::ops::Range;
use crate::log_item::{synthetic_text, LogItem};
use crate::matching::{find_iter, regex_find_iter, spans_ok, spans_successive};
use crate::sorting::Placed;
use crate::text::{
    find_line_end, find_line_start, lemma_line_start_monotone, line_end, line_start, span_ok,
};

verus! {

/// Marks a pause of the host: its callback by name, or the bare word.
pub const PAUSE_MARKER: &'static str = r"(?i)bef_effect_onpause_imp\s*\(|onpause";

/// Marks a resume of the host.
pub const RESUME_MARKER: &'static str = r"(?i)bef_effect_onresume_imp\s*\(";

/// Content of the record that stands for a pause.
pub const PAUSE_LABEL: &'static str = "DYEH PAUSE";

/// Content of the record that stands for a resume.
pub const RESUME_LABEL: &'static str = "DYEH RESUME";

/// A synthetic record and the bytes of the text that it stands for.
pub struct MatchedEvent {
    pub span: Range<usize>,
    pub item: LogItem,
}

impl Placed for MatchedEvent {
    open spec fn place(&self) -> usize {
        self.span.start
    }

    fn position(&self) -> (p: usize) {
        self.span.start
    }
}

/// A byte range as a pair of its ends.
pub open spec fn ends(span: Range<usize>) -> (int, int) {
    (span.start as int, span.end as int)
}

/// Byte ranges as pairs of their ends.
pub open spec fn all_ends(spans: Seq<Range<usize>>) -> Seq<(int, int)> {
    Seq::new(spans.len(), |i: int| ends(spans[i]))
}

/// The byte ranges of events.
pub open spec fn event_spans(events: Seq<MatchedEvent>) -> Seq<(int, int)> {
    Seq::new(events.len(), |i: int| ends(events[i].span))
}

/// The whole lines around one match.
pub open spec fn line_span(text: Seq<char>, found: (usize, usize)) -> (int, int) {
    (
        line_start(encode_utf8(text), found.0 as int),
        line_end(encode_utf8(text), found.1 as int),
    )
}

/// The whole lines around each match.
pub open spec fn line_spans(text: Seq<char>, found: Seq<(usize, usize)>) -> Seq<(int, int)> {
    Seq::new(found.len(), |i: int| line_span(text, found[i]))
}

/// `merged` with one more range: joined to the last one if it begins inside
/// it or within one byte behind it, else added behind it.
pub open spec fn absorb(merged: Seq<(int, int)>, next: (int, int)) -> Seq<(int, int)> {
    if merged.len() > 0 && next.0 <= merged.last().1 + 1 {
        merged.drop_last().push(
            (
                merged.last().0,
                if merged.last().1 >= next.1 {
                    merged.last().1
                } else {
                    next.1
                },
            ),
        )
    } else {
        merged.push(next)
    }
}

/// Ranges that touch or overlap joined, from the first to the last.
pub open spec fn merge_spans(spans: Seq<(int, int)>) -> Seq<(int, int)>
    decreases spans.len(),
{
    if spans.len() == 0 {
        Seq::empty()
    } else {
        absorb(merge_spans(spans.drop_last()), spans.last())
    }
}

/// The byte ranges that a marker's matches stand for.
pub open spec fn marker_spans(text: Seq<char>, found: Seq<(usize, usize)>) -> Seq<(int, int)> {
    merge_spans(line_spans(text, found))
}

/// Every range is a range of whole characters of `text`.
pub open spec fn ranges_ok(text: Seq<char>, spans: Seq<(int, int)>) -> bool {
    forall|i: int| 0 <= i < spans.len() ==> span_ok(text, (#[trigger] spans[i]).0, spans[i].1)
}

/// Between two successive ranges lies more than one byte.
pub open spec fn ranges_apart(spans: Seq<(int, int)>) -> bool {
    forall|i: int|
        0 <= i < spans.len() - 1 ==> (#[trigger] spans[i]).1 + 1 < spans[i + 1].0
}

/// The events are synthetic records that say `label`.
pub open spec fn all_say(events: Seq<MatchedEvent>, label: Seq<char>) -> bool {
    forall|i: int|
        0 <= i < events.len() ==> (#[trigger] events[i]).item.text() == synthetic_text(label)
            && events[i].item.folded_count == 1
}

/// Where the matches come in order, joining their lines leaves ranges with
/// more than one byte between them: no event is reported twice. The last
/// range begins at or before the line of the last match.
pub proof fn lemma_merged_apart(text: Seq<char>, found: Seq<(usize, usize)>)
    requires
        spans_ok(text, found),
        spans_successive(found),
    ensures
        ranges_apart(marker_spans(text, found)),
        found.len() > 0 ==> marker_spans(text, found).len() > 0 && marker_spans(
            text,
            found,
        ).last().0 <= line_span(text, found.last()).0,
    decreases found.len(),
{
    let spans = line_spans(text, found);
    if found.len() > 0 {
        let front = found.drop_last();
        assert(spans.drop_last() =~= line_spans(text, front));
        assert forall|i: int, j: int| 0 <= i < j < front.len() implies (#[trigger] front[i]).1 <= (#[trigger] front[j]).0 by {
            assert(front[i] == found[i] && front[j] == found[j]);
        }
        assert forall|i: int| 0 <= i < front.len() implies span_ok(
            text,
            (#[trigger] front[i]).0 as int,
            front[i].1 as int,
        ) by {
            assert(front[i] == found[i]);
        }
        lemma_merged_apart(text, front);
        let merged = marker_spans(text, front);
        let next = spans.last();
        assert(next == line_span(text, found.last()));
        if front.len() > 0 {
            // the new range begins no earlier than the last joined one
            let prev = front.last();
            assert(prev == found[found.len() - 2]);
            assert(span_ok(text, prev.0 as int, prev.1 as int));
            assert(prev.0 <= prev.1 <= found.last().0);
            lemma_line_start_monotone(encode_utf8(text), prev.0 as int, found.last().0 as int);
            assert(merged.last().0 <= next.0);
        }
        let out = absorb(merged, next);
        assert(out == marker_spans(text, found));
        assert forall|i: int| 0 <= i < out.len() - 1 implies (#[trigger] out[i]).1 + 1 < out[i
            + 1].0 by {
            if merged.len() > 0 && next.0 <= merged.last().1 + 1 {
                if i + 1 < out.len() - 1 {
                    assert(out[i] == merged[i] && out[i + 1] == merged[i + 1]);
                } else {
                    assert(out[i] == merged[i]);
                    assert(out[i + 1].0 == merged[i + 1].0);
                }
            } else {
                if i + 1 < out.len() - 1 {
                    assert(out[i] == merged[i] && out[i + 1] == merged[i + 1]);
                } else {
                    assert(out[i] == merged[i]);
                }
            }
        }
    }
}

/// Widens every match to the whole lines around it and joins the widened
/// ranges that touch or overlap.
pub fn marker_lines(text: &str, found: &Vec<(usize, usize)>) -> (spans: Vec<Range<usize>>)
    requires
        spans_ok(text@, found@),
    ensures
        all_ends(spans@) == marker_spans(text@, found@),
        ranges_ok(text@, all_ends(spans@)),
{
    let mut merged: Vec<Range<usize>> = Vec::new();
    let mut i: usize = 0;
    assert(all_ends(merged@) =~= merge_spans(line_spans(text@, found@.take(0))));
    while i < found.len()
        invariant
            i <= found@.len(),
            spans_ok(text@, found@),
            all_ends(merged@) == merge_spans(line_spans(text@, found@.take(i as int))),
            ranges_ok(text@, all_ends(merged@)),
        decreases found@.len() - i,
    {
        let ghost before = all_ends(merged@);
        let ghost next = line_spans(text@, found@.take(i + 1));
        let m = found[i];
        assert(span_ok(text@, m.0 as int, m.1 as int));
        let s = find_line_start(text, m.0);
        let e = find_line_end(text, m.1);
        proof {
            assert(next.drop_last() =~= line_spans(text@, found@.take(i as int)));
            assert(next.last() == (s as int, e as int));
        }
        let n = merged.len();
        if n > 0 && (s <= merged[n - 1].end || s - merged[n - 1].end <= 1) {
            let last_start = merged[n - 1].start;
            let last_end = merged[n - 1].end;
            assert(before.last() == (last_start as int, last_end as int));
            let end = if last_end >= e {
                last_end
            } else {
                e
            };
            merged.pop();
            merged.push(Range { start: last_start, end });
            assert(all_ends(merged@) =~= absorb(before, (s as int, e as int)));
        } else {
            if n > 0 {
                assert(before.last() == ends(merged@[n - 1]));
            }
            merged.push(Range { start: s, end: e });
            assert(all_ends(merged@) =~= absorb(before, (s as int, e as int)));
        }
        assert forall|k: int| 0 <= k < all_ends(merged@).len() implies span_ok(
            text@,
            (#[trigger] all_ends(merged@)[k]).0,
            all_ends(merged@)[k].1,
        ) by {
            if k < before.len() - 1 {
                assert(all_ends(merged@)[k] == before[k]);
            } else if k < before.len() && all_ends(merged@).len() > before.len() {
                assert(all_ends(merged@)[k] == before[k]);
            } else if before.len() > 0 {
                assert(span_ok(text@, before.last().0, before.last().1));
            }
        }
        i += 1;
    }
    assert(found@.take(found@.len() as int) =~= found@);
    merged
}

/// One synthetic record that says `label` for every range.
pub fn synthetic_events(spans: Vec<Range<usize>>, label: &str) -> (events: Vec<MatchedEvent>)
    ensures
        event_spans(events@) == all_ends(spans@),
        all_say(events@, label@),
{
    let mut events: Vec<MatchedEvent> = Vec::new();
    let mut i: usize = 0;
    while i < spans.len()
        invariant
            i <= spans@.len(),
            events@.len() == i,
            forall|k: int| 0 <= k < i ==> ends((#[trigger] events@[k]).span) == ends(spans@[k]),
            all_say(events@, label@),
        decreases spans@.len() - i,
    {
        let span = Range { start: spans[i].start, end: spans[i].end };
        events.push(MatchedEvent { span, item: LogItem::synthetic(label) });
        i += 1;
    }
    assert(event_spans(events@) =~= all_ends(spans@));
    events
}

/// A kind of event that shows in free text.
pub trait EventMatcher {
    /// The expression that finds the event's marker.
    spec fn marker(&self) -> Seq<char>;

    /// What the records for this event say.
    spec fn label(&self) -> Seq<char>;

    /// The events of this kind in `text`: one synthetic record for every run
    /// of lines that hold the marker, in the order of the text.
    fn capture(&self, text: &str) -> (events: Vec<MatchedEvent>)
        ensures
            event_spans(events@) == marker_spans(text@, regex_find_iter(self.marker(), text@)),
            all_say(events@, self.label()),
            ranges_ok(text@, event_spans(events@)),
            ranges_apart(event_spans(events@)),
    ;
}

/// Finds pauses of the host.
pub struct PauseMatcher;

/// Finds resumes of the host.
pub struct ResumeMatcher;

impl EventMatcher for PauseMatcher {
    open spec fn marker(&self) -> Seq<char> {
        PAUSE_MARKER@
    }

    open spec fn label(&self) -> Seq<char> {
        PAUSE_LABEL@
    }

    fn capture(&self, text: &str) -> (events: Vec<MatchedEvent>) {
        let found = find_iter(PAUSE_MARKER, text);
        proof {
            lemma_merged_apart(text@, found@);
        }
        synthetic_events(marker_lines(text, &found), PAUSE_LABEL)
    }
}

impl EventMatcher for ResumeMatcher {
    open spec fn marker(&self) -> Seq<char> {
        RESUME_MARKER@
    }

    open spec fn label(&self) -> Seq<char> {
        RESUME_LABEL@
    }

    fn capture(&self, text: &str) -> (events: Vec<MatchedEvent>) {
        let found = find_iter(RESUME_MARKER, text);
        proof {
            lemma_merged_apart(text@, found@);
        }
        synthetic_events(marker_lines(text, &found), RESUME_LABEL)
    }
}

} // verus!
