//! Metering of a web-search stream.
//!
//! The first `usage` object that the sidecar sends is authoritative. A stream that ends
//! without one is metered by its text, at a quarter of a token per character.

use vstd::prelude::*;

use crate::clock::Moment;
use crate::json::{Json, JsonView};

use super::markers;
use super::markers::{
    classify, estimate_usage, record_usage, ArrivalView, Marker, MarkerView, SseEvent, SseEventView,
    StreamUsage,
};

verus! {

/// How far the metering of a stream has come.
#[derive(Debug, Clone, Copy, PartialEq, Eq)]
pub struct Meter {
    /// Characters of text seen so far.
    pub text_chars: usize,
    /// Whether the output tokens are settled.
    pub accounted: bool,
    /// Whether any text came yet.
    pub saw_token: bool,
}

/// What a meter says.
pub struct MeterView {
    pub text_chars: nat,
    pub accounted: bool,
    pub saw_token: bool,
}

impl View for Meter {
    type V = MeterView;

    open spec fn view(&self) -> MeterView {
        MeterView {
            text_chars: self.text_chars as nat,
            accounted: self.accounted,
            saw_token: self.saw_token,
        }
    }
}

/// A meter that has seen nothing.
pub open spec fn unread() -> MeterView {
    MeterView { text_chars: 0, accounted: false, saw_token: false }
}

/// A meter together with what it has reported.
pub struct Metered {
    pub meter: MeterView,
    pub usage: StreamUsage,
}

impl Metered {
    /// After `chars` characters of text at `now`: the first text marks the first token.
    pub open spec fn text(self, chars: nat, now: Moment) -> Metered {
        Metered {
            meter: MeterView {
                text_chars: self.meter.text_chars + chars,
                saw_token: true,
                ..self.meter
            },
            usage: if self.meter.saw_token {
                self.usage
            } else {
                StreamUsage { first_token: Some(now), ..self.usage }
            },
        }
    }

    /// After the sidecar reported `reported`: only the first report counts.
    pub open spec fn report(self, reported: JsonView) -> Metered {
        if self.meter.accounted {
            self
        } else {
            Metered {
                meter: MeterView { accounted: true, ..self.meter },
                usage: markers::usage_recorded(self.usage, reported),
            }
        }
    }

    /// After the end of the answer: text that no report covers is estimated.
    pub open spec fn end(self) -> Metered {
        if self.meter.accounted || self.meter.text_chars == 0 {
            self
        } else {
            Metered {
                meter: MeterView { accounted: true, ..self.meter },
                usage: markers::usage_estimated(self.usage, self.meter.text_chars),
            }
        }
    }

    /// After one thing that bears on metering.
    pub open spec fn step(self, reading: Reading) -> Metered {
        match reading {
            Reading::Text { chars, at } => self.text(chars, at),
            Reading::Report(reported) => self.report(reported),
            Reading::End => self.end(),
            Reading::Nothing => self,
        }
    }

    /// After a whole list of things that bear on metering.
    pub open spec fn steps(self, readings: Seq<Reading>) -> Metered
        decreases readings.len(),
    {
        if readings.len() == 0 {
            self
        } else {
            self.steps(readings.drop_last()).step(readings.last())
        }
    }
}

/// What an event means for metering.
pub enum Reading {
    /// Text of so many characters came.
    Text { chars: nat, at: Moment },
    /// The sidecar reported its counts.
    Report(JsonView),
    /// The answer ended.
    End,
    /// Nothing that bears on metering.
    Nothing,
}

/// What an event means for metering in a protocol whose answer ends with the terminator.
pub open spec fn reading(arrival: ArrivalView) -> Reading {
    match arrival.event {
        SseEventView::Done => Reading::End,
        SseEventView::Frame(frame) => match markers::frame_marker(frame) {
            MarkerView::TextDelta(text) => Reading::Text { chars: text.len(), at: arrival.at },
            MarkerView::Usage(reported) => Reading::Report(reported),
            _ => Reading::Nothing,
        },
        SseEventView::Malformed => Reading::Nothing,
    }
}

/// What the events of a stream mean for metering, one by one.
pub open spec fn readings(arrivals: Seq<ArrivalView>) -> Seq<Reading> {
    arrivals.map_values(|arrival: ArrivalView| reading(arrival))
}

impl Meter {
    /// A meter that has seen nothing.
    pub fn new() -> (res: Meter)
        ensures
            res@ == unread(),
    {
        Meter { text_chars: 0, accounted: false, saw_token: false }
    }

    /// Whether the text of an event can still be counted.
    pub fn has_room_for(&self, event: &SseEvent) -> (res: bool)
        ensures
            res == (self.text_chars + event_chars(event@) <= usize::MAX),
    {
        match event {
            SseEvent::Frame(frame) => match classify(frame) {
                Marker::TextDelta(text) => text.as_str().unicode_len() <= usize::MAX - self.text_chars,
                _ => true,
            },
            _ => true,
        }
    }

    /// Counts a piece of text.
    pub fn text(&mut self, usage: &mut StreamUsage, text: &str, now: Moment)
        requires
            old(self).text_chars + text@.len() <= usize::MAX,
        ensures
            (Metered { meter: final(self)@, usage: *final(usage) }) == (Metered {
                meter: old(self)@,
                usage: *old(usage),
            }).text(text@.len(), now),
    {
        if !self.saw_token {
            self.saw_token = true;
            usage.first_token = Some(now);
        }
        self.text_chars = self.text_chars + text.unicode_len();
    }

    /// Takes a report of the sidecar, where it is the first.
    pub fn report(&mut self, usage: &mut StreamUsage, reported: &Json)
        ensures
            (Metered { meter: final(self)@, usage: *final(usage) }) == (Metered {
                meter: old(self)@,
                usage: *old(usage),
            }).report(reported@),
    {
        if !self.accounted {
            record_usage(usage, reported);
            self.accounted = true;
        }
    }

    /// Settles the output tokens at the end of the answer.
    pub fn end(&mut self, usage: &mut StreamUsage)
        ensures
            (Metered { meter: final(self)@, usage: *final(usage) }) == (Metered {
                meter: old(self)@,
                usage: *old(usage),
            }).end(),
    {
        if !self.accounted && self.text_chars > 0 {
            estimate_usage(usage, self.text_chars);
            self.accounted = true;
        }
    }
}

/// The text that an event carries, in characters; nothing for an event without text.
pub open spec fn event_text(event: SseEventView) -> Option<nat> {
    match event {
        SseEventView::Frame(frame) => match markers::frame_marker(frame) {
            MarkerView::TextDelta(text) => Some(text.len()),
            _ => None,
        },
        _ => None,
    }
}

/// The characters of text that an event adds.
pub open spec fn event_chars(event: SseEventView) -> nat {
    match event_text(event) {
        Some(chars) => chars,
        None => 0,
    }
}

/// The characters of text in a list of readings.
pub open spec fn text_total(readings: Seq<Reading>) -> nat
    decreases readings.len(),
{
    if readings.len() == 0 {
        0
    } else {
        text_total(readings.drop_last()) + match readings.last() {
            Reading::Text { chars, .. } => chars,
            _ => 0,
        }
    }
}

/// Whether the token counts stay open throughout: no report comes and no end.
pub open spec fn unsettling(readings: Seq<Reading>) -> bool {
    forall|j: int|
        0 <= j < readings.len() ==> !(#[trigger] readings[j] is Report) && !(readings[j] is End)
}

/// Once a stream is settled, nothing later changes a token count.
pub proof fn law_settled_counts_stay(start: Metered, readings: Seq<Reading>)
    requires
        start.meter.accounted,
    ensures
        start.steps(readings).meter.accounted,
        start.steps(readings).usage == (StreamUsage {
            first_token: start.steps(readings).usage.first_token,
            ..start.usage
        }),
    decreases readings.len(),
{
    if readings.len() > 0 {
        law_settled_counts_stay(start, readings.drop_last());
    }
}

/// A stream that runs in two parts meters as the two parts in turn.
pub proof fn law_metering_composes(start: Metered, first: Seq<Reading>, second: Seq<Reading>)
    ensures
        start.steps(first + second) == start.steps(first).steps(second),
    decreases second.len(),
{
    if second.len() == 0 {
        assert(first + second == first);
    } else {
        assert((first + second).drop_last() == first + second.drop_last());
        law_metering_composes(start, first, second.drop_last());
    }
}

/// A stream without a report and without an end changes no token count.
pub proof fn law_text_alone_settles_nothing(start: Metered, readings: Seq<Reading>)
    requires
        !start.meter.accounted,
        unsettling(readings),
    ensures
        !start.steps(readings).meter.accounted,
        start.steps(readings).meter.text_chars == start.meter.text_chars + text_total(readings),
        start.steps(readings).usage == (StreamUsage {
            first_token: start.steps(readings).usage.first_token,
            ..start.usage
        }),
    decreases readings.len(),
{
    if readings.len() > 0 {
        law_text_alone_settles_nothing(start, readings.drop_last());
        let last = readings[readings.len() - 1];
        assert(!(last is Report) && !(last is End));
    }
}

/// The first report of a stream is authoritative: the token counts are what it says,
/// whatever text came before and whatever comes after.
pub proof fn law_first_report_is_authoritative(start: Metered, readings: Seq<Reading>, i: int)
    requires
        !start.meter.accounted,
        0 <= i < readings.len(),
        readings[i] is Report,
        unsettling(readings.take(i)),
    ensures
        start.steps(readings).usage == markers::usage_recorded(
            StreamUsage {
                first_token: start.steps(readings).usage.first_token,
                ..start.usage
            },
            readings[i]->Report_0,
        ),
{
    let before = readings.take(i);
    let rest = readings.skip(i + 1);
    law_text_alone_settles_nothing(start, before);
    assert(readings.take(i + 1).drop_last() == before);
    assert(readings == readings.take(i + 1) + rest);
    law_metering_composes(start, readings.take(i + 1), rest);
    law_settled_counts_stay(start.steps(readings.take(i + 1)), rest);
}

/// A stream that ends without a report is metered by its text: the output is at least a
/// quarter token per character, rounded up, whatever comes after the end.
pub proof fn law_unreported_text_is_estimated(start: Metered, readings: Seq<Reading>, i: int)
    requires
        !start.meter.accounted,
        0 <= i < readings.len(),
        readings[i] is End,
        unsettling(readings.take(i)),
        start.meter.text_chars + text_total(readings.take(i)) > 0,
    ensures
        start.steps(readings).usage == markers::usage_estimated(
            StreamUsage {
                first_token: start.steps(readings).usage.first_token,
                ..start.usage
            },
            start.meter.text_chars + text_total(readings.take(i)),
        ),
{
    let before = readings.take(i);
    let rest = readings.skip(i + 1);
    law_text_alone_settles_nothing(start, before);
    assert(readings.take(i + 1).drop_last() == before);
    assert(readings == readings.take(i + 1) + rest);
    law_metering_composes(start, readings.take(i + 1), rest);
    law_settled_counts_stay(start.steps(readings.take(i + 1)), rest);
}

/// The first token is marked when the first text comes, and never again.
pub proof fn law_first_text_marks_first_token(start: Metered, readings: Seq<Reading>, i: int)
    requires
        !start.meter.saw_token,
        0 <= i < readings.len(),
        readings[i] is Text,
        forall|j: int| 0 <= j < i ==> !(#[trigger] readings[j] is Text),
    ensures
        start.steps(readings).usage.first_token == Some(readings[i]->at),
        start.steps(readings).meter.saw_token,
    decreases readings.len(),
{
    let shorter = readings.drop_last();
    if i == readings.len() - 1 {
        lemma_no_text_no_token(start, shorter);
    } else {
        law_first_text_marks_first_token(start, shorter, i);
    }
}

proof fn lemma_no_text_no_token(start: Metered, readings: Seq<Reading>)
    requires
        !start.meter.saw_token,
        forall|j: int| 0 <= j < readings.len() ==> !(#[trigger] readings[j] is Text),
    ensures
        !start.steps(readings).meter.saw_token,
    decreases readings.len(),
{
    if readings.len() > 0 {
        lemma_no_text_no_token(start, readings.drop_last());
        assert(!(readings[readings.len() - 1] is Text));
    }
}

} // verus!
