//! The events that open pages are told of, and the stream that carries them.

use vstd::prelude::*;

use crate::json::Json;
use crate::text::concat3;

verus! {

/// The open streams, by number. An event goes to each of them. A number is given once only.
#[derive(Debug)]
pub struct Hub {
    subs: Vec<u64>,
    last: u64,
}

/// An event on its way: the words for the stream, and the streams that they go to.
#[derive(Debug)]
pub struct Broadcast {
    pub frame: String,
    pub to: Vec<u64>,
}

/// The numbers that are left of some when others are taken out, in order.
pub open spec fn without(s: Seq<u64>, gone: Seq<u64>) -> Seq<u64>
    decreases s.len(),
{
    if s.len() == 0 {
        Seq::empty()
    } else if gone.contains(s.last()) {
        without(s.drop_last(), gone)
    } else {
        without(s.drop_last(), gone).push(s.last())
    }
}

/// What an event is on the stream: its name and what it carries.
pub open spec fn event_value(
    event: Seq<char>,
    payload: crate::json::JsonView,
) -> crate::json::JsonView {
    crate::json::object(
        seq![("event"@, crate::json::JsonView::Text(event)), ("payload"@, payload)],
    )
}

/// The words of an event on the stream.
pub open spec fn frame_text(event: Seq<char>, payload: crate::json::JsonView) -> Seq<char> {
    "data: "@ + crate::json::json_text(event_value(event, payload)) + "\n\n"@
}

/// Whether words are one event of the stream: a single data line and an empty one.
pub open spec fn is_one_frame(frame: Seq<char>) -> bool {
    exists|line: Seq<char>|
        frame == #[trigger] ("data: "@ + line + "\n\n"@) && !line.contains('\n')
}

/// A number is left when others are taken out exactly where it was there and is not one of them.
pub proof fn law_without_members(s: Seq<u64>, gone: Seq<u64>, x: u64)
    ensures
        without(s, gone).contains(x) <==> s.contains(x) && !gone.contains(x),
    decreases s.len(),
{
    if s.len() > 0 {
        let short = s.drop_last();
        let rest = without(short, gone);
        law_without_members(short, gone, x);
        assert(s.contains(x) <==> short.contains(x) || s.last() == x) by {
            if s.contains(x) {
                let i = choose|i: int| 0 <= i < s.len() && s[i] == x;
                if i < s.len() - 1 {
                    assert(short[i] == x);
                }
            }
            if short.contains(x) {
                let i = choose|i: int| 0 <= i < short.len() && short[i] == x;
                assert(s[i] == x);
            }
            assert(s[s.len() - 1] == s.last());
        }
        let longer = rest.push(s.last());
        assert(longer.contains(x) <==> rest.contains(x) || s.last() == x) by {
            if longer.contains(x) {
                let i = choose|i: int| 0 <= i < longer.len() && longer[i] == x;
                if i < rest.len() {
                    assert(rest[i] == x);
                }
            }
            if rest.contains(x) {
                let i = choose|i: int| 0 <= i < rest.len() && rest[i] == x;
                assert(longer[i] == x);
            }
            assert(longer[rest.len() as int] == s.last());
        }
    } else {
        assert(!without(s, gone).contains(x));
    }
}

proof fn lemma_without_none(s: Seq<u64>, gone: Seq<u64>)
    requires
        forall|i: int| 0 <= i < s.len() ==> !gone.contains(#[trigger] s[i]),
    ensures
        without(s, gone) == s,
    decreases s.len(),
{
    if s.len() > 0 {
        assert forall|i: int| 0 <= i < s.drop_last().len() implies !gone.contains(
            #[trigger] s.drop_last()[i],
        ) by {
            assert(s.drop_last()[i] == s[i]);
        }
        lemma_without_none(s.drop_last(), gone);
        assert(!gone.contains(s[s.len() - 1]));
        assert(s.drop_last().push(s.last()) =~= s);
    } else {
        assert(without(s, gone) =~= s);
    }
}

proof fn lemma_without_distinct(s: Seq<u64>, gone: Seq<u64>)
    requires
        s.no_duplicates(),
    ensures
        without(s, gone).no_duplicates(),
    decreases s.len(),
{
    if s.len() > 0 {
        let short = s.drop_last();
        lemma_without_distinct(short, gone);
        law_without_members(short, gone, s.last());
        assert(!short.contains(s.last())) by {
            if short.contains(s.last()) {
                let i = choose|i: int| 0 <= i < short.len() && short[i] == s.last();
                assert(s[i] == s[s.len() - 1]);
            }
        }
    }
}

/// Closing the stream that was opened last leaves the streams as they were.
pub proof fn law_unsubscribe_undoes_subscribe(s: Seq<u64>, id: u64)
    requires
        !s.contains(id),
    ensures
        without(s.push(id), seq![id]) == s,
{
    assert(s.push(id).drop_last() =~= s);
    assert(seq![id][0] == id);
    assert(seq![id].contains(id));
    assert forall|i: int| 0 <= i < s.len() implies !seq![id].contains(#[trigger] s[i]) by {
        assert(s.contains(s[i]));
    }
    lemma_without_none(s, seq![id]);
}

/// Closing a stream once more touches no other: the streams that were opened since have numbers
/// behind those that were given before, so every one of them stays, and so do the others.
pub proof fn law_closing_twice_touches_no_other(
    s: Seq<u64>,
    last: u64,
    id: u64,
    opened: Seq<u64>,
)
    requires
        id <= last,
        forall|i: int| 0 <= i < opened.len() ==> #[trigger] opened[i] > last,
    ensures
        without(without(s, seq![id]) + opened, seq![id]) == without(s, seq![id]) + opened,
{
    let gone = seq![id];
    let now = without(s, gone) + opened;
    assert forall|i: int| 0 <= i < now.len() implies !gone.contains(#[trigger] now[i]) by {
        if i < without(s, gone).len() {
            assert(without(s, gone).contains(now[i]));
            law_without_members(s, gone, now[i]);
        } else {
            assert(opened[i - without(s, gone).len()] == now[i]);
        }
    }
    lemma_without_none(now, gone);
}

/// A page finds in what it reads from the stream the name of the event and what it carries.
pub proof fn law_event_value_members(event: Seq<char>, payload: crate::json::JsonView)
    ensures
        event_value(event, payload).text_member("event"@) == Some(event),
        event_value(event, payload).member("payload"@) == Some(payload),
{
    reveal_strlit("event");
    reveal_strlit("payload");
    let entries = seq![("event"@, crate::json::JsonView::Text(event)), ("payload"@, payload)];
    assert("event"@.len() == 5 && "payload"@.len() == 7);
    crate::json::lemma_entries_map_at(entries, 0);
    crate::json::lemma_entries_map_at(entries, 1);
}

impl Hub {
    /// The numbers of the open streams, oldest first.
    pub closed spec fn streams(&self) -> Seq<u64> {
        self.subs@
    }

    /// The number that was given last; zero, where none was.
    pub closed spec fn last(&self) -> u64 {
        self.last
    }

    /// No two open streams have the same number, and none has a number that was not given.
    pub open spec fn wf(&self) -> bool {
        &&& self.streams().no_duplicates()
        &&& forall|i: int| 0 <= i < self.streams().len() ==> #[trigger] self.streams()[i] <= self.last()
    }

    /// No stream is open.
    pub fn new() -> (r: Hub)
        ensures
            r.wf(),
            r.streams() == Seq::<u64>::empty(),
            r.last() == 0,
    {
        Hub { subs: Vec::new(), last: 0 }
    }

    /// Whether there is a number for one more stream.
    pub fn can_subscribe(&self) -> (r: bool)
        ensures
            r == (self.last() < u64::MAX),
    {
        self.last < u64::MAX
    }

    /// Opens a stream under a number that was never given before.
    pub fn subscribe(&mut self) -> (id: u64)
        requires
            old(self).wf(),
            old(self).last() < u64::MAX,
        ensures
            id == old(self).last() + 1,
            final(self).last() == id,
            final(self).streams() == old(self).streams().push(id),
            final(self).wf(),
    {
        let id = self.last + 1;
        self.last = id;
        self.subs.push(id);
        proof {
            let now = self.subs@;
            let then = old(self).streams();
            assert forall|i: int, j: int|
                0 <= i < now.len() && 0 <= j < now.len() && i != j implies now[i] != now[j] by {
                if i == now.len() - 1 {
                    assert(then[j] <= old(self).last());
                }
                if j == now.len() - 1 {
                    assert(then[i] <= old(self).last());
                }
            }
            assert forall|i: int| 0 <= i < now.len() implies #[trigger] now[i] <= id by {
                if i < then.len() {
                    assert(then[i] <= old(self).last());
                }
            }
        }
        id
    }

    /// Closes the streams of the given numbers.
    pub fn drop_streams(&mut self, gone: &Vec<u64>)
        requires
            old(self).wf(),
        ensures
            final(self).streams() == without(old(self).streams(), gone@),
            final(self).last() == old(self).last(),
            final(self).wf(),
    {
        let mut left: Vec<u64> = Vec::new();
        let ghost all = self.subs@;
        let mut i: usize = 0;
        assert(all.take(0) =~= Seq::<u64>::empty());
        while i < self.subs.len()
            invariant
                i <= self.subs@.len(),
                all == self.subs@,
                self.last == old(self).last,
                left@ == without(all.take(i as int), gone@),
            decreases self.subs@.len() - i,
        {
            assert(all.take(i + 1).drop_last() =~= all.take(i as int));
            let id = self.subs[i];
            let mut there = false;
            let mut k: usize = 0;
            while k < gone.len()
                invariant
                    k <= gone@.len(),
                    there == gone@.take(k as int).contains(id),
                decreases gone@.len() - k,
            {
                proof {
                    let next = gone@.take(k + 1);
                    assert(next[k as int] == gone@[k as int]);
                    if gone@.take(k as int).contains(id) {
                        let j = choose|j: int| 0 <= j < k && gone@.take(k as int)[j] == id;
                        assert(next[j] == id);
                    }
                    if next.contains(id) && gone@[k as int] != id {
                        let j = choose|j: int| 0 <= j < k + 1 && next[j] == id;
                        assert(gone@.take(k as int)[j] == id);
                    }
                }
                if gone[k] == id {
                    there = true;
                }
                k = k + 1;
            }
            assert(gone@.take(k as int) =~= gone@);
            if !there {
                left.push(id);
            }
            i = i + 1;
        }
        assert(all.take(i as int) =~= all);
        self.subs = left;
        proof {
            lemma_without_distinct(all, gone@);
            let now = self.subs@;
            assert forall|i: int| 0 <= i < now.len() implies #[trigger] now[i] <= self.last by {
                assert(now.contains(now[i]));
                law_without_members(all, gone@, now[i]);
                let k = choose|k: int| 0 <= k < all.len() && all[k] == now[i];
                assert(old(self).streams()[k] <= old(self).last());
            }
        }
    }

    /// Closes a stream.
    pub fn unsubscribe(&mut self, id: u64)
        requires
            old(self).wf(),
        ensures
            final(self).streams() == without(old(self).streams(), seq![id]),
            final(self).last() == old(self).last(),
            final(self).wf(),
    {
        let gone = vec![id];
        assert(gone@ =~= seq![id]);
        self.drop_streams(&gone);
    }

    /// An event for every open stream. The streams that cannot be reached any more are closed with
    /// `drop_streams`.
    pub fn emit(&self, event: &str, payload: &Json) -> (r: Broadcast)
        ensures
            r.frame@ == frame_text(event@, payload@),
            r.to@ == self.streams(),
            is_one_frame(r.frame@),
            crate::json::plain(payload@, (crate::json::reading_depth() - 1) as nat) ==> exists|
                line: Seq<char>,
            |
                r.frame@ == #[trigger] ("data: "@ + line + "\n\n"@) && crate::json::reads_as(
                    line,
                    event_value(event@, payload@),
                ),
    {
        let entries = vec![
            ("event".to_owned(), Json::Text(event.to_owned())),
            ("payload".to_owned(), payload.copy()),
        ];
        proof {
            assert(crate::json::entry_views(entries@) =~= seq![
                ("event"@, crate::json::JsonView::Text(event@)),
                ("payload"@, payload@),
            ]);
        }
        proof {
            if crate::json::plain(payload@, (crate::json::reading_depth() - 1) as nat) {
                crate::json::lemma_plain_object(
                    seq![("event"@, crate::json::JsonView::Text(event@)), ("payload"@, payload@)],
                    (crate::json::reading_depth() - 1) as nat,
                );
            }
        }
        let text = Json::Object(entries).to_text();
        let frame = sse_frame(text.as_str());
        assert(!text@.contains('\n'));
        assert(frame@ == "data: "@ + text@ + "\n\n"@);
        let mut to: Vec<u64> = Vec::new();
        let mut i: usize = 0;
        while i < self.subs.len()
            invariant
                i <= self.subs@.len(),
                to@ == self.subs@.take(i as int),
            decreases self.subs@.len() - i,
        {
            to.push(self.subs[i]);
            assert(self.subs@.take(i + 1) =~= self.subs@.take(i as int).push(
                self.subs@[i as int],
            ));
            i = i + 1;
        }
        assert(self.subs@.take(i as int) =~= self.subs@);
        Broadcast { frame, to }
    }
}

// The stream of one page.

/// What came of reading from the connection of a page.
#[derive(Debug, Clone, Copy, PartialEq, Eq)]
pub enum PageRead {
    /// The page sent something, which is not looked at.
    Data,
    /// The page closed the connection.
    Closed,
    /// Nothing came in time.
    TimedOut,
    /// The connection is broken.
    Failed,
}

/// Whether a page has left. A page that is silent has not.
pub fn page_left(r: PageRead) -> (b: bool)
    ensures
        b == (r is Closed || r is Failed),
{
    match r {
        PageRead::Closed | PageRead::Failed => true,
        PageRead::Data | PageRead::TimedOut => false,
    }
}

/// The lines that start a stream of events.
pub open spec fn stream_head() -> Seq<char> {
    "HTTP/1.1 200 OK\r\nContent-Type: text/event-stream\r\nCache-Control: no-store\r\nConnection: keep-alive\r\n\r\n"@
}

/// The lines that start a stream of events.
pub fn sse_head() -> (r: &'static str)
    ensures
        r@ == stream_head(),
{
    "HTTP/1.1 200 OK\r\nContent-Type: text/event-stream\r\nCache-Control: no-store\r\nConnection: keep-alive\r\n\r\n"
}

/// The words that carry a line of JSON on the stream.
pub fn sse_frame(json: &str) -> (r: String)
    ensures
        r@ == "data: "@ + json@ + "\n\n"@,
{
    concat3("data: ", json, "\n\n")
}

/// How long a stream stays silent before a comment is sent, in seconds.
pub const PING_SECONDS: u64 = 20;

/// What came of waiting for the next event.
#[derive(Debug)]
pub enum Wait {
    Message(String),
    Timeout,
    Disconnected,
}

/// What came of waiting for the next event, as contracts speak of it.
pub enum WaitView {
    Message(Seq<char>),
    Timeout,
    Disconnected,
}

impl View for Wait {
    type V = WaitView;

    open spec fn view(&self) -> WaitView {
        match *self {
            Wait::Message(m) => WaitView::Message(m@),
            Wait::Timeout => WaitView::Timeout,
            Wait::Disconnected => WaitView::Disconnected,
        }
    }
}

/// What a stream sends next, or `None` where it ends: an event as it came, or a comment when none
/// came in time.
pub open spec fn next_words(w: WaitView) -> Option<Seq<char>> {
    match w {
        WaitView::Message(m) => Some(m),
        WaitView::Timeout => Some(": ping\n\n"@),
        WaitView::Disconnected => None,
    }
}

/// What a stream sends next, or `None` where it ends.
pub fn sse_next(w: Wait) -> (r: Option<String>)
    ensures
        match r {
            Some(s) => next_words(w@) == Some(s@),
            None => next_words(w@) is None,
        },
{
    match w {
        Wait::Message(m) => Some(m),
        Wait::Timeout => Some(": ping\n\n".to_owned()),
        Wait::Disconnected => None,
    }
}

/// A beat of a stream: what comes of waiting, and whether what is sent for it can be written.
pub struct Beat {
    pub wait: WaitView,
    pub written: bool,
}

/// What a stream sends for some beats, one after the other, until one that ends it: a wait that
/// brings nothing to send, or words that cannot be written.
pub open spec fn words_of(beats: Seq<Beat>) -> Seq<Seq<char>>
    decreases beats.len(),
{
    if beats.len() == 0 {
        Seq::empty()
    } else {
        match next_words(beats[0].wait) {
            Some(w) => if beats[0].written {
                seq![w] + words_of(beats.skip(1))
            } else {
                seq![w]
            },
            None => Seq::empty(),
        }
    }
}

/// What is sent in the course of a stream: its head, and then the words of its beats, where the
/// head could be written.
pub open spec fn stream(head_written: bool, beats: Seq<Beat>) -> Seq<Seq<char>> {
    if head_written {
        seq![stream_head()] + words_of(beats)
    } else {
        seq![stream_head()]
    }
}

/// What a stream sends for a beat that does not end it: the event as it came, or a comment.
pub open spec fn beat_words(b: Beat) -> Seq<char> {
    match b.wait {
        WaitView::Message(m) => m,
        _ => ": ping\n\n"@,
    }
}

proof fn lemma_words(beats: Seq<Beat>)
    ensures
        ({
            let words = words_of(beats);
            let n = words.len() as int;
            &&& n <= beats.len()
            &&& forall|i: int|
                0 <= i < n ==> #[trigger] words[i] == beat_words(beats[i]) && !(
                beats[i].wait is Disconnected)
            &&& forall|i: int| 0 <= i < n - 1 ==> (#[trigger] beats[i]).written
            &&& n < beats.len() ==> beats[n].wait is Disconnected || (n > 0 && !beats[n - 1].written)
        }),
    decreases beats.len(),
{
    if beats.len() > 0 && next_words(beats[0].wait) is Some && beats[0].written {
        let rest = beats.skip(1);
        lemma_words(rest);
        let words = words_of(beats);
        let n = words.len() as int;
        assert forall|i: int| 0 <= i < n implies #[trigger] words[i] == beat_words(beats[i]) && !(
        beats[i].wait is Disconnected) by {
            if i > 0 {
                assert(words[i] == words_of(rest)[i - 1]);
                assert(rest[i - 1] == beats[i]);
            }
        }
        assert forall|i: int| 0 <= i < n - 1 implies (#[trigger] beats[i]).written by {
            if i > 0 {
                assert(rest[i - 1] == beats[i]);
            }
        }
        if n < beats.len() {
            assert(rest[n - 1] == beats[n]);
            if n > 1 {
                assert(rest[n - 2] == beats[n - 1]);
            }
        }
    }
}

/// A stream sends its head first, and then for each wait, in order, the event that it brought,
/// once, or a comment where it brought none. It sends nothing behind a wait that found the page
/// gone or words that could not be written, and it does not end before.
pub proof fn law_stream_sends_in_order(head_written: bool, beats: Seq<Beat>)
    ensures
        ({
            let sent = stream(head_written, beats);
            let n = sent.len() - 1;
            &&& n >= 0
            &&& sent[0] == stream_head()
            &&& !head_written ==> n == 0
            &&& n <= beats.len()
            &&& forall|i: int|
                1 <= i <= n ==> #[trigger] sent[i] == beat_words(beats[i - 1]) && !(
                beats[i - 1].wait is Disconnected)
            &&& forall|i: int| 0 <= i < n - 1 ==> (#[trigger] beats[i]).written
            &&& head_written && n < beats.len() ==> beats[n].wait is Disconnected || (n > 0
                && !beats[n - 1].written)
        }),
{
    lemma_words(beats);
    let sent = stream(head_written, beats);
    if head_written {
        assert forall|i: int| 1 <= i < sent.len() implies #[trigger] sent[i] == beat_words(
            beats[i - 1],
        ) && !(beats[i - 1].wait is Disconnected) by {
            assert(sent[i] == words_of(beats)[i - 1]);
        }
    }
}

// The course of the hub.

/// What is done with the streams: one more is opened, or some are closed.
pub enum HubAct {
    Open,
    Close(Seq<u64>),
}

/// The number that was given last after some acts.
pub open spec fn last_after(acts: Seq<HubAct>) -> nat
    decreases acts.len(),
{
    if acts.len() == 0 {
        0
    } else if acts.last() is Open {
        last_after(acts.drop_last()) + 1
    } else {
        last_after(acts.drop_last())
    }
}

/// The streams that are open after some acts.
pub open spec fn streams_after(acts: Seq<HubAct>) -> Seq<u64>
    decreases acts.len(),
{
    if acts.len() == 0 {
        Seq::empty()
    } else {
        let before = streams_after(acts.drop_last());
        match acts.last() {
            HubAct::Open => before.push((last_after(acts.drop_last()) + 1) as u64),
            HubAct::Close(gone) => without(before, gone),
        }
    }
}

/// Whether an act opened a stream and no later one closed it.
pub open spec fn open_since(acts: Seq<HubAct>, i: int, id: u64) -> bool {
    &&& 0 <= i < acts.len()
    &&& acts[i] is Open
    &&& id == last_after(acts.take(i)) + 1
    &&& forall|k: int|
        i < k < acts.len() ==> (#[trigger] acts[k] matches HubAct::Close(gone) ==> !gone.contains(
            id,
        ))
}

proof fn lemma_last_after(acts: Seq<HubAct>)
    ensures
        last_after(acts) <= acts.len(),
    decreases acts.len(),
{
    if acts.len() > 0 {
        lemma_last_after(acts.drop_last());
    }
}

/// Over every course of openings and closings, a stream is open, and so is sent an event, exactly
/// where it was opened under its number and was not closed since.
pub proof fn law_open_streams(acts: Seq<HubAct>, id: u64)
    requires
        acts.len() <= u64::MAX,
    ensures
        streams_after(acts).contains(id) <==> exists|i: int| #[trigger] open_since(acts, i, id),
    decreases acts.len(),
{
    if acts.len() > 0 {
        let n = acts.len() - 1;
        let before = acts.drop_last();
        let then = streams_after(before);
        let now = streams_after(acts);
        law_open_streams(before, id);
        lemma_last_after(before);
        assert(acts.take(n) =~= before);
        match acts.last() {
            HubAct::Open => {
                let new = (last_after(before) + 1) as u64;
                assert(now.contains(id) <==> then.contains(id) || id == new) by {
                    if now.contains(id) {
                        let k = choose|k: int| 0 <= k < now.len() && now[k] == id;
                        if k < then.len() {
                            assert(then[k] == id);
                        }
                    }
                    if then.contains(id) {
                        let k = choose|k: int| 0 <= k < then.len() && then[k] == id;
                        assert(now[k] == id);
                    }
                    assert(now[then.len() as int] == new);
                }
                if id == new {
                    assert(open_since(acts, n, id));
                }
            },
            HubAct::Close(gone) => {
                law_without_members(then, gone, id);
            },
        }
        if now.contains(id) && then.contains(id) {
            let i = choose|i: int| #[trigger] open_since(before, i, id);
            assert(before.take(i) =~= acts.take(i));
            assert(before[i] == acts[i]);
            assert forall|k: int| i < k < acts.len() implies (#[trigger] acts[k] matches HubAct::Close(
                gone,
            ) ==> !gone.contains(id)) by {
                if k < n {
                    assert(before[k] == acts[k]);
                }
            }
            assert(open_since(acts, i, id));
        }
        if exists|i: int| #[trigger] open_since(acts, i, id) {
            let i = choose|i: int| #[trigger] open_since(acts, i, id);
            if i < n {
                assert(before.take(i) =~= acts.take(i));
                assert forall|k: int| i < k < before.len() implies (#[trigger] before[k] matches HubAct::Close(
                    gone,
                ) ==> !gone.contains(id)) by {
                    assert(before[k] == acts[k]);
                }
                assert(before[i] == acts[i]);
                assert(open_since(before, i, id));
                assert(acts[n] == acts.last());
            }
        }
    } else {
        assert(!streams_after(acts).contains(id));
    }
}

// Laws of single parts.

/// The numbers that are left of two lists, one behind the other, are those left of the first and
/// then those left of the second; one number is left, once, unless it is taken out.
pub proof fn law_numbers_stay_in_order(a: Seq<u64>, b: Seq<u64>, gone: Seq<u64>, x: u64)
    ensures
        without(a + b, gone) == without(a, gone) + without(b, gone),
        gone.contains(x) ==> without(seq![x], gone).len() == 0,
        !gone.contains(x) ==> without(seq![x], gone) == seq![x],
    decreases b.len(),
{
    reveal_with_fuel(without, 2);
    assert(seq![x].drop_last() =~= Seq::empty());
    if !gone.contains(x) {
        assert(without(seq![x], gone) =~= seq![x]);
    }
    if b.len() == 0 {
        assert(a + b =~= a);
        assert(without(a, gone) + without(b, gone) =~= without(a, gone));
    } else {
        assert((a + b).drop_last() =~= a + b.drop_last());
        law_numbers_stay_in_order(a, b.drop_last(), gone, x);
        assert(without(a + b, gone) =~= without(a, gone) + without(b, gone));
    }
}

/// An event on the stream holds nothing but its name and what it carries.
pub proof fn law_event_holds_no_more(
    event: Seq<char>, payload: crate::json::JsonView, other: Seq<char>)
    requires
        other != "event"@,
        other != "payload"@,
    ensures
        event_value(event, payload).member(other) is None,
{
    crate::json::lemma_entries_map(
        seq![("event"@, crate::json::JsonView::Text(event)), ("payload"@, payload)],
        other,
    );
}

/// An event is sent as one data line with the compact text of its value, and an empty line; words
/// are one event of the stream where they are such lines.
pub proof fn law_frames(
    event: Seq<char>, payload: crate::json::JsonView, line: Seq<char>, frame: Seq<char>)
    ensures
        frame_text(event, payload) == seq!['d', 'a', 't', 'a', ':', ' '] + crate::json::json_text(
            event_value(event, payload),
        ) + seq!['\n', '\n'],
        !line.contains('\n') ==> is_one_frame(
            seq!['d', 'a', 't', 'a', ':', ' '] + line + seq!['\n', '\n'],
        ),
        is_one_frame(frame)
            ==> frame.len() >= 8 && frame.take(6) == seq!['d', 'a', 't', 'a', ':', ' ']
            && frame.skip(frame.len() - 2) == seq!['\n', '\n'] && !frame.subrange(
            6,
            frame.len() - 2,
        ).contains('\n'),
{
    reveal_strlit("data: ");
    reveal_strlit("\n\n");
    assert("data: "@ =~= seq!['d', 'a', 't', 'a', ':', ' ']);
    assert("\n\n"@ =~= seq!['\n', '\n']);
    if is_one_frame(frame) {
        let l = choose|l: Seq<char>| frame == #[trigger] ("data: "@ + l + "\n\n"@)
            && !l.contains('\n');
        assert(frame.take(6) =~= "data: "@);
        assert(frame.skip(frame.len() - 2) =~= "\n\n"@);
        assert(frame.subrange(6, frame.len() - 2) =~= l);
    }
    if !line.contains('\n') {
        let one = "data: "@ + line + "\n\n"@;
        assert(is_one_frame(one));
    }
}

/// A stream starts with a status that is well, the type of a stream of events, that no cache keeps
/// it, that the connection is kept, and an empty line.
pub proof fn law_head_of_a_stream()
    ensures
        stream_head()
            == "HTTP/1.1 200 OK"@ + seq!['\r', '\n'] + "Content-Type: text/event-stream"@ + seq![
            '\r',
            '\n',
        ] + "Cache-Control: no-store"@ + seq!['\r', '\n'] + "Connection: keep-alive"@ + seq![
            '\r',
            '\n',
            '\r',
            '\n',
        ],
{
    reveal_strlit(
        "HTTP/1.1 200 OK\r\nContent-Type: text/event-stream\r\nCache-Control: no-store\r\nConnection: keep-alive\r\n\r\n",
    );
    reveal_strlit("HTTP/1.1 200 OK");
    reveal_strlit("Content-Type: text/event-stream");
    reveal_strlit("Cache-Control: no-store");
    reveal_strlit("Connection: keep-alive");
    assert(stream_head(
        ) =~= "HTTP/1.1 200 OK"@ + seq!['\r', '\n'] + "Content-Type: text/event-stream"@
        + seq!['\r', '\n'] + "Cache-Control: no-store"@ + seq!['\r', '\n']
            + "Connection: keep-alive"@
        + seq!['\r', '\n', '\r', '\n']);
}

/// A stream sends an event as it came and, when none came for twenty seconds, a comment; it ends
/// when none will come any more.
pub proof fn law_next_words(m: Seq<char>, w: Wait)
    ensures
        next_words(WaitView::Message(m)) == Some(m),
        next_words(WaitView::Timeout) == Some(": ping\n\n"@),
        next_words(WaitView::Disconnected) is None,
        PING_SECONDS == 20,
        match w {
            Wait::Message(t) => w@ matches WaitView::Message(v) && v == t@,
            Wait::Timeout => w@ is Timeout,
            Wait::Disconnected => w@ is Disconnected,
        },
{
}

} // verus!
