//! What holds of every conversation the server can have, proved over the
//! step function of `server`.

use vstd::prelude::*;

use crate::path::within;
use crate::response::{binary_header_spec, decimal_spec, forbidden_line, not_found_line, DIGIT_ZERO};
use crate::server::{
    dispatch, fallback_page, index_page, next, serve_body, stop, to_fallback, ActionView,
    EntryKind, EventView, PhaseView, CHUNK_SIZE,
};

verus! {

/// Every path that `a` reads, opens or inspects lies under `root`.
pub open spec fn reads_inside(root: Seq<Seq<u8>>, a: ActionView) -> bool {
    match a {
        ActionView::Classify(p) => within(root, p),
        ActionView::ReadText(p) => within(root, p),
        ActionView::MeasureSize(p) => within(root, p),
        ActionView::SendHeader(_, p) => within(root, p),
        _ => true,
    }
}

/// Every path that `phase` remembers lies under `root`.
pub open spec fn phase_inside(root: Seq<Seq<u8>>, phase: PhaseView) -> bool {
    match phase {
        PhaseView::Classifying(t) => within(root, t),
        PhaseView::ReadingFile(t) => within(root, t),
        PhaseView::Sizing(t) => within(root, t),
        _ => true,
    }
}

/// The phases and actions that follow `phase` on `events`, in order.
pub open spec fn run(root: Seq<Seq<u8>>, phase: PhaseView, events: Seq<EventView>) -> (
    PhaseView,
    Seq<ActionView>,
)
    decreases events.len(),
{
    if events.len() == 0 {
        (phase, Seq::empty())
    } else {
        let (p, a) = next(root, phase, events[0]);
        let (last, rest) = run(root, p, events.drop_first());
        (last, seq![a] + rest)
    }
}

/// A whole connection: the first action, decided from the request's lines, and
/// the actions that follow on `events`.
pub open spec fn conversation(root: Seq<Seq<u8>>, lines: Seq<Seq<u8>>, events: Seq<EventView>) -> (
    PhaseView,
    Seq<ActionView>,
) {
    let (p, a) = dispatch(root, lines);
    let (last, rest) = run(root, p, events);
    (last, seq![a] + rest)
}

/// The bytes of the chunks, in order, that `actions` write while streaming.
pub open spec fn written(actions: Seq<ActionView>) -> Seq<u8>
    decreases actions.len(),
{
    if actions.len() == 0 {
        Seq::empty()
    } else {
        let here = match actions[0] {
            ActionView::Write(b) => b,
            _ => Seq::empty(),
        };
        here + written(actions.drop_first())
    }
}

/// The bytes of `chunks` one after another.
pub open spec fn flatten(chunks: Seq<Seq<u8>>) -> Seq<u8>
    decreases chunks.len(),
{
    if chunks.len() == 0 {
        Seq::empty()
    } else {
        chunks[0] + flatten(chunks.drop_first())
    }
}

/// What the outside world reports while a file made of `chunks` is streamed
/// without failure: each write succeeds, each read returns the next chunk, and
/// the last read returns nothing.
pub open spec fn smooth_stream(chunks: Seq<Seq<u8>>) -> Seq<EventView>
    decreases chunks.len(),
{
    if chunks.len() == 0 {
        seq![EventView::Wrote(true), EventView::Chunk(Some(Seq::empty()))]
    } else {
        seq![EventView::Wrote(true), EventView::Chunk(Some(chunks[0]))] + smooth_stream(
            chunks.drop_first(),
        )
    }
}

/// The number that a string of decimal digits denotes.
pub open spec fn digits_value(s: Seq<u8>) -> int
    decreases s.len(),
{
    if s.len() == 0 {
        0
    } else {
        digits_value(s.drop_last()) * 10 + (s.last() - DIGIT_ZERO)
    }
}

/// Every byte of `s` is an ASCII digit.
pub open spec fn all_digits(s: Seq<u8>) -> bool {
    forall|i: int| 0 <= i < s.len() ==> DIGIT_ZERO <= #[trigger] s[i] < DIGIT_ZERO + 10
}

proof fn lemma_within_extended(root: Seq<Seq<u8>>, p: Seq<Seq<u8>>, name: Seq<u8>)
    requires
        within(root, p),
    ensures
        within(root, p.push(name)),
{
    assert(p.push(name).subrange(0, root.len() as int) =~= p.subrange(0, root.len() as int));
}

proof fn lemma_root_within(root: Seq<Seq<u8>>)
    ensures
        within(root, root),
{
    assert(root.subrange(0, root.len() as int) =~= root);
}

/// A path whose canonical form escapes the web root is answered with the bare
/// `403` status line, and once that is sent nothing else is read or written.
pub proof fn lemma_escape_forbidden(root: Seq<Seq<u8>>, c: Seq<Seq<u8>>)
    requires
        !within(root, c),
    ensures
        next(root, PhaseView::Resolving, EventView::Resolved(Some(c))) == (
            PhaseView::Finished,
            ActionView::Send(forbidden_line()),
        ),
        forall|e: EventView| #[trigger] next(root, PhaseView::Finished, e) == stop(),
{
}

/// No step ever reads, opens or inspects a path outside the web root: the
/// first action only asks for a canonical path, and from there on every path
/// handed out was found under the root or is built below it.
pub proof fn lemma_reads_stay_inside(
    root: Seq<Seq<u8>>,
    lines: Seq<Seq<u8>>,
    phase: PhaseView,
    event: EventView,
)
    requires
        phase_inside(root, phase),
    ensures
        phase_inside(root, dispatch(root, lines).0),
        reads_inside(root, dispatch(root, lines).1),
        phase_inside(root, next(root, phase, event).0),
        reads_inside(root, next(root, phase, event).1),
{
    lemma_root_within(root);
    lemma_within_extended(root, root, fallback_page());
    match (phase, event) {
        (PhaseView::Classifying(t), EventView::Kind(EntryKind::Directory)) => {
            lemma_within_extended(root, t, index_page());
        },
        _ => {},
    }
}

/// A regular file under the web root that reads as text is served with status
/// `200` and its exact contents as the body.
pub proof fn lemma_text_file_served(root: Seq<Seq<u8>>, t: Seq<Seq<u8>>, body: Seq<u8>)
    requires
        within(root, t),
    ensures
        run(
            root,
            PhaseView::Resolving,
            seq![
                EventView::Resolved(Some(t)),
                EventView::Kind(EntryKind::File),
                EventView::Text(Some(body)),
            ],
        ) == (
            PhaseView::Finished,
            seq![
                ActionView::Classify(t),
                ActionView::ReadText(t),
                serve_body(body).1,
            ],
        ),
{
    let e = seq![
        EventView::Resolved(Some(t)),
        EventView::Kind(EntryKind::File),
        EventView::Text(Some(body)),
    ];
    assert(e.drop_first() =~= seq![EventView::Kind(EntryKind::File), EventView::Text(Some(body))]);
    assert(e.drop_first().drop_first() =~= seq![EventView::Text(Some(body))]);
    assert(e.drop_first().drop_first().drop_first() =~= Seq::<EventView>::empty());
    let e3 = e.drop_first().drop_first();
    assert(run(root, PhaseView::Finished, e3.drop_first()) == (PhaseView::Finished, Seq::<ActionView>::empty()));
    assert(seq![serve_body(body).1] + Seq::<ActionView>::empty() =~= seq![serve_body(body).1]);
    assert(run(root, PhaseView::ReadingFile(t), e3) == (PhaseView::Finished, seq![serve_body(body).1]));
    assert(seq![ActionView::ReadText(t)] + seq![serve_body(body).1] =~= seq![
        ActionView::ReadText(t),
        serve_body(body).1,
    ]);
    assert(run(root, PhaseView::Classifying(t), e.drop_first()) == (
        PhaseView::Finished,
        seq![ActionView::ReadText(t), serve_body(body).1],
    ));
    let a = seq![ActionView::Classify(t), ActionView::ReadText(t), serve_body(body).1];
    assert(seq![ActionView::Classify(t)] + seq![ActionView::ReadText(t), serve_body(body).1] =~= a);
}

/// The `Content-Length` of a binary attachment is the decimal form of the size
/// that was measured: only digits, denoting exactly that size.
pub proof fn lemma_content_length(n: u64)
    ensures
        binary_header_spec(n) == crate::response::binary_head() + decimal_spec(n)
            + crate::response::binary_tail(),
        all_digits(decimal_spec(n)),
        digits_value(decimal_spec(n)) == n,
    decreases n,
{
    if n >= 10 {
        lemma_content_length(n / 10);
        let s = decimal_spec(n);
        assert(s.drop_last() =~= decimal_spec(n / 10));
        assert(s.last() == DIGIT_ZERO + n % 10);
        assert((n / 10) as int * 10 + n % 10 == n);
        assert(digits_value(s) == digits_value(s.drop_last()) * 10 + (s.last() - DIGIT_ZERO));
    } else {
        let s = decimal_spec(n);
        assert(s.drop_last() =~= Seq::<u8>::empty());
        assert(s.last() == DIGIT_ZERO + n);
        assert(digits_value(s.drop_last()) == 0);
    }
}

/// A directory is answered with its `index.html` when that reads as text, else
/// with the web root's `404.html` under status `200`, else with the bare `404`
/// status line.
pub proof fn lemma_directory_chain(
    root: Seq<Seq<u8>>,
    d: Seq<Seq<u8>>,
    index: Seq<u8>,
    page: Seq<u8>,
)
    requires
        within(root, d),
    ensures
        next(root, PhaseView::Resolving, EventView::Resolved(Some(d))) == (
            PhaseView::Classifying(d),
            ActionView::Classify(d),
        ),
        next(root, PhaseView::Classifying(d), EventView::Kind(EntryKind::Directory)) == (
            PhaseView::ReadingIndex,
            ActionView::ReadText(d.push(index_page())),
        ),
        next(root, PhaseView::ReadingIndex, EventView::Text(Some(index))) == serve_body(index),
        next(root, PhaseView::ReadingIndex, EventView::Text(None)) == (
            PhaseView::ReadingFallback,
            ActionView::ReadText(root.push(fallback_page())),
        ),
        next(root, PhaseView::ReadingFallback, EventView::Text(Some(page))) == serve_body(page),
        next(root, PhaseView::ReadingFallback, EventView::Text(None)) == (
            PhaseView::Finished,
            ActionView::Send(not_found_line()),
        ),
{
}

/// A path that cannot be resolved goes down the same fallback chain as a
/// directory without `index.html`.
pub proof fn lemma_missing_like_bare_directory(root: Seq<Seq<u8>>)
    ensures
        next(root, PhaseView::Resolving, EventView::Resolved(None)) == next(
            root,
            PhaseView::ReadingIndex,
            EventView::Text(None),
        ),
        next(root, PhaseView::Resolving, EventView::Resolved(None)) == to_fallback(root),
{
}

/// A regular file under the web root that does not read as text is announced
/// as an attachment whose header carries the measured size, and then streamed.
pub proof fn lemma_binary_file_announced(root: Seq<Seq<u8>>, t: Seq<Seq<u8>>, n: u64)
    requires
        within(root, t),
    ensures
        next(root, PhaseView::Classifying(t), EventView::Kind(EntryKind::File)) == (
            PhaseView::ReadingFile(t),
            ActionView::ReadText(t),
        ),
        next(root, PhaseView::ReadingFile(t), EventView::Text(None)) == (
            PhaseView::Sizing(t),
            ActionView::MeasureSize(t),
        ),
        next(root, PhaseView::Sizing(t), EventView::Size(Some(n))) == (
            PhaseView::Streaming,
            ActionView::SendHeader(binary_header_spec(n), t),
        ),
        next(root, PhaseView::Streaming, EventView::Wrote(true)) == (
            PhaseView::Streaming,
            ActionView::ReadChunk(CHUNK_SIZE),
        ),
{
}

/// Streaming a file made of non-empty `chunks` writes exactly their bytes, in
/// order, and then finishes.
pub proof fn lemma_stream_reproduces(root: Seq<Seq<u8>>, chunks: Seq<Seq<u8>>)
    requires
        forall|i: int| 0 <= i < chunks.len() ==> (#[trigger] chunks[i]).len() > 0,
    ensures
        run(root, PhaseView::Streaming, smooth_stream(chunks)).0 == PhaseView::Finished,
        written(run(root, PhaseView::Streaming, smooth_stream(chunks)).1) == flatten(chunks),
    decreases chunks.len(),
{
    let e = smooth_stream(chunks);
    if chunks.len() == 0 {
        assert(e == seq![EventView::Wrote(true), EventView::Chunk(Some(Seq::<u8>::empty()))]);
        let tail = e.drop_first();
        assert(tail =~= seq![EventView::Chunk(Some(Seq::<u8>::empty()))]);
        assert(tail.drop_first() =~= Seq::<EventView>::empty());
        assert(next(root, PhaseView::Streaming, tail[0]) == stop());
        assert(run(root, PhaseView::Finished, tail.drop_first()) == (
            PhaseView::Finished,
            Seq::<ActionView>::empty(),
        ));
        let r2 = run(root, PhaseView::Streaming, tail);
        assert(r2 == (PhaseView::Finished, seq![ActionView::Close] + Seq::<ActionView>::empty()));
        let acts = seq![ActionView::ReadChunk(CHUNK_SIZE)] + r2.1;
        assert(acts.drop_first() =~= r2.1);
        assert(r2.1.drop_first() =~= Seq::<ActionView>::empty());
        assert(written(r2.1.drop_first()) == Seq::<u8>::empty());
        assert(written(r2.1) =~= Seq::<u8>::empty());
        assert(written(acts) =~= Seq::<u8>::empty());
    } else {
        let c = chunks[0];
        let rest = chunks.drop_first();
        assert forall|i: int| 0 <= i < rest.len() implies (#[trigger] rest[i]).len() > 0 by {
            assert(rest[i] == chunks[i + 1]);
        }
        lemma_stream_reproduces(root, rest);
        let tail = e.drop_first();
        assert(tail =~= seq![EventView::Chunk(Some(c))] + smooth_stream(rest));
        assert(tail.drop_first() =~= smooth_stream(rest));
        let r3 = run(root, PhaseView::Streaming, smooth_stream(rest));
        let r2 = run(root, PhaseView::Streaming, tail);
        assert(r2 == (r3.0, seq![ActionView::Write(c)] + r3.1));
        let acts = seq![ActionView::ReadChunk(CHUNK_SIZE)] + r2.1;
        assert(acts.drop_first() =~= r2.1);
        assert(r2.1.drop_first() =~= r3.1);
        assert(written(r2.1) == c + written(r3.1));
        assert(written(acts) =~= Seq::<u8>::empty() + written(r2.1));
    }
}

/// The same request, met by the same answers from an unchanged filesystem,
/// gets the same actions and so the same bytes.
pub proof fn lemma_same_request_same_reply(
    root: Seq<Seq<u8>>,
    lines: Seq<Seq<u8>>,
    first: Seq<EventView>,
    second: Seq<EventView>,
)
    requires
        first == second,
    ensures
        conversation(root, lines, first) == conversation(root, lines, second),
{
}

} // verus!
