use vstd::prelude::*;
use vstd::string::StringSliceAdditionalSpecFns;

use crate::path::{is_within, join_request_path, joined, within};
use crate::request::{parse_request_line, parse_spec, Method};
use crate::response::{
    binary_header, binary_header_spec, forbidden, forbidden_line, not_found, not_found_line,
    not_implemented, not_implemented_line, ok_head, ok_with_body,
};

verus! {

/// How many bytes of a binary file are read, and written, at a time.
pub const CHUNK_SIZE: usize = 4096;

/// The page served for a directory.
pub open spec fn index_page() -> Seq<u8> {
    "index.html".spec_bytes()
}

/// The page, at the web root, served when nothing more specific can be.
pub open spec fn fallback_page() -> Seq<u8> {
    "404.html".spec_bytes()
}

/// What a canonical path names on disk.
#[derive(Clone, Copy, Debug, PartialEq, Eq, Structural)]
pub enum EntryKind {
    Directory,
    File,
    Other,
}

/// Where a GET request stands while the filesystem is consulted.
#[derive(Debug)]
pub enum Phase {
    /// Waiting for the canonical form of the joined path.
    Resolving,
    /// Waiting to learn what the canonical path `target` names.
    Classifying { target: Vec<Vec<u8>> },
    /// Waiting for the directory's `index.html`.
    ReadingIndex,
    /// Waiting for the web root's `404.html`.
    ReadingFallback,
    /// Waiting for the file `target` read as text.
    ReadingFile { target: Vec<Vec<u8>> },
    /// Waiting for the size of the binary file `target`.
    Sizing { target: Vec<Vec<u8>> },
    /// Sending a binary file chunk by chunk.
    Streaming,
    /// The response is complete; the connection is to be closed.
    Finished,
}

/// What the outside world reports back after an [`Action`].
#[derive(Debug)]
pub enum Event {
    /// The canonical path, or `None` when it could not be resolved.
    Resolved(Option<Vec<Vec<u8>>>),
    /// What the canonical path names.
    Kind(EntryKind),
    /// A file's contents when they could be read as UTF-8 text.
    Text(Option<Vec<u8>>),
    /// A file's size in bytes, when it could be learned.
    Size(Option<u64>),
    /// The next chunk of the streamed file (empty at its end), or `None` when reading failed.
    Chunk(Option<Vec<u8>>),
    /// Whether the last write reached the client.
    Wrote(bool),
}

/// What the server asks of the outside world next.
#[derive(Debug)]
pub enum Action {
    /// Write nothing more and close the connection.
    Close,
    /// Canonicalise this path, resolving `.`, `..` and symbolic links.
    Canonicalize(Vec<Vec<u8>>),
    /// Find out whether this path is a directory, a regular file or neither.
    Classify(Vec<Vec<u8>>),
    /// Read this file as UTF-8 text.
    ReadText(Vec<Vec<u8>>),
    /// Find out this file's size.
    MeasureSize(Vec<Vec<u8>>),
    /// Write these bytes, then close the connection.
    Send(Vec<u8>),
    /// Write this header, then open the file for streaming.
    SendHeader(Vec<u8>, Vec<Vec<u8>>),
    /// Read at most this many bytes of the streamed file.
    ReadChunk(usize),
    /// Write this chunk of the streamed file.
    Write(Vec<u8>),
}

/// The mathematical form of a [`Phase`].
pub enum PhaseView {
    Resolving,
    Classifying(Seq<Seq<u8>>),
    ReadingIndex,
    ReadingFallback,
    ReadingFile(Seq<Seq<u8>>),
    Sizing(Seq<Seq<u8>>),
    Streaming,
    Finished,
}

/// The mathematical form of an [`Event`].
pub enum EventView {
    Resolved(Option<Seq<Seq<u8>>>),
    Kind(EntryKind),
    Text(Option<Seq<u8>>),
    Size(Option<u64>),
    Chunk(Option<Seq<u8>>),
    Wrote(bool),
}

/// The mathematical form of an [`Action`].
pub enum ActionView {
    Close,
    Canonicalize(Seq<Seq<u8>>),
    Classify(Seq<Seq<u8>>),
    ReadText(Seq<Seq<u8>>),
    MeasureSize(Seq<Seq<u8>>),
    Send(Seq<u8>),
    SendHeader(Seq<u8>, Seq<Seq<u8>>),
    ReadChunk(usize),
    Write(Seq<u8>),
}

impl View for Phase {
    type V = PhaseView;

    open spec fn view(&self) -> PhaseView {
        match self {
            Phase::Resolving => PhaseView::Resolving,
            Phase::Classifying { target } => PhaseView::Classifying(target.deep_view()),
            Phase::ReadingIndex => PhaseView::ReadingIndex,
            Phase::ReadingFallback => PhaseView::ReadingFallback,
            Phase::ReadingFile { target } => PhaseView::ReadingFile(target.deep_view()),
            Phase::Sizing { target } => PhaseView::Sizing(target.deep_view()),
            Phase::Streaming => PhaseView::Streaming,
            Phase::Finished => PhaseView::Finished,
        }
    }
}

impl View for Event {
    type V = EventView;

    open spec fn view(&self) -> EventView {
        match self {
            Event::Resolved(p) => EventView::Resolved(
                match p {
                    Some(c) => Some(c.deep_view()),
                    None => None,
                },
            ),
            Event::Kind(k) => EventView::Kind(*k),
            Event::Text(t) => EventView::Text(
                match t {
                    Some(b) => Some(b@),
                    None => None,
                },
            ),
            Event::Size(n) => EventView::Size(*n),
            Event::Chunk(c) => EventView::Chunk(
                match c {
                    Some(b) => Some(b@),
                    None => None,
                },
            ),
            Event::Wrote(ok) => EventView::Wrote(*ok),
        }
    }
}

impl View for Action {
    type V = ActionView;

    open spec fn view(&self) -> ActionView {
        match self {
            Action::Close => ActionView::Close,
            Action::Canonicalize(p) => ActionView::Canonicalize(p.deep_view()),
            Action::Classify(p) => ActionView::Classify(p.deep_view()),
            Action::ReadText(p) => ActionView::ReadText(p.deep_view()),
            Action::MeasureSize(p) => ActionView::MeasureSize(p.deep_view()),
            Action::Send(b) => ActionView::Send(b@),
            Action::SendHeader(h, p) => ActionView::SendHeader(h@, p.deep_view()),
            Action::ReadChunk(n) => ActionView::ReadChunk(*n),
            Action::Write(b) => ActionView::Write(b@),
        }
    }
}

/// The first step of a connection, decided from the request's lines.
pub open spec fn dispatch(root: Seq<Seq<u8>>, lines: Seq<Seq<u8>>) -> (PhaseView, ActionView) {
    if lines.len() == 0 {
        (PhaseView::Finished, ActionView::Close)
    } else {
        match parse_spec(lines[0]) {
            None => (PhaseView::Finished, ActionView::Close),
            Some((Method::Get, p)) => (PhaseView::Resolving, ActionView::Canonicalize(joined(root, p))),
            Some((Method::Unknown, _)) => (PhaseView::Finished, ActionView::Close),
            Some(_) => (PhaseView::Finished, ActionView::Send(not_implemented_line())),
        }
    }
}

/// Ask for the web root's fallback page.
pub open spec fn to_fallback(root: Seq<Seq<u8>>) -> (PhaseView, ActionView) {
    (PhaseView::ReadingFallback, ActionView::ReadText(root.push(fallback_page())))
}

/// Send a `200` response with `body` and finish.
pub open spec fn serve_body(body: Seq<u8>) -> (PhaseView, ActionView) {
    (PhaseView::Finished, ActionView::Send(ok_head() + body))
}

/// Finish without writing anything more.
pub open spec fn stop() -> (PhaseView, ActionView) {
    (PhaseView::Finished, ActionView::Close)
}

/// The step a GET request takes on an event, for a server whose web root is `root`.
pub open spec fn next(root: Seq<Seq<u8>>, phase: PhaseView, event: EventView) -> (PhaseView, ActionView) {
    match (phase, event) {
        (PhaseView::Resolving, EventView::Resolved(None)) => to_fallback(root),
        (PhaseView::Resolving, EventView::Resolved(Some(c))) => if within(root, c) {
            (PhaseView::Classifying(c), ActionView::Classify(c))
        } else {
            (PhaseView::Finished, ActionView::Send(forbidden_line()))
        },
        (PhaseView::Classifying(t), EventView::Kind(EntryKind::Directory)) => (
            PhaseView::ReadingIndex,
            ActionView::ReadText(t.push(index_page())),
        ),
        (PhaseView::Classifying(t), EventView::Kind(EntryKind::File)) => (
            PhaseView::ReadingFile(t),
            ActionView::ReadText(t),
        ),
        (PhaseView::ReadingIndex, EventView::Text(Some(b))) => serve_body(b),
        (PhaseView::ReadingIndex, EventView::Text(None)) => to_fallback(root),
        (PhaseView::ReadingFallback, EventView::Text(Some(b))) => serve_body(b),
        (PhaseView::ReadingFallback, EventView::Text(None)) => (
            PhaseView::Finished,
            ActionView::Send(not_found_line()),
        ),
        (PhaseView::ReadingFile(_), EventView::Text(Some(b))) => serve_body(b),
        (PhaseView::ReadingFile(t), EventView::Text(None)) => (
            PhaseView::Sizing(t),
            ActionView::MeasureSize(t),
        ),
        (PhaseView::Sizing(t), EventView::Size(Some(n))) => (
            PhaseView::Streaming,
            ActionView::SendHeader(binary_header_spec(n), t),
        ),
        (PhaseView::Sizing(_), EventView::Size(None)) => to_fallback(root),
        (PhaseView::Streaming, EventView::Wrote(true)) => (
            PhaseView::Streaming,
            ActionView::ReadChunk(CHUNK_SIZE),
        ),
        (PhaseView::Streaming, EventView::Chunk(Some(b))) => if b.len() > 0 {
            (PhaseView::Streaming, ActionView::Write(b))
        } else {
            stop()
        },
        _ => stop(),
    }
}

/// A server that answers requests from the files under a web root.
pub struct HttpServer {
    web_root: Vec<Vec<u8>>,
}

impl HttpServer {
    /// The components of the canonical web root.
    pub closed spec fn root(&self) -> Seq<Seq<u8>> {
        self.web_root.deep_view()
    }

    /// A server for the canonical, absolute web root whose components are `web_root`.
    pub fn new(web_root: Vec<Vec<u8>>) -> (s: HttpServer)
        ensures
            s.root() == web_root.deep_view(),
    {
        HttpServer { web_root }
    }

    /// The components of the canonical web root.
    pub fn web_root(&self) -> (r: &Vec<Vec<u8>>)
        ensures
            r.deep_view() == self.root(),
    {
        &self.web_root
    }

    /// The first step of a connection, from the lines of its request up to the blank line.
    pub fn handle(&self, lines: &Vec<Vec<u8>>) -> (r: (Phase, Action))
        ensures
            (r.0@, r.1@) == dispatch(self.root(), lines.deep_view()),
    {
        if lines.len() == 0 {
            return (Phase::Finished, Action::Close);
        }
        assert(lines.deep_view()[0] =~= lines@[0]@);
        match parse_request_line(lines[0].as_slice()) {
            None => (Phase::Finished, Action::Close),
            Some(q) => match q.method {
                Method::Get => {
                    let target = join_request_path(&self.web_root, q.path.as_slice());
                    (Phase::Resolving, Action::Canonicalize(target))
                },
                Method::Unknown => (Phase::Finished, Action::Close),
                _ => (Phase::Finished, Action::Send(not_implemented())),
            },
        }
    }

    /// The next step of a GET request, given what the last action brought back.
    pub fn step(&self, phase: Phase, event: Event) -> (r: (Phase, Action))
        ensures
            (r.0@, r.1@) == next(self.root(), phase@, event@),
    {
        match (phase, event) {
            (Phase::Resolving, Event::Resolved(None)) => self.fallback(),
            (Phase::Resolving, Event::Resolved(Some(c))) => {
                if is_within(&self.web_root, &c) {
                    let t = c.clone();
                    (Phase::Classifying { target: c }, Action::Classify(t))
                } else {
                    (Phase::Finished, Action::Send(forbidden()))
                }
            },
            (Phase::Classifying { target }, Event::Kind(EntryKind::Directory)) => {
                let mut p = target;
                let ghost a = p.deep_view();
                let name = crate::response::bytes_of("index.html");
                assert(name.deep_view() =~= name@);
                p.push(name);
                assert(p.deep_view() =~= a.push(index_page()));
                (Phase::ReadingIndex, Action::ReadText(p))
            },
            (Phase::Classifying { target }, Event::Kind(EntryKind::File)) => {
                let t = target.clone();
                (Phase::ReadingFile { target }, Action::ReadText(t))
            },
            (Phase::ReadingIndex, Event::Text(Some(b))) => (
                Phase::Finished,
                Action::Send(ok_with_body(b.as_slice())),
            ),
            (Phase::ReadingIndex, Event::Text(None)) => self.fallback(),
            (Phase::ReadingFallback, Event::Text(Some(b))) => (
                Phase::Finished,
                Action::Send(ok_with_body(b.as_slice())),
            ),
            (Phase::ReadingFallback, Event::Text(None)) => (
                Phase::Finished,
                Action::Send(not_found()),
            ),
            (Phase::ReadingFile { .. }, Event::Text(Some(b))) => (
                Phase::Finished,
                Action::Send(ok_with_body(b.as_slice())),
            ),
            (Phase::ReadingFile { target }, Event::Text(None)) => {
                let t = target.clone();
                (Phase::Sizing { target }, Action::MeasureSize(t))
            },
            (Phase::Sizing { target }, Event::Size(Some(n))) => (
                Phase::Streaming,
                Action::SendHeader(binary_header(n), target),
            ),
            (Phase::Sizing { .. }, Event::Size(None)) => self.fallback(),
            (Phase::Streaming, Event::Wrote(true)) => (Phase::Streaming, Action::ReadChunk(CHUNK_SIZE)),
            (Phase::Streaming, Event::Chunk(Some(b))) => {
                if b.len() > 0 {
                    (Phase::Streaming, Action::Write(b))
                } else {
                    (Phase::Finished, Action::Close)
                }
            },
            _ => (Phase::Finished, Action::Close),
        }
    }

    fn fallback(&self) -> (r: (Phase, Action))
        ensures
            (r.0@, r.1@) == to_fallback(self.root()),
    {
        let mut p = self.web_root.clone();
        let name = crate::response::bytes_of("404.html");
        let ghost a = p.deep_view();
        proof {
            assert(name.deep_view() =~= name@);
        }
        p.push(name);
        assert(p.deep_view() =~= a.push(fallback_page()));
        (Phase::ReadingFallback, Action::ReadText(p))
    }
}

} // verus!
