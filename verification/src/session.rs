//! Request handling of the helper process.
//!
//! A [`Session`] holds the files that the application has opened. It decides, for each request,
//! what is to be done next: map a file, ask one of the two decoders, or answer. The caller does
//! it and comes back with what came of it. What the raw decoder cannot read falls back to the
//! system's decoder.
//!
//! `S` stands for a mapped file, `Y` for a file that the system decoder has recognised, `D` for a
//! received descriptor and `B` for a mapped shared buffer: the session carries them and never looks
//! inside.

use std::collections::HashMap;

use vstd::prelude::*;
use vstd::string::*;

use crate::message::{
    FileInfo, ImageLayout, Reply, ReplyView, Request, SensorInfo, SensorLayout, PROTOCOL_VERSION,
};
use crate::shm::SharedBuffer;
use crate::text::{both, both_reasons, join, joined};

verus! {

broadcast use vstd::std_specs::hash::group_hash_axioms;

/// Files kept open between requests; the application closes them, this only bounds a misbehaving
/// peer.
pub const MAX_OPEN_FILES: usize = 8;

/// A file that the application has opened.
pub struct OpenFile<S, Y> {
    pub source: S,
    /// Whether the raw decoder recognised the file.
    pub rawler: bool,
    /// System decoder, created on first need (always, when the raw decoder did not recognise the
    /// file).
    pub system: Option<Result<Y, String>>,
    pub extension: Option<String>,
}

/// Which pixels of a file are asked for.
#[derive(Debug, Clone, Copy, PartialEq, Eq, Structural)]
pub enum Pixels {
    Preview,
    Sensor,
}

/// Decoded pixels, as a reply describes them.
pub enum Picture {
    Preview(ImageLayout),
    Sensor(SensorLayout, Box<SensorInfo>),
}

impl Picture {
    /// Which pixels these are.
    pub open spec fn pixels(self) -> Pixels {
        match self {
            Picture::Preview(_) => Pixels::Preview,
            Picture::Sensor(_, _) => Pixels::Sensor,
        }
    }

    /// Bytes that the pixels occupy.
    pub open spec fn size(self) -> nat {
        match self {
            Picture::Preview(image) => image.size(),
            Picture::Sensor(sensor, _) => sensor.size(),
        }
    }
}

/// A shared buffer filled with pixels: as it was planned, and as the caller has mapped it.
pub struct Filled<B> {
    pub plan: SharedBuffer,
    pub buffer: B,
}

/// Whether a buffer has exactly the bytes of the pixels that it comes with.
pub open spec fn holds(plan: SharedBuffer, picture: Picture) -> bool {
    plan.map == picture.size()
}

/// What a session is waiting for.
#[allow(inconsistent_fields)]
pub enum Pending<S> {
    /// The next request.
    Idle,
    /// A file to be mapped.
    Mapping { id: u64, extension: Option<String> },
    /// The raw decoder's reading of the headers.
    Headers { id: u64, extension: Option<String>, source: S },
    /// The system decoder's, of a file that the raw decoder refused.
    Recognition { id: u64, extension: Option<String>, source: S, raw_error: String },
    /// Pixels from the raw decoder.
    Raw { id: u64, pixels: Pixels },
    /// The system decoder, for a file that has not needed it so far.
    System { id: u64, pixels: Pixels, raw_error: Option<String> },
    /// Pixels from the system decoder.
    Developed { id: u64, pixels: Pixels, raw_error: Option<String> },
}

/// What the caller is to do next.
pub enum Action<D, B> {
    /// Map the descriptor's file, through its own path (see
    /// [`descriptor_path`](crate::descriptor::descriptor_path)), and hand it back with
    /// [`Event::Mapped`].
    MapFile(D),
    /// Read the subject's headers with the raw decoder, see [`Event::Headers`].
    ReadHeaders,
    /// Have the system decoder recognise the subject, see [`Event::SystemOpened`].
    OpenSystem,
    /// Decode the subject's pixels with the raw decoder, see [`Event::Decoded`].
    RawDecode(Pixels),
    /// Decode the subject's pixels with the system decoder, see [`Event::Decoded`].
    SystemDecode(Pixels),
    /// Send the reply, with the buffer's descriptor attached. The request is over.
    Answer { reply: Reply, buffer: Option<Filled<B>> },
}

/// An action with the texts of its reply as character sequences.
pub enum ActionView<D, B> {
    MapFile(D),
    ReadHeaders,
    OpenSystem,
    RawDecode(Pixels),
    SystemDecode(Pixels),
    Answer { reply: ReplyView, buffer: Option<Filled<B>> },
}

impl<D, B> ActionView<D, B> {
    /// Whether a buffer is attached exactly to an answer that announces pixels, and then has the
    /// bytes of the layout announced there.
    pub open spec fn announces_its_buffer(self) -> bool {
        match self {
            ActionView::Answer { reply, buffer } => match reply {
                ReplyView::Preview { image, .. } => buffer is Some && buffer->0.plan.map
                    == image.size(),
                ReplyView::Sensor { sensor, .. } => buffer is Some && buffer->0.plan.map
                    == sensor.size(),
                _ => buffer is None,
            },
            _ => true,
        }
    }
}

impl<D, B> View for Action<D, B> {
    type V = ActionView<D, B>;

    open spec fn view(&self) -> ActionView<D, B> {
        match *self {
            Action::MapFile(descriptor) => ActionView::MapFile(descriptor),
            Action::ReadHeaders => ActionView::ReadHeaders,
            Action::OpenSystem => ActionView::OpenSystem,
            Action::RawDecode(pixels) => ActionView::RawDecode(pixels),
            Action::SystemDecode(pixels) => ActionView::SystemDecode(pixels),
            Action::Answer { reply, buffer } => ActionView::Answer { reply: reply@, buffer },
        }
    }
}

/// What came of an action.
pub enum Event<S, Y, B> {
    Mapped(Result<S, String>),
    Headers(Result<FileInfo, String>),
    SystemOpened(Result<(Y, FileInfo), String>),
    Decoded(Result<(Picture, Filled<B>), String>),
}

/// A session as its contracts see it.
pub struct State<S, Y> {
    /// Whether the helper has confined itself.
    pub confined: bool,
    pub files: Map<u64, OpenFile<S, Y>>,
    pub pending: Pending<S>,
}

impl<S, Y> State<S, Y> {
    /// The state with something else to wait for.
    pub open spec fn awaiting(self, pending: Pending<S>) -> State<S, Y> {
        State { pending, ..self }
    }

    /// The state with the given files, and nothing to wait for but the next request.
    pub open spec fn settled(self, files: Map<u64, OpenFile<S, Y>>) -> State<S, Y> {
        State { confined: self.confined, files, pending: Pending::Idle }
    }

    /// No more files are open than allowed, and what is waited for concerns a file in the right
    /// condition.
    pub open spec fn wf(self) -> bool {
        &&& self.files.dom().finite()
        &&& self.files.len() <= MAX_OPEN_FILES
        &&& match self.pending {
            Pending::Idle => true,
            Pending::Mapping { .. } | Pending::Headers { .. } | Pending::Recognition { .. } => {
                self.files.len() < MAX_OPEN_FILES
            },
            Pending::Raw { id, .. } => self.files.contains_key(id) && self.files[id].rawler,
            Pending::System { id, .. } => {
                self.files.contains_key(id) && self.files[id].system is None
            },
            Pending::Developed { id, .. } => {
                self.files.contains_key(id) && (self.files[id].system matches Some(Ok(_)))
            },
        }
    }
}

/// The answer to a request that cannot be met.
pub open spec fn refusal<D, B>(id: u64, error: Seq<char>) -> ActionView<D, B> {
    ActionView::Answer { reply: ReplyView::Failed { id, error }, buffer: None }
}

/// The answer that carries decoded pixels.
pub open spec fn delivery<D, B>(
    id: u64,
    picture: Picture,
    buffer: Filled<B>,
    micros: u64,
) -> ActionView<D, B> {
    ActionView::Answer {
        reply: match picture {
            Picture::Preview(image) => ReplyView::Preview { id, image, micros },
            Picture::Sensor(sensor, info) => ReplyView::Sensor { id, sensor, info: *info, micros },
        },
        buffer: Some(buffer),
    }
}

/// What becomes of a request for the pixels of an open file once the raw decoder has not given
/// them, for the given reason where it was asked: its system decoder is asked, and created first
/// where the file has not needed it so far.
pub open spec fn fall_back<S, Y, D, B>(
    state: State<S, Y>,
    id: u64,
    pixels: Pixels,
    raw_error: Option<String>,
) -> (State<S, Y>, ActionView<D, B>) {
    match state.files[id].system {
        Some(Ok(_)) => (
            state.awaiting(Pending::Developed { id, pixels, raw_error }),
            ActionView::SystemDecode(pixels),
        ),
        Some(Err(error)) => (state.awaiting(Pending::Idle), refusal(id, error@)),
        None => (
            state.awaiting(Pending::System { id, pixels, raw_error }),
            ActionView::OpenSystem,
        ),
    }
}

/// What becomes of a request for the pixels of a file.
pub open spec fn ask<S, Y, D, B>(state: State<S, Y>, id: u64, pixels: Pixels) -> (
    State<S, Y>,
    ActionView<D, B>,
) {
    if !state.files.contains_key(id) {
        (state, refusal(id, "file not open"@))
    } else if state.files[id].rawler {
        (state.awaiting(Pending::Raw { id, pixels }), ActionView::RawDecode(pixels))
    } else {
        fall_back(state, id, pixels, None)
    }
}

/// What becomes of a request that came with the given descriptor.
pub open spec fn accept<S, Y, D, B>(state: State<S, Y>, request: Request, fd: Option<D>) -> (
    State<S, Y>,
    ActionView<D, B>,
) {
    match request {
        Request::Hello { .. } => (
            state,
            ActionView::Answer {
                reply: ReplyView::Hello { version: PROTOCOL_VERSION, decoder: "rawler 0.8.0"@ },
                buffer: None,
            },
        ),
        Request::Open { id, extension } => match fd {
            None => (state, refusal(id, "no file descriptor attached"@)),
            Some(descriptor) => if state.files.len() >= MAX_OPEN_FILES {
                (state, refusal(id, "too many open files"@))
            } else {
                (
                    state.awaiting(Pending::Mapping { id, extension }),
                    ActionView::MapFile(descriptor),
                )
            },
        },
        Request::Preview { id } => ask(state, id, Pixels::Preview),
        Request::Sensor { id } => ask(state, id, Pixels::Sensor),
        Request::Close { id } => (
            state.settled(state.files.remove(id)),
            ActionView::Answer { reply: ReplyView::Closed { id }, buffer: None },
        ),
        Request::SandboxCheck => (
            state,
            ActionView::Answer {
                reply: ReplyView::Sandbox { confined: state.confined },
                buffer: None,
            },
        ),
    }
}

/// Whether decoded pixels, if any, are those asked for, in a buffer that holds them.
pub open spec fn decoded_as_asked<B>(
    pixels: Pixels,
    decoded: Result<(Picture, Filled<B>), String>,
) -> bool {
    decoded matches Ok((picture, filled)) ==> picture.pixels() == pixels && holds(
        filled.plan,
        picture,
    )
}

/// Whether an event answers what is waited for.
pub open spec fn awaits<S, Y, B>(pending: Pending<S>, event: Event<S, Y, B>) -> bool {
    match pending {
        Pending::Idle => false,
        Pending::Mapping { .. } => event is Mapped,
        Pending::Headers { .. } => event is Headers,
        Pending::Recognition { .. } | Pending::System { .. } => event is SystemOpened,
        Pending::Raw { pixels, .. } | Pending::Developed { pixels, .. } => {
            event matches Event::Decoded(decoded) && decoded_as_asked(pixels, decoded)
        },
    }
}

/// Whether an action answers with decoded pixels: the reply announces the very layout that the
/// decoder gave, and its buffer is attached.
pub open spec fn answers_with<D, B>(
    action: Action<D, B>,
    id: u64,
    picture: Picture,
    filled: Filled<B>,
    micros: u64,
) -> bool {
    &&& action matches Action::Answer { reply, buffer }
    &&& buffer == Some(filled)
    &&& match picture {
        Picture::Preview(image) => reply == (Reply::Preview { id, image, micros }),
        Picture::Sensor(sensor, info) => reply == (Reply::Sensor { id, sensor, info, micros }),
    }
}

/// A file that has been opened, and the answer that says so.
pub open spec fn enter<S, Y, D, B>(
    state: State<S, Y>,
    id: u64,
    file: OpenFile<S, Y>,
    info: FileInfo,
    micros: u64,
) -> (State<S, Y>, ActionView<D, B>) {
    (
        state.settled(state.files.insert(id, file)),
        ActionView::Answer { reply: ReplyView::Opened { id, info, micros }, buffer: None },
    )
}

/// What becomes of the request being handled once an action has come to something.
pub open spec fn advance<S, Y, D, B>(state: State<S, Y>, event: Event<S, Y, B>, micros: u64) -> (
    State<S, Y>,
    ActionView<D, B>,
) {
    let idle = state.awaiting(Pending::Idle);
    match (state.pending, event) {
        (Pending::Mapping { id, extension }, Event::Mapped(mapped)) => match mapped {
            Ok(source) => (
                state.awaiting(Pending::Headers { id, extension, source }),
                ActionView::ReadHeaders,
            ),
            Err(error) => (idle, refusal(id, "cannot map file: "@ + error@)),
        },
        (Pending::Headers { id, extension, source }, Event::Headers(headers)) => match headers {
            Ok(info) => enter(
                state,
                id,
                OpenFile { source, rawler: true, system: None, extension },
                info,
                micros,
            ),
            Err(raw_error) => (
                state.awaiting(Pending::Recognition { id, extension, source, raw_error }),
                ActionView::OpenSystem,
            ),
        },
        (
            Pending::Recognition { id, extension, source, raw_error },
            Event::SystemOpened(opened),
        ) => match opened {
            Ok((file, info)) => enter(
                state,
                id,
                OpenFile { source, rawler: false, system: Some(Ok(file)), extension },
                info,
                micros,
            ),
            Err(error) => (idle, refusal(id, both_reasons(raw_error@, error@))),
        },
        (Pending::Raw { id, pixels }, Event::Decoded(decoded)) => match decoded {
            Ok((picture, buffer)) => (idle, delivery(id, picture, buffer, micros)),
            Err(raw_error) => fall_back(idle, id, pixels, Some(raw_error)),
        },
        (Pending::System { id, pixels, raw_error }, Event::SystemOpened(opened)) => {
            let system = match opened {
                Ok((file, _)) => Ok(file),
                Err(error) => Err(error),
            };
            let file = OpenFile { system: Some(system), ..state.files[id] };
            fall_back(state.settled(state.files.insert(id, file)), id, pixels, raw_error)
        },
        (Pending::Developed { id, pixels, raw_error }, Event::Decoded(decoded)) => match decoded {
            Ok((picture, buffer)) => (idle, delivery(id, picture, buffer, micros)),
            Err(error) => (idle, refusal(id, joined(text_of(raw_error), error@))),
        },
        // Not what is waited for: see `awaits`.
        _ => (state, ActionView::ReadHeaders),
    }
}

/// The reason, empty where there is none.
pub open spec fn text_of(reason: Option<String>) -> Seq<char> {
    match reason {
        Some(text) => text@,
        None => Seq::empty(),
    }
}

/// What the action under way is about: a mapped file, and its extension.
pub open spec fn subject<S, Y>(state: State<S, Y>) -> Option<(S, Option<String>)> {
    match state.pending {
        Pending::Idle | Pending::Mapping { .. } => None,
        Pending::Headers { source, extension, .. } => Some((source, extension)),
        Pending::Recognition { source, extension, .. } => Some((source, extension)),
        Pending::Raw { id, .. } | Pending::System { id, .. } | Pending::Developed { id, .. } => {
            Some((state.files[id].source, state.files[id].extension))
        },
    }
}

/// The files that the application has opened, and what is waited for.
pub struct Session<S, Y> {
    confined: bool,
    files: HashMap<u64, OpenFile<S, Y>>,
    pending: Pending<S>,
}

impl<S, Y> View for Session<S, Y> {
    type V = State<S, Y>;

    closed spec fn view(&self) -> State<S, Y> {
        State { confined: self.confined, files: self.files@, pending: self.pending }
    }
}

/// The answer to a request that cannot be met.
fn failed<D, B>(id: u64, error: &str) -> (action: Action<D, B>)
    ensures
        action@ == refusal::<D, B>(id, error@),
{
    Action::Answer { reply: Reply::Failed { id, error: error.to_owned() }, buffer: None }
}

fn delivered<D, B>(id: u64, picture: Picture, buffer: Filled<B>, micros: u64) -> (action: Action<
    D,
    B,
>)
    ensures
        action@ == delivery::<D, B>(id, picture, buffer, micros),
        answers_with(action, id, picture, buffer, micros),
{
    let reply = match picture {
        Picture::Preview(image) => Reply::Preview { id, image, micros },
        Picture::Sensor(sensor, info) => Reply::Sensor { id, sensor, info, micros },
    };
    Action::Answer { reply, buffer: Some(buffer) }
}

impl<S, Y> Session<S, Y> {
    /// A session without open files, of a helper that has confined itself or not.
    pub fn new(confined: bool) -> (session: Session<S, Y>)
        ensures
            session@ == (State::<S, Y> { confined, files: Map::empty(), pending: Pending::Idle }),
            session@.wf(),
    {
        Session { confined, files: HashMap::new(), pending: Pending::Idle }
    }

    /// Takes a request and the descriptor that came with it.
    pub fn handle<D, B>(&mut self, request: Request, fd: Option<D>) -> (action: Action<D, B>)
        requires
            old(self)@.wf(),
            old(self)@.pending is Idle,
        ensures
            (final(self)@, action@) == accept::<S, Y, D, B>(old(self)@, request, fd),
            final(self)@.wf(),
            action@.announces_its_buffer(),
    {
        match request {
            Request::Hello { .. } => Action::Answer {
                reply: Reply::Hello {
                    version: PROTOCOL_VERSION,
                    decoder: "rawler 0.8.0".to_owned(),
                },
                buffer: None,
            },
            Request::Open { id, extension } => match fd {
                None => failed(id, "no file descriptor attached"),
                Some(descriptor) => {
                    if self.files.len() >= MAX_OPEN_FILES {
                        return failed(id, "too many open files");
                    }
                    self.pending = Pending::Mapping { id, extension };
                    Action::MapFile(descriptor)
                },
            },
            Request::Preview { id } => self.ask(id, Pixels::Preview),
            Request::Sensor { id } => self.ask(id, Pixels::Sensor),
            Request::Close { id } => {
                self.files.remove(&id);
                Action::Answer { reply: Reply::Closed { id }, buffer: None }
            },
            Request::SandboxCheck => Action::Answer {
                reply: Reply::Sandbox { confined: self.confined },
                buffer: None,
            },
        }
    }

    fn ask<D, B>(&mut self, id: u64, pixels: Pixels) -> (action: Action<D, B>)
        requires
            old(self)@.wf(),
            old(self)@.pending is Idle,
        ensures
            (final(self)@, action@) == ask::<S, Y, D, B>(old(self)@, id, pixels),
            final(self)@.wf(),
    {
        let rawler = match self.files.get(&id) {
            None => return failed(id, "file not open"),
            Some(file) => file.rawler,
        };
        if rawler {
            self.pending = Pending::Raw { id, pixels };
            Action::RawDecode(pixels)
        } else {
            self.fall_back(id, pixels, None)
        }
    }

    fn fall_back<D, B>(&mut self, id: u64, pixels: Pixels, raw_error: Option<String>) -> (action:
        Action<D, B>)
        requires
            old(self)@.wf(),
            old(self)@.pending is Idle,
            old(self)@.files.contains_key(id),
        ensures
            (final(self)@, action@) == fall_back::<S, Y, D, B>(old(self)@, id, pixels, raw_error),
            final(self)@.wf(),
    {
        let ready = match self.files.get(&id) {
            None => false,
            Some(file) => match &file.system {
                None => false,
                Some(Ok(_)) => true,
                Some(Err(error)) => return failed(id, error.as_str()),
            },
        };
        if ready {
            self.pending = Pending::Developed { id, pixels, raw_error };
            Action::SystemDecode(pixels)
        } else {
            self.pending = Pending::System { id, pixels, raw_error };
            Action::OpenSystem
        }
    }

    /// Whether nothing is waited for but the next request.
    pub fn is_idle(&self) -> (idle: bool)
        ensures
            idle == (self@.pending is Idle),
    {
        match &self.pending {
            Pending::Idle => true,
            _ => false,
        }
    }

    /// Whether an event answers what is waited for.
    pub fn awaits<B>(&self, event: &Event<S, Y, B>) -> (expected: bool)
        ensures
            expected == awaits(self@.pending, *event),
    {
        match (&self.pending, event) {
            (Pending::Mapping { .. }, Event::Mapped(_)) => true,
            (Pending::Headers { .. }, Event::Headers(_)) => true,
            (Pending::Recognition { .. }, Event::SystemOpened(_)) => true,
            (Pending::System { .. }, Event::SystemOpened(_)) => true,
            (Pending::Raw { pixels, .. }, Event::Decoded(decoded)) => fits(*pixels, decoded),
            (Pending::Developed { pixels, .. }, Event::Decoded(decoded)) => fits(*pixels, decoded),
            _ => false,
        }
    }

    /// Takes what came of the last action, `micros` microseconds into the request.
    pub fn resume<D, B>(&mut self, event: Event<S, Y, B>, micros: u64) -> (action: Action<D, B>)
        requires
            old(self)@.wf(),
            awaits(old(self)@.pending, event),
        ensures
            (final(self)@, action@) == advance::<S, Y, D, B>(old(self)@, event, micros),
            final(self)@.wf(),
            action@.announces_its_buffer(),
            match (old(self)@.pending, event) {
                (Pending::Raw { id, .. }, Event::Decoded(Ok((picture, filled)))) => {
                    answers_with(action, id, picture, filled, micros)
                },
                (Pending::Developed { id, .. }, Event::Decoded(Ok((picture, filled)))) => {
                    answers_with(action, id, picture, filled, micros)
                },
                _ => true,
            },
    {
        let mut pending = Pending::Idle;
        std::mem::swap(&mut pending, &mut self.pending);
        match (pending, event) {
            (Pending::Mapping { id, extension }, Event::Mapped(mapped)) => match mapped {
                Ok(source) => {
                    self.pending = Pending::Headers { id, extension, source };
                    Action::ReadHeaders
                },
                Err(error) => {
                    let mut text = "cannot map file: ".to_owned();
                    text.append(error.as_str());
                    failed(id, text.as_str())
                },
            },
            (Pending::Headers { id, extension, source }, Event::Headers(headers)) => match headers {
                Ok(info) => self.enter(
                    id,
                    OpenFile { source, rawler: true, system: None, extension },
                    info,
                    micros,
                ),
                Err(raw_error) => {
                    self.pending = Pending::Recognition { id, extension, source, raw_error };
                    Action::OpenSystem
                },
            },
            (
                Pending::Recognition { id, extension, source, raw_error },
                Event::SystemOpened(opened),
            ) => match opened {
                Ok((file, info)) => self.enter(
                    id,
                    OpenFile { source, rawler: false, system: Some(Ok(file)), extension },
                    info,
                    micros,
                ),
                Err(error) => failed(id, both(raw_error.as_str(), error.as_str()).as_str()),
            },
            (Pending::Raw { id, pixels }, Event::Decoded(decoded)) => match decoded {
                Ok((picture, buffer)) => delivered(id, picture, buffer, micros),
                Err(raw_error) => self.fall_back(id, pixels, Some(raw_error)),
            },
            (Pending::System { id, pixels, raw_error }, Event::SystemOpened(opened)) => {
                let system = match opened {
                    Ok((file, _)) => Ok(file),
                    Err(error) => Err(error),
                };
                if let Some(file) = self.files.remove(&id) {
                    self.files.insert(
                        id,
                        OpenFile {
                            source: file.source,
                            rawler: file.rawler,
                            system: Some(system),
                            extension: file.extension,
                        },
                    );
                }
                assert(self.files@ =~= old(self)@.files.insert(id, self.files@[id]));
                self.fall_back(id, pixels, raw_error)
            },
            (Pending::Developed { id, raw_error, .. }, Event::Decoded(decoded)) => match decoded {
                Ok((picture, buffer)) => delivered(id, picture, buffer, micros),
                Err(error) => {
                    let raw_error = match raw_error {
                        Some(text) => text,
                        None => String::new(),
                    };
                    failed(id, join(raw_error.as_str(), error.as_str()).as_str())
                },
            },
            // Not what is waited for: the contract leaves it out.
            _ => Action::ReadHeaders,
        }
    }

    fn enter<D, B>(&mut self, id: u64, file: OpenFile<S, Y>, info: FileInfo, micros: u64) -> (action:
        Action<D, B>)
        requires
            old(self)@.wf(),
            old(self)@.pending is Idle,
            old(self)@.files.len() < MAX_OPEN_FILES,
        ensures
            (final(self)@, action@) == enter::<S, Y, D, B>(old(self)@, id, file, info, micros),
            final(self)@.wf(),
    {
        self.files.insert(id, file);
        Action::Answer { reply: Reply::Opened { id, info: Box::new(info), micros }, buffer: None }
    }

    /// The mapped file that the action under way is about, and its extension.
    pub fn subject(&self) -> (found: Option<(&S, Option<&String>)>)
        requires
            self@.wf(),
        ensures
            match subject(self@) {
                Some((source, extension)) => {
                    &&& found matches Some((s, e))
                    &&& *s == source
                    &&& e == (match extension {
                        Some(text) => Some(&text),
                        None => None,
                    })
                },
                None => found is None,
            },
    {
        match &self.pending {
            Pending::Idle | Pending::Mapping { .. } => None,
            Pending::Headers { source, extension, .. } => Some((source, extension.as_ref())),
            Pending::Recognition { source, extension, .. } => Some((source, extension.as_ref())),
            Pending::Raw { id, .. } | Pending::System { id, .. } | Pending::Developed { id, .. } => {
                match self.files.get(id) {
                    None => None,
                    Some(file) => Some((&file.source, file.extension.as_ref())),
                }
            },
        }
    }

    /// The system decoder that is asked for pixels.
    pub fn system(&self) -> (found: Option<&Y>)
        requires
            self@.wf(),
        ensures
            match self@.pending {
                Pending::Developed { id, .. } => found == Some(&self@.files[id].system->0->Ok_0),
                _ => found is None,
            },
    {
        match &self.pending {
            Pending::Developed { id, .. } => match self.files.get(id) {
                Some(file) => match &file.system {
                    Some(Ok(system)) => Some(system),
                    _ => None,
                },
                None => None,
            },
            _ => None,
        }
    }
}

fn fits<B>(pixels: Pixels, decoded: &Result<(Picture, Filled<B>), String>) -> (fit: bool)
    ensures
        fit == decoded_as_asked(pixels, *decoded),
{
    match decoded {
        Ok((Picture::Preview(image), filled)) => {
            pixels == Pixels::Preview && image.checked_bytes() == Some(filled.plan.map)
        },
        Ok((Picture::Sensor(sensor, _), filled)) => {
            pixels == Pixels::Sensor && sensor.checked_bytes() == Some(filled.plan.map)
        },
        Err(_) => true,
    }
}

} // verus!
