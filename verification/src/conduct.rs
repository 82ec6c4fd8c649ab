//! What a session does over a whole request, from the request to its answer.
//!
//! [`Session`](crate::session::Session) is told one outcome at a time. Here the outcomes that the
//! outside work would have are given all at once, and the answer and the files left open are
//! stated as functions of them.

use vstd::prelude::*;

use crate::message::{FileInfo, ReplyView, Request, Sample};
use crate::session::{
    accept, advance, awaits, decoded_as_asked, delivery, refusal, subject, ActionView, Event, Filled,
    OpenFile, Pending, Picture, Pixels, Session, State, MAX_OPEN_FILES,
};
use crate::text::{both_reasons, joined};

verus! {

/// What each kind of outside work comes to, should it be asked for.
pub struct Outcomes<S, Y, B> {
    /// Mapping the file.
    pub mapped: Result<S, String>,
    /// Reading its headers with the raw decoder.
    pub headers: Result<FileInfo, String>,
    /// Having the system decoder recognise it.
    pub system: Result<(Y, FileInfo), String>,
    /// Decoding its pixels with the raw decoder.
    pub raw: Result<(Picture, Filled<B>), String>,
    /// Decoding its pixels with the system decoder.
    pub developed: Result<(Picture, Filled<B>), String>,
}

impl<S, Y, B> Outcomes<S, Y, B> {
    /// Whether the decoders, where they give pixels, give those asked for, in buffers that hold
    /// them.
    pub open spec fn give(self, pixels: Pixels) -> bool {
        &&& decoded_as_asked(pixels, self.raw)
        &&& decoded_as_asked(pixels, self.developed)
    }

    /// Whether the decoders give what the request asks for.
    pub open spec fn suit(self, request: Request) -> bool {
        &&& request is Preview ==> self.give(Pixels::Preview)
        &&& request is Sensor ==> self.give(Pixels::Sensor)
    }

    /// What an action comes to.
    pub open spec fn of<D>(self, action: ActionView<D, B>) -> Event<S, Y, B> {
        match action {
            ActionView::MapFile(_) => Event::Mapped(self.mapped),
            ActionView::ReadHeaders => Event::Headers(self.headers),
            ActionView::OpenSystem => Event::SystemOpened(self.system),
            ActionView::RawDecode(_) => Event::Decoded(self.raw),
            _ => Event::Decoded(self.developed),
        }
    }
}

/// Most outside work that a request takes: the raw decoder, the system decoder's recognition of
/// the file, and the system decoder; or mapping, the raw decoder and the system decoder.
pub const MAX_STEPS: usize = 3;

/// Where a request stands after at most `steps` more actions have been carried out, as long as the
/// session takes what comes of them.
pub open spec fn settle<S, Y, D, B>(
    state: State<S, Y>,
    action: ActionView<D, B>,
    outcomes: Outcomes<S, Y, B>,
    micros: u64,
    steps: nat,
) -> (State<S, Y>, ActionView<D, B>)
    decreases steps,
{
    if steps == 0 || action is Answer || !awaits(state.pending, outcomes.of(action)) {
        (state, action)
    } else {
        let (next_state, next_action) = advance::<S, Y, D, B>(state, outcomes.of(action), micros);
        settle(next_state, next_action, outcomes, micros, (steps - 1) as nat)
    }
}

/// The files left open and the answer, once a request has been handled.
pub open spec fn serve<S, Y, D, B>(
    state: State<S, Y>,
    request: Request,
    fd: Option<D>,
    outcomes: Outcomes<S, Y, B>,
    micros: u64,
) -> (State<S, Y>, ActionView<D, B>) {
    let (accepted, action) = accept::<S, Y, D, B>(state, request, fd);
    settle(accepted, action, outcomes, micros, MAX_STEPS as nat)
}

/// The file as it is kept open, and what its headers say: read by the raw decoder, else by the
/// system's.
pub open spec fn recognised<S, Y, B>(extension: Option<String>, outcomes: Outcomes<S, Y, B>) -> Option<
    (OpenFile<S, Y>, FileInfo),
> {
    match outcomes.mapped {
        Err(_) => None,
        Ok(source) => match (outcomes.headers, outcomes.system) {
            (Ok(info), _) => Some(
                (OpenFile { source, rawler: true, system: None, extension }, info),
            ),
            (Err(_), Ok((file, info))) => Some(
                (OpenFile { source, rawler: false, system: Some(Ok(file)), extension }, info),
            ),
            (Err(_), Err(_)) => None,
        },
    }
}

/// Why a file cannot be opened.
pub open spec fn open_error<S, Y, B>(outcomes: Outcomes<S, Y, B>) -> Seq<char> {
    match outcomes.mapped {
        Err(error) => "cannot map file: "@ + error@,
        Ok(_) => both_reasons(outcomes.headers->Err_0@, outcomes.system->Err_0@),
    }
}

/// The file's system decoder: the one it has already, else what recognising it now comes to.
pub open spec fn system_of<S, Y, B>(
    file: OpenFile<S, Y>,
    outcomes: Outcomes<S, Y, B>,
) -> Result<Y, String> {
    match file.system {
        Some(system) => system,
        None => match outcomes.system {
            Ok((system, _)) => Ok(system),
            Err(error) => Err(error),
        },
    }
}

/// Whether the raw decoder gives the file's pixels.
pub open spec fn raw_succeeds<S, Y, B>(
    file: OpenFile<S, Y>,
    outcomes: Outcomes<S, Y, B>,
) -> bool {
    file.rawler && outcomes.raw is Ok
}

/// The pixels of an open file: the raw decoder's where it recognised the file and succeeds, else
/// the system decoder's, else the reason why neither gives any.
pub open spec fn pixels_of<S, Y, B>(
    file: OpenFile<S, Y>,
    outcomes: Outcomes<S, Y, B>,
) -> Result<(Picture, Filled<B>), Seq<char>> {
    if raw_succeeds(file, outcomes) {
        Ok(outcomes.raw->Ok_0)
    } else {
        match (system_of(file, outcomes), outcomes.developed) {
            (Err(error), _) => Err(error@),
            (Ok(_), Ok(found)) => Ok(found),
            (Ok(_), Err(error)) => Err(
                joined(
                    if file.rawler {
                        outcomes.raw->Err_0@
                    } else {
                        Seq::empty()
                    },
                    error@,
                ),
            ),
        }
    }
}

/// The open file afterwards: its system decoder is kept once it was needed.
pub open spec fn file_after<S, Y, B>(
    file: OpenFile<S, Y>,
    outcomes: Outcomes<S, Y, B>,
) -> OpenFile<S, Y> {
    if raw_succeeds(file, outcomes) {
        file
    } else {
        OpenFile { system: Some(system_of(file, outcomes)), ..file }
    }
}

/// The id that a request is about.
pub open spec fn request_id(request: Request) -> Option<u64> {
    match request {
        Request::Open { id, .. } => Some(id),
        Request::Preview { id } => Some(id),
        Request::Sensor { id } => Some(id),
        Request::Close { id } => Some(id),
        Request::Hello { .. } | Request::SandboxCheck => None,
    }
}

/// The id that a reply is about.
pub open spec fn reply_id(reply: ReplyView) -> Option<u64> {
    match reply {
        ReplyView::Opened { id, .. } => Some(id),
        ReplyView::Preview { id, .. } => Some(id),
        ReplyView::Sensor { id, .. } => Some(id),
        ReplyView::Closed { id } => Some(id),
        ReplyView::Failed { id, .. } => Some(id),
        ReplyView::Hello { .. } | ReplyView::Sandbox { .. } => None,
    }
}

/// A file is opened by the first decoder that recognises it, and refused with both decoders'
/// reasons where none does; a refused file leaves everything as it was.
pub proof fn lemma_open<S, Y, D, B>(
    state: State<S, Y>,
    id: u64,
    extension: Option<String>,
    descriptor: D,
    outcomes: Outcomes<S, Y, B>,
    micros: u64,
)
    requires
        state.wf(),
        state.pending is Idle,
        state.files.len() < MAX_OPEN_FILES,
    ensures
        serve(state, Request::Open { id, extension }, Some(descriptor), outcomes, micros) == match recognised(
            extension,
            outcomes,
        ) {
            Some((file, info)) => (
                state.settled(state.files.insert(id, file)),
                ActionView::<D, B>::Answer { reply: ReplyView::Opened { id, info, micros }, buffer: None },
            ),
            None => (state, refusal::<D, B>(id, open_error(outcomes))),
        },
{
    reveal_with_fuel(settle, 4);
}

/// Without a descriptor, or with as many files open as allowed, a file is refused before anything
/// is done with it.
pub proof fn lemma_open_refused<S, Y, D, B>(
    state: State<S, Y>,
    id: u64,
    extension: Option<String>,
    fd: Option<D>,
)
    requires
        state.wf(),
        fd is None || state.files.len() == MAX_OPEN_FILES,
    ensures
        accept::<S, Y, D, B>(state, Request::Open { id, extension }, fd) == (
            state,
            refusal::<D, B>(
                id,
                if fd is None {
                    "no file descriptor attached"@
                } else {
                    "too many open files"@
                },
            ),
        ),
{
}

/// Pixels come from the first decoder that gives them, with their buffer; where none does, the
/// answer says why. The only trace is the system decoder that the file now has.
pub proof fn lemma_pixels<S, Y, D, B>(
    state: State<S, Y>,
    request: Request,
    fd: Option<D>,
    outcomes: Outcomes<S, Y, B>,
    micros: u64,
)
    requires
        state.wf(),
        state.pending is Idle,
        request is Preview || request is Sensor,
        state.files.contains_key(request_id(request)->0),
        outcomes.suit(request),
    ensures
        ({
            let id = request_id(request)->0;
            let file = state.files[id];
            serve(state, request, fd, outcomes, micros) == (
                state.settled(state.files.insert(id, file_after(file, outcomes))),
                match pixels_of(file, outcomes) {
                    Ok((picture, buffer)) => delivery::<D, B>(id, picture, buffer, micros),
                    Err(error) => refusal(id, error),
                },
            )
        }),
{
    reveal_with_fuel(settle, 4);
    let id = request_id(request)->0;
    assert(state.files.insert(id, state.files[id]) =~= state.files);
}

/// A file is opened from its headers alone: no pixel is decoded, whatever decoding would come to.
pub proof fn lemma_open_decodes_no_pixels<S, Y, D, B>(
    state: State<S, Y>,
    id: u64,
    extension: Option<String>,
    fd: Option<D>,
    outcomes: Outcomes<S, Y, B>,
    raw: Result<(Picture, Filled<B>), String>,
    developed: Result<(Picture, Filled<B>), String>,
    micros: u64,
)
    requires
        state.wf(),
        state.pending is Idle,
    ensures
        ({
            let request = Request::Open { id, extension };
            serve(state, request, fd, outcomes, micros) == serve(
                state,
                request,
                fd,
                Outcomes { raw, developed, ..outcomes },
                micros,
            )
        }),
{
    reveal_with_fuel(settle, 4);
}

/// No file is ever mapped but the one whose descriptor came with the request to open it.
pub proof fn lemma_only_received_files_are_mapped<S, Y, D, B>(
    state: State<S, Y>,
    request: Request,
    fd: Option<D>,
    event: Event<S, Y, B>,
    micros: u64,
)
    ensures
        accept::<S, Y, D, B>(state, request, fd).1 matches ActionView::MapFile(descriptor) ==> request
            is Open && fd == Some(descriptor),
        !(advance::<S, Y, D, B>(state, event, micros).1 is MapFile),
{
}

/// Pixels of a file that is not open are refused at once.
pub proof fn lemma_pixels_refused<S, Y, D, B>(state: State<S, Y>, request: Request, fd: Option<D>)
    requires
        request is Preview || request is Sensor,
        !state.files.contains_key(request_id(request)->0),
    ensures
        accept::<S, Y, D, B>(state, request, fd) == (
            state,
            refusal::<D, B>(request_id(request)->0, "file not open"@),
        ),
{
}

/// Whatever the outside work comes to, what is waited for is what the outcomes give.
proof fn lemma_expected<S, Y, D, B>(
    state: State<S, Y>,
    request: Request,
    fd: Option<D>,
    outcomes: Outcomes<S, Y, B>,
    micros: u64,
)
    requires
        state.wf(),
        state.pending is Idle,
        outcomes.suit(request),
    ensures
        ({
            let (s0, a0) = accept::<S, Y, D, B>(state, request, fd);
            let (s1, a1) = advance::<S, Y, D, B>(s0, outcomes.of(a0), micros);
            let (s2, a2) = advance::<S, Y, D, B>(s1, outcomes.of(a1), micros);
            let (s3, a3) = advance::<S, Y, D, B>(s2, outcomes.of(a2), micros);
            &&& !(a0 is Answer) ==> awaits(s0.pending, outcomes.of(a0))
            &&& !(a0 is Answer) && !(a1 is Answer) ==> awaits(s1.pending, outcomes.of(a1))
            &&& !(a0 is Answer) && !(a1 is Answer) && !(a2 is Answer) ==> {
                &&& awaits(s2.pending, outcomes.of(a2))
                &&& a3 is Answer
            }
        }),
{
}

/// Every request is answered, after at most three pieces of outside work, each of them one that
/// the session waits for; the session is then ready for the next request, within its bounds.
pub proof fn lemma_every_request_is_answered<S, Y, D, B>(
    state: State<S, Y>,
    request: Request,
    fd: Option<D>,
    outcomes: Outcomes<S, Y, B>,
    micros: u64,
)
    requires
        state.wf(),
        state.pending is Idle,
        outcomes.suit(request),
    ensures
        ({
            let (after, action) = serve(state, request, fd, outcomes, micros);
            &&& action is Answer
            &&& after.pending is Idle
            &&& after.wf()
            &&& after.confined == state.confined
        }),
{
    reveal_with_fuel(settle, 4);
    lemma_expected(state, request, fd, outcomes, micros);
}

/// Whatever the outside work comes to, an answer is about the file that the request was about and
/// of the request's own kind, or a refusal; and a buffer is attached exactly to an answer that
/// announces pixels, with exactly the bytes of the layout announced there.
pub proof fn lemma_answer_fits_request<S, Y, D, B>(
    state: State<S, Y>,
    request: Request,
    fd: Option<D>,
    outcomes: Outcomes<S, Y, B>,
    micros: u64,
)
    requires
        state.wf(),
        state.pending is Idle,
    ensures
        serve(state, request, fd, outcomes, micros).1.announces_its_buffer(),
        serve(state, request, fd, outcomes, micros).1 matches ActionView::Answer { reply, buffer }
            ==> {
            &&& reply_id(reply) == request_id(request)
            &&& buffer is Some <==> reply is Preview || reply is Sensor
            &&& buffer is Some && reply is Preview ==> buffer->0.plan.map == reply->image.size()
            &&& buffer is Some && reply is Sensor ==> buffer->0.plan.map == reply->sensor.size()
            &&& reply is Preview ==> request is Preview
            &&& reply is Sensor ==> request is Sensor
            &&& reply is Opened ==> request is Open
            &&& reply is Closed <==> request is Close
            &&& reply is Hello <==> request is Hello
            &&& reply is Sandbox <==> request is SandboxCheck
        },
{
    reveal_with_fuel(settle, 4);
}

/// A request leaves every file but its own as it was, open or not.
pub proof fn lemma_other_files_are_untouched<S, Y, D, B>(
    state: State<S, Y>,
    request: Request,
    fd: Option<D>,
    outcomes: Outcomes<S, Y, B>,
    micros: u64,
    other: u64,
)
    requires
        state.wf(),
        state.pending is Idle,
        request_id(request) != Some(other),
    ensures
        ({
            let (after, _) = serve(state, request, fd, outcomes, micros);
            &&& after.files.contains_key(other) == state.files.contains_key(other)
            &&& after.files[other] == state.files[other]
        }),
{
    reveal_with_fuel(settle, 4);
}

/// A file that could not be opened leaves no trace.
pub proof fn lemma_failed_open_changes_nothing<S, Y, D, B>(
    state: State<S, Y>,
    id: u64,
    extension: Option<String>,
    fd: Option<D>,
    outcomes: Outcomes<S, Y, B>,
    micros: u64,
)
    requires
        state.wf(),
        state.pending is Idle,
    ensures
        ({
            let (after, action) = serve(
                state,
                Request::Open { id, extension },
                fd,
                outcomes,
                micros,
            );
            action->reply is Failed ==> after == state
        }),
{
    reveal_with_fuel(settle, 4);
}

/// A closed file is not open any more: its pixels are refused until it is opened again, and
/// closing it once more changes nothing.
pub proof fn lemma_closed_file_is_gone<S, Y, D, B>(
    state: State<S, Y>,
    id: u64,
    fd: Option<D>,
    outcomes: Outcomes<S, Y, B>,
    micros: u64,
)
    requires
        state.wf(),
        state.pending is Idle,
    ensures
        ({
            let (after, _) = serve(state, Request::Close { id }, fd, outcomes, micros);
            let gone = refusal::<D, B>(id, "file not open"@);
            &&& serve(after, Request::Preview { id }, fd, outcomes, micros) == (after, gone)
            &&& serve(after, Request::Sensor { id }, fd, outcomes, micros) == (after, gone)
            &&& serve(after, Request::Close { id }, fd, outcomes, micros).0 == after
        }),
{
    reveal_with_fuel(settle, 4);
    let after = state.settled(state.files.remove(id));
    assert(after.files.remove(id) =~= after.files);
}

/// Opening a file and closing it again leaves the files that were open.
pub proof fn lemma_close_undoes_open<S, Y, D, B>(
    state: State<S, Y>,
    id: u64,
    extension: Option<String>,
    fd: Option<D>,
    outcomes: Outcomes<S, Y, B>,
    micros: u64,
)
    requires
        state.wf(),
        state.pending is Idle,
        !state.files.contains_key(id),
    ensures
        ({
            let (opened, _) = serve(
                state,
                Request::Open { id, extension },
                fd,
                outcomes,
                micros,
            );
            serve(opened, Request::Close { id }, fd, outcomes, micros).0 == state
        }),
{
    reveal_with_fuel(settle, 4);
    let (opened, _) = serve(state, Request::Open { id, extension }, fd, outcomes, micros);
    assert(opened.files.remove(id) =~= state.files);
}

/// The system decoder is created at most once for an open file, whether that succeeds or fails:
/// once the file has it, it keeps it, and what creating it anew would come to does not matter.
pub proof fn lemma_system_decoder_is_created_once<S, Y, D, B>(
    state: State<S, Y>,
    request: Request,
    fd: Option<D>,
    outcomes: Outcomes<S, Y, B>,
    anew: Result<(Y, FileInfo), String>,
    micros: u64,
)
    requires
        state.wf(),
        state.pending is Idle,
        request is Preview || request is Sensor,
        state.files.contains_key(request_id(request)->0),
        state.files[request_id(request)->0].system is Some,
    ensures
        serve(state, request, fd, outcomes, micros) == serve(
            state,
            request,
            fd,
            Outcomes { system: anew, ..outcomes },
            micros,
        ),
        serve(state, request, fd, outcomes, micros).0.files == state.files,
{
    reveal_with_fuel(settle, 4);
}

/// The raw decoder is never asked for the pixels of a file that it did not recognise.
pub proof fn lemma_raw_decoder_is_not_asked_in_vain<S, Y, D, B>(
    state: State<S, Y>,
    request: Request,
    fd: Option<D>,
    outcomes: Outcomes<S, Y, B>,
    other: Result<(Picture, Filled<B>), String>,
    micros: u64,
)
    requires
        state.wf(),
        state.pending is Idle,
        request is Preview || request is Sensor,
        state.files.contains_key(request_id(request)->0),
        !state.files[request_id(request)->0].rawler,
    ensures
        serve(state, request, fd, outcomes, micros) == serve(
            state,
            request,
            fd,
            Outcomes { raw: other, ..outcomes },
            micros,
        ),
{
    reveal_with_fuel(settle, 4);
}

/// A sequence of requests, each served in turn: the files left open.
pub open spec fn serve_all<S, Y, D, B>(
    state: State<S, Y>,
    requests: Seq<(Request, Option<D>, Outcomes<S, Y, B>, u64)>,
) -> State<S, Y>
    decreases requests.len(),
{
    if requests.len() == 0 {
        state
    } else {
        let (request, fd, outcomes, micros) = requests.last();
        serve(serve_all(state, requests.drop_last()), request, fd, outcomes, micros).0
    }
}

/// However many requests a peer makes, and whatever they come to, no more files are ever open
/// than allowed.
pub proof fn lemma_open_files_are_bounded<S, Y, D, B>(
    state: State<S, Y>,
    requests: Seq<(Request, Option<D>, Outcomes<S, Y, B>, u64)>,
)
    requires
        state.wf(),
        state.pending is Idle,
        forall|i: int| 0 <= i < requests.len() ==> (#[trigger] requests[i]).2.suit(requests[i].0),
    ensures
        serve_all(state, requests).wf(),
        serve_all(state, requests).pending is Idle,
        serve_all(state, requests).files.len() <= MAX_OPEN_FILES,
    decreases requests.len(),
{
    if requests.len() > 0 {
        let (request, fd, outcomes, micros) = requests.last();
        lemma_open_files_are_bounded(state, requests.drop_last());
        lemma_every_request_is_answered(
            serve_all(state, requests.drop_last()),
            request,
            fd,
            outcomes,
            micros,
        );
    }
}

/// Whatever requests a peer has made, it is told truly whether the helper confined itself.
pub proof fn lemma_confinement_is_told<S, Y, D, B>(
    state: State<S, Y>,
    requests: Seq<(Request, Option<D>, Outcomes<S, Y, B>, u64)>,
    fd: Option<D>,
)
    requires
        state.wf(),
        state.pending is Idle,
        forall|i: int| 0 <= i < requests.len() ==> (#[trigger] requests[i]).2.suit(requests[i].0),
    ensures
        accept::<S, Y, D, B>(serve_all(state, requests), Request::SandboxCheck, fd).1 == (
        ActionView::<D, B>::Answer {
            reply: ReplyView::Sandbox { confined: state.confined },
            buffer: None,
        }),
    decreases requests.len(),
{
    if requests.len() > 0 {
        let (request, attached, outcomes, micros) = requests.last();
        let before = serve_all(state, requests.drop_last());
        lemma_confinement_is_told(state, requests.drop_last(), fd);
        lemma_open_files_are_bounded(state, requests.drop_last());
        lemma_every_request_is_answered(before, request, attached, outcomes, micros);
    }
}

/// Whether a decoder, where it succeeds, gives a preview in a buffer of four bytes for each pixel.
pub open spec fn gives_preview<B>(decoded: Result<(Picture, Filled<B>), String>) -> bool {
    decoded matches Ok((picture, filled)) ==> picture is Preview && filled.plan.map
        == picture->Preview_0.width * picture->Preview_0.height * 4
}

/// Whether a decoder, where it succeeds, gives samples in a buffer of two bytes for each, or of four
/// where they are single-precision.
pub open spec fn gives_samples<B>(decoded: Result<(Picture, Filled<B>), String>) -> bool {
    decoded matches Ok((picture, filled)) ==> picture is Sensor && {
        let layout = picture->Sensor_0;
        let values = layout.width * layout.height * layout.components;
        filled.plan.map == if layout.sample == Sample::F32 {
            values * 4
        } else {
            values * 2
        }
    }
}

/// What is announced of a preview is what the decoder gave, every number of it and its colour space,
/// with the decoder's own buffer: the raw decoder's where it recognised the file and succeeds, else
/// the system decoder's, else the reasons why there is none. The file keeps its system decoder once
/// that was needed, and all else stays as it was.
pub proof fn lemma_preview_is_the_decoders<S, Y, D, B>(
    state: State<S, Y>,
    id: u64,
    fd: Option<D>,
    outcomes: Outcomes<S, Y, B>,
    micros: u64,
)
    requires
        state.wf(),
        state.pending is Idle,
        gives_preview(outcomes.raw),
        gives_preview(outcomes.developed),
    ensures
        ({
            let (after, action) = serve(state, Request::Preview { id }, fd, outcomes, micros);
            let file = state.files[id];
            let asked_raw = file.rawler && outcomes.raw is Ok;
            let opened = match (file.system, outcomes.system) {
                (Some(system), _) => system,
                (None, Ok((system, _))) => Ok(system),
                (None, Err(error)) => Err(error),
            };
            &&& after.pending is Idle
            &&& after.confined == state.confined
            &&& !state.files.contains_key(id) ==> after.files == state.files && action == (
            ActionView::<D, B>::Answer {
                reply: ReplyView::Failed { id, error: "file not open"@ },
                buffer: None,
            })
            &&& state.files.contains_key(id) && asked_raw ==> after.files == state.files && action == (
            ActionView::<D, B>::Answer {
                reply: ReplyView::Preview { id, image: outcomes.raw->Ok_0.0->Preview_0, micros },
                buffer: Some(outcomes.raw->Ok_0.1),
            })
            &&& state.files.contains_key(id) && !asked_raw ==> after.files == state.files.insert(
                id,
                OpenFile {
                    source: file.source,
                    rawler: file.rawler,
                    system: Some(opened),
                    extension: file.extension,
                },
            )
            &&& state.files.contains_key(id) && !asked_raw && opened is Err ==> action == (
            ActionView::<D, B>::Answer {
                reply: ReplyView::Failed { id, error: opened->Err_0@ },
                buffer: None,
            })
            &&& state.files.contains_key(id) && !asked_raw && opened is Ok && outcomes.developed is Ok
                ==> action == (ActionView::<D, B>::Answer {
                reply: ReplyView::Preview {
                    id,
                    image: outcomes.developed->Ok_0.0->Preview_0,
                    micros,
                },
                buffer: Some(outcomes.developed->Ok_0.1),
            })
            &&& state.files.contains_key(id) && !asked_raw && opened is Ok && outcomes.developed is Err
                ==> action == (ActionView::<D, B>::Answer {
                reply: ReplyView::Failed {
                    id,
                    error: if file.rawler && outcomes.raw->Err_0@.len() > 0 {
                        outcomes.raw->Err_0@ + "; system: "@ + outcomes.developed->Err_0@
                    } else {
                        outcomes.developed->Err_0@
                    },
                },
                buffer: None,
            })
        }),
{
    reveal_with_fuel(settle, 4);
    if state.files.contains_key(id) {
        assert(state.files.insert(id, state.files[id]) =~= state.files);
        if state.files[id].system is Some {
            let file = state.files[id];
            assert(file == OpenFile {
                source: file.source,
                rawler: file.rawler,
                system: Some(file.system->0),
                extension: file.extension,
            });
        }
    }
}

/// What is announced of samples is what the decoder gave, their layout and all that the engine is
/// told of them, with the decoder's own buffer; the decoders are asked as for a preview.
pub proof fn lemma_samples_are_the_decoders<S, Y, D, B>(
    state: State<S, Y>,
    id: u64,
    fd: Option<D>,
    outcomes: Outcomes<S, Y, B>,
    micros: u64,
)
    requires
        state.wf(),
        state.pending is Idle,
        gives_samples(outcomes.raw),
        gives_samples(outcomes.developed),
    ensures
        ({
            let (after, action) = serve(state, Request::Sensor { id }, fd, outcomes, micros);
            let file = state.files[id];
            let asked_raw = file.rawler && outcomes.raw is Ok;
            let opened = match (file.system, outcomes.system) {
                (Some(system), _) => system,
                (None, Ok((system, _))) => Ok(system),
                (None, Err(error)) => Err(error),
            };
            &&& after.pending is Idle
            &&& after.confined == state.confined
            &&& !state.files.contains_key(id) ==> after.files == state.files && action == (
            ActionView::<D, B>::Answer {
                reply: ReplyView::Failed { id, error: "file not open"@ },
                buffer: None,
            })
            &&& state.files.contains_key(id) && asked_raw ==> after.files == state.files && action == (
            ActionView::<D, B>::Answer {
                reply: ReplyView::Sensor {
                    id,
                    sensor: outcomes.raw->Ok_0.0->Sensor_0,
                    info: *outcomes.raw->Ok_0.0->Sensor_1,
                    micros,
                },
                buffer: Some(outcomes.raw->Ok_0.1),
            })
            &&& state.files.contains_key(id) && !asked_raw ==> after.files == state.files.insert(
                id,
                OpenFile {
                    source: file.source,
                    rawler: file.rawler,
                    system: Some(opened),
                    extension: file.extension,
                },
            )
            &&& state.files.contains_key(id) && !asked_raw && opened is Err ==> action == (
            ActionView::<D, B>::Answer {
                reply: ReplyView::Failed { id, error: opened->Err_0@ },
                buffer: None,
            })
            &&& state.files.contains_key(id) && !asked_raw && opened is Ok && outcomes.developed is Ok
                ==> action == (ActionView::<D, B>::Answer {
                reply: ReplyView::Sensor {
                    id,
                    sensor: outcomes.developed->Ok_0.0->Sensor_0,
                    info: *outcomes.developed->Ok_0.0->Sensor_1,
                    micros,
                },
                buffer: Some(outcomes.developed->Ok_0.1),
            })
            &&& state.files.contains_key(id) && !asked_raw && opened is Ok && outcomes.developed is Err
                ==> action == (ActionView::<D, B>::Answer {
                reply: ReplyView::Failed {
                    id,
                    error: if file.rawler && outcomes.raw->Err_0@.len() > 0 {
                        outcomes.raw->Err_0@ + "; system: "@ + outcomes.developed->Err_0@
                    } else {
                        outcomes.developed->Err_0@
                    },
                },
                buffer: None,
            })
        }),
{
    reveal_with_fuel(settle, 4);
    if state.files.contains_key(id) {
        assert(state.files.insert(id, state.files[id]) =~= state.files);
        if state.files[id].system is Some {
            let file = state.files[id];
            assert(file == OpenFile {
                source: file.source,
                rawler: file.rawler,
                system: Some(file.system->0),
                extension: file.extension,
            });
        }
    }
}

/// What a request to open a file is answered, whatever the outside work comes to: the headers as the
/// raw decoder read them, else as the system decoder did, else why neither did; the file is kept
/// under its id exactly where it was read, as it was mapped and with the extension that was given.
pub proof fn lemma_opened_file_is_the_decoders<S, Y, D, B>(
    state: State<S, Y>,
    id: u64,
    extension: Option<String>,
    fd: Option<D>,
    outcomes: Outcomes<S, Y, B>,
    micros: u64,
)
    requires
        state.wf(),
        state.pending is Idle,
    ensures
        ({
            let (after, action) = serve(
                state,
                Request::Open { id, extension },
                fd,
                outcomes,
                micros,
            );
            let room = fd is Some && state.files.len() < 8;
            let mapped = room && outcomes.mapped is Ok;
            &&& after.pending is Idle
            &&& after.confined == state.confined
            &&& !(mapped && (outcomes.headers is Ok || outcomes.system is Ok)) ==> after.files
                == state.files
            &&& fd is None ==> action == (ActionView::<D, B>::Answer {
                reply: ReplyView::Failed { id, error: "no file descriptor attached"@ },
                buffer: None,
            })
            &&& fd is Some && !room ==> action == (ActionView::<D, B>::Answer {
                reply: ReplyView::Failed { id, error: "too many open files"@ },
                buffer: None,
            })
            &&& room && !mapped ==> action == (ActionView::<D, B>::Answer {
                reply: ReplyView::Failed { id, error: "cannot map file: "@ + outcomes.mapped->Err_0@ },
                buffer: None,
            })
            &&& mapped && outcomes.headers is Ok ==> {
                &&& action == (ActionView::<D, B>::Answer {
                    reply: ReplyView::Opened { id, info: outcomes.headers->Ok_0, micros },
                    buffer: None,
                })
                &&& after.files == state.files.insert(
                    id,
                    OpenFile {
                        source: outcomes.mapped->Ok_0,
                        rawler: true,
                        system: None,
                        extension,
                    },
                )
            }
            &&& mapped && outcomes.headers is Err && outcomes.system is Ok ==> {
                &&& action == (ActionView::<D, B>::Answer {
                    reply: ReplyView::Opened { id, info: outcomes.system->Ok_0.1, micros },
                    buffer: None,
                })
                &&& after.files == state.files.insert(
                    id,
                    OpenFile {
                        source: outcomes.mapped->Ok_0,
                        rawler: false,
                        system: Some(Ok(outcomes.system->Ok_0.0)),
                        extension,
                    },
                )
            }
            &&& mapped && outcomes.headers is Err && outcomes.system is Err ==> action == (
            ActionView::<D, B>::Answer {
                reply: ReplyView::Failed {
                    id,
                    error: outcomes.headers->Err_0@ + "; system: "@ + outcomes.system->Err_0@,
                },
                buffer: None,
            })
        }),
{
    reveal_with_fuel(settle, 4);
}

/// A greeting is answered with the protocol's version and the decoder, a check of the sandbox with
/// whether the helper is confined, and closing a file with its id; closing takes that file away and
/// none of the three changes anything else.
pub proof fn lemma_plain_answers<S, Y, D, B>(
    state: State<S, Y>,
    version: u32,
    id: u64,
    fd: Option<D>,
)
    requires
        state.pending is Idle,
    ensures
        accept::<S, Y, D, B>(state, Request::Hello { version }, fd) == (
            state,
            ActionView::<D, B>::Answer {
                reply: ReplyView::Hello { version: 1, decoder: "rawler 0.8.0"@ },
                buffer: None,
            },
        ),
        accept::<S, Y, D, B>(state, Request::SandboxCheck, fd) == (
            state,
            ActionView::<D, B>::Answer {
                reply: ReplyView::Sandbox { confined: state.confined },
                buffer: None,
            },
        ),
        accept::<S, Y, D, B>(state, Request::Close { id }, fd).1 == (ActionView::<D, B>::Answer {
            reply: ReplyView::Closed { id },
            buffer: None,
        }),
        accept::<S, Y, D, B>(state, Request::Close { id }, fd).0 == (State::<S, Y> {
            confined: state.confined,
            files: state.files.remove(id),
            pending: Pending::Idle,
        }),
{
}

/// A decoder is only ever asked for the pixels that the request is about.
pub proof fn lemma_asked_pixels<S, Y, D, B>(
    state: State<S, Y>,
    id: u64,
    fd: Option<D>,
    event: Event<S, Y, B>,
    micros: u64,
)
    ensures
        ({
            let (_, preview) = accept::<S, Y, D, B>(state, Request::Preview { id }, fd);
            let (_, samples) = accept::<S, Y, D, B>(state, Request::Sensor { id }, fd);
            let (_, next) = advance::<S, Y, D, B>(state, event, micros);
            let asked = match state.pending {
                Pending::Raw { pixels, .. } => Some(pixels),
                Pending::System { pixels, .. } => Some(pixels),
                _ => None,
            };
            &&& preview matches ActionView::RawDecode(p) ==> p == Pixels::Preview
            &&& preview matches ActionView::SystemDecode(p) ==> p == Pixels::Preview
            &&& samples matches ActionView::RawDecode(p) ==> p == Pixels::Sensor
            &&& samples matches ActionView::SystemDecode(p) ==> p == Pixels::Sensor
            &&& next matches ActionView::SystemDecode(p) ==> asked == Some(p)
            &&& !(next is RawDecode)
        }),
{
}

/// What is done about a file is done to the file that the request names: to the one that was mapped
/// for it, or to the one that is open under its id, with that file's extension.
pub proof fn lemma_subject_is_the_requests<S, Y, D, B>(
    state: State<S, Y>,
    request: Request,
    id: u64,
    fd: Option<D>,
    event: Event<S, Y, B>,
    micros: u64,
)
    requires
        state.wf(),
    ensures
        ({
            let (accepted, action) = accept::<S, Y, D, B>(state, request, fd);
            let (next, then_do) = advance::<S, Y, D, B>(state, event, micros);
            &&& (request == Request::Preview { id } || request == Request::Sensor { id }) && !(
            action is Answer) ==> subject(accepted) == Some(
                (state.files[id].source, state.files[id].extension),
            )
            &&& state.pending is Mapping && (event matches Event::Mapped(Ok(_))) ==> subject(next)
                == Some((event->Mapped_0->Ok_0, state.pending->Mapping_extension))
            &&& !(state.pending is Mapping) && awaits(state.pending, event) && !(then_do is Answer)
                ==> subject(next) == subject(state)
        }),
{
}

/// The file that is handed out is the one waited for, and the decoder the one that this file has.
pub proof fn lemma_handed_out<S, Y>(
    session: Session<S, Y>,
    found: Option<(&S, Option<&String>)>,
    system: Option<&Y>,
    idle: bool,
)
    requires
        session@.wf(),
        call_ensures(Session::<S, Y>::subject, (&session,), found),
        call_ensures(Session::<S, Y>::system, (&session,), system),
        call_ensures(Session::<S, Y>::is_idle, (&session,), idle),
    ensures
        idle <==> session@.pending is Idle,
        match session@.pending {
            Pending::Idle | Pending::Mapping { .. } => found is None,
            Pending::Headers { source, extension, .. } => handed(found, source, extension),
            Pending::Recognition { source, extension, .. } => handed(found, source, extension),
            Pending::Raw { id, .. } | Pending::System { id, .. } | Pending::Developed { id, .. } => {
                handed(found, session@.files[id].source, session@.files[id].extension)
            },
        },
        system is Some <==> session@.pending is Developed,
        session@.pending matches Pending::Developed { id, .. } ==> session@.files[id].system == Some(
            Ok::<Y, String>(*system->0),
        ),
{
}

/// Whether a file and its extension were handed out.
pub open spec fn handed<S>(
    found: Option<(&S, Option<&String>)>,
    source: S,
    extension: Option<String>,
) -> bool {
    &&& found matches Some((s, e))
    &&& *s == source
    &&& e is Some <==> extension is Some
    &&& e matches Some(text) ==> extension == Some(*text)
}

/// What came of an action is taken exactly where it is what that action was for: any error, a mapped
/// file, headers, a recognised file, or the pixels asked for in a buffer of exactly their bytes.
pub proof fn lemma_taken<S, Y, B>(session: Session<S, Y>, event: Event<S, Y, B>, taken: bool)
    requires
        call_ensures(Session::<S, Y>::awaits::<B>, (&session, &event), taken),
    ensures
        taken <==> match session@.pending {
            Pending::Idle => false,
            Pending::Mapping { .. } => event is Mapped,
            Pending::Headers { .. } => event is Headers,
            Pending::Recognition { .. } | Pending::System { .. } => event is SystemOpened,
            Pending::Raw { pixels, .. } | Pending::Developed { pixels, .. } => event is Decoded && {
                if pixels == Pixels::Preview {
                    gives_preview(event->Decoded_0)
                } else {
                    gives_samples(event->Decoded_0)
                }
            },
        },
{
}

/// A new session has no files and nothing to wait for, and knows whether the helper is confined.
pub proof fn lemma_new_session<S, Y>(confined: bool, session: Session<S, Y>)
    requires
        call_ensures(Session::<S, Y>::new, (confined,), session),
    ensures
        session@.confined == confined,
        session@.files == Map::<u64, OpenFile<S, Y>>::empty(),
        session@.pending is Idle,
        session@.wf(),
{
}

} // verus!
