//! The dispatcher: one cycle of opening the device, sending one control
//! request and closing the device again.
//!
//! The library touches no device. It decides: `IoctlDispatcher::begin` says
//! what to do first, the caller does it and reports what happened as a
//! `DispatchEvent`, and `DispatchState::step` says what to do next, until the
//! action is `Done`. However the events fall, the device is asked to be
//! opened at most once, the request is sent at most once, and no cycle that
//! got hold of the device ends without asking for it to be closed.

use crate::buffer::BufferError;
use crate::catalog::Ioctl;
use vstd::prelude::*;

verus! {

/// Why a dispatch cycle did not give a response.
#[derive(Debug, Clone, Copy, PartialEq, Eq, Structural)]
pub enum DispatchError {
    /// The input buffer could not be built; nothing was opened.
    Buffer(BufferError),
    /// A buffer size does not fit the 32 bits that a control request has for
    /// it; nothing was opened.
    SizeTooLarge { size: usize },
    /// The device could not be opened.
    DeviceUnavailable { status: i32 },
    /// The device was opened and the request failed.
    RequestFailed { status: i32 },
    /// The request succeeded and closing the device failed.
    CloseFailed { status: i32 },
    /// An event was reported that cannot follow the action asked for.
    UnexpectedEvent,
    /// The response was asked for before the cycle had finished.
    PrematureRead,
}

/// Something that can send what it holds to its destination.
pub trait Dispatcher {
    fn dispatch(&self) -> Result<(), DispatchError>;
}

/// Runs one dispatch: the dispatcher given is asked once, and what comes
/// back is what its `dispatch` returned, an error as much as a success.
pub fn send_single<D: Dispatcher>(dispatcher: &D) -> (res: Result<(), DispatchError>)
    ensures
        call_ensures(D::dispatch, (dispatcher,), res),
{
    dispatcher.dispatch()
}

/// What is handed to the device with one control request.
#[derive(Debug, PartialEq, Eq)]
pub struct Request {
    pub code: u32,
    pub input: Vec<u8>,
    pub input_size: u32,
    pub output_capacity: u32,
}

/// What the device gave back: the output buffer, and how many bytes of it the
/// device says it wrote.
#[derive(Debug, PartialEq, Eq)]
pub struct Response {
    pub bytes: Vec<u8>,
    pub transferred: u32,
}

/// Where a dispatch cycle stands.
#[derive(Debug, PartialEq, Eq)]
pub enum DispatchState {
    /// The device was asked to be opened; the request waits for it.
    Opening { request: Request, overlapped: bool },
    /// The device is open and the request was sent, with an output buffer of
    /// `output_capacity` bytes.
    Sending { overlapped: bool, output_capacity: u32 },
    /// The device is open and the request has not completed yet.
    Waiting { output_capacity: u32 },
    /// The device was asked to be closed.
    Closing { outcome: Result<Response, DispatchError> },
    /// The cycle is over.
    Finished { outcome: Result<Response, DispatchError> },
}

/// What the caller reports after doing what it was asked.
#[derive(Debug, PartialEq, Eq)]
pub enum DispatchEvent {
    /// The device is open.
    Opened,
    /// The device could not be opened.
    OpenFailed { status: i32 },
    /// The request completed: `output` is the whole output buffer, of which
    /// the device says it wrote `transferred` bytes.
    Completed { output: Vec<u8>, transferred: u32 },
    /// The request was taken and has not completed yet.
    Pending,
    /// The request failed.
    RequestFailed { status: i32 },
    /// The device is closed.
    Closed,
    /// The device could not be closed.
    CloseFailed { status: i32 },
}

/// What the caller is asked to do next.
#[derive(Debug, PartialEq, Eq)]
pub enum DispatchAction {
    /// Open the device, for asynchronous requests where `overlapped` is set.
    Open { device_name: String, overlapped: bool },
    /// Send the request, with a zeroed output buffer of `output_capacity` bytes.
    Send { request: Request },
    /// Wait until the request has completed.
    Wait,
    /// Close the device.
    Close,
    /// Nothing more: the outcome is in the state.
    Done,
}

/// A request, with its input buffer as a byte sequence.
pub struct RequestView {
    pub code: u32,
    pub input: Seq<u8>,
    pub input_size: u32,
    pub output_capacity: u32,
}

/// A response, with the output buffer as a byte sequence.
pub struct ResponseView {
    pub bytes: Seq<u8>,
    pub transferred: u32,
}

/// Where a cycle stands, over byte sequences.
pub enum StateView {
    Opening { request: RequestView, overlapped: bool },
    Sending { overlapped: bool, output_capacity: u32 },
    Waiting { output_capacity: u32 },
    Closing { outcome: Result<ResponseView, DispatchError> },
    Finished { outcome: Result<ResponseView, DispatchError> },
}

/// An event, over byte sequences.
pub enum EventView {
    Opened,
    OpenFailed { status: i32 },
    Completed { output: Seq<u8>, transferred: u32 },
    Pending,
    RequestFailed { status: i32 },
    Closed,
    CloseFailed { status: i32 },
}

/// An action, over byte and character sequences.
pub enum ActionView {
    Open { device_name: Seq<char>, overlapped: bool },
    Send { request: RequestView },
    Wait,
    Close,
    Done,
}

impl View for Request {
    type V = RequestView;

    open spec fn view(&self) -> RequestView {
        RequestView {
            code: self.code,
            input: self.input@,
            input_size: self.input_size,
            output_capacity: self.output_capacity,
        }
    }
}

impl View for Response {
    type V = ResponseView;

    open spec fn view(&self) -> ResponseView {
        ResponseView { bytes: self.bytes@, transferred: self.transferred }
    }
}

/// An outcome with the response taken as its byte sequence.
pub open spec fn outcome_view(outcome: Result<Response, DispatchError>) -> Result<
    ResponseView,
    DispatchError,
> {
    match outcome {
        Ok(response) => Ok(response@),
        Err(e) => Err(e),
    }
}

impl View for DispatchState {
    type V = StateView;

    open spec fn view(&self) -> StateView {
        match self {
            DispatchState::Opening { request, overlapped } => StateView::Opening {
                request: request@,
                overlapped: *overlapped,
            },
            DispatchState::Sending { overlapped, output_capacity } => StateView::Sending {
                overlapped: *overlapped,
                output_capacity: *output_capacity,
            },
            DispatchState::Waiting { output_capacity } => StateView::Waiting {
                output_capacity: *output_capacity,
            },
            DispatchState::Closing { outcome } => StateView::Closing {
                outcome: outcome_view(*outcome),
            },
            DispatchState::Finished { outcome } => StateView::Finished {
                outcome: outcome_view(*outcome),
            },
        }
    }
}

impl View for DispatchEvent {
    type V = EventView;

    open spec fn view(&self) -> EventView {
        match self {
            DispatchEvent::Opened => EventView::Opened,
            DispatchEvent::OpenFailed { status } => EventView::OpenFailed { status: *status },
            DispatchEvent::Completed { output, transferred } => EventView::Completed {
                output: output@,
                transferred: *transferred,
            },
            DispatchEvent::Pending => EventView::Pending,
            DispatchEvent::RequestFailed { status } => EventView::RequestFailed { status: *status },
            DispatchEvent::Closed => EventView::Closed,
            DispatchEvent::CloseFailed { status } => EventView::CloseFailed { status: *status },
        }
    }
}

impl View for DispatchAction {
    type V = ActionView;

    open spec fn view(&self) -> ActionView {
        match self {
            DispatchAction::Open { device_name, overlapped } => ActionView::Open {
                device_name: device_name@,
                overlapped: *overlapped,
            },
            DispatchAction::Send { request } => ActionView::Send { request: request@ },
            DispatchAction::Wait => ActionView::Wait,
            DispatchAction::Close => ActionView::Close,
            DispatchAction::Done => ActionView::Done,
        }
    }
}

/// The cycle ends with `outcome`, and there is nothing left to do.
pub open spec fn finish(outcome: Result<ResponseView, DispatchError>) -> (StateView, ActionView) {
    (StateView::Finished { outcome }, ActionView::Done)
}

/// The device is to be closed, and the cycle will then end with `outcome`.
pub open spec fn close_with(outcome: Result<ResponseView, DispatchError>) -> (
    StateView,
    ActionView,
) {
    (StateView::Closing { outcome }, ActionView::Close)
}

/// How a cycle for `ioctl` on the device `device_name` begins.
///
/// An entry outside the input buffer ends the cycle with the error of the
/// build, before anything else is looked at. A buffer size that a control
/// request cannot carry ends it next. Either way the device is not touched.
/// Otherwise the device is to be opened, and the request that waits for it
/// holds the built input buffer.
pub open spec fn begin_spec(device_name: Seq<char>, ioctl: Ioctl) -> (StateView, ActionView) {
    match ioctl.input_buffer() {
        Err(e) => finish(Err(DispatchError::Buffer(e))),
        Ok(input) => if ioctl.input_buffer_size > u32::MAX {
            finish(Err(DispatchError::SizeTooLarge { size: ioctl.input_buffer_size }))
        } else if ioctl.output_buffer_size > u32::MAX {
            finish(Err(DispatchError::SizeTooLarge { size: ioctl.output_buffer_size }))
        } else {
            (
                StateView::Opening {
                    request: RequestView {
                        code: ioctl.code,
                        input,
                        input_size: ioctl.input_buffer_size as u32,
                        output_capacity: ioctl.output_buffer_size as u32,
                    },
                    overlapped: ioctl.overlapped,
                },
                ActionView::Open { device_name, overlapped: ioctl.overlapped },
            )
        },
    }
}

/// What a request that has completed ends with: the response, where the
/// output buffer handed back has the size that was asked for.
pub open spec fn completed(output_capacity: u32, output: Seq<u8>, transferred: u32) -> Result<
    ResponseView,
    DispatchError,
> {
    if output.len() == output_capacity {
        Ok(ResponseView { bytes: output, transferred })
    } else {
        Err(DispatchError::UnexpectedEvent)
    }
}

/// What closing the device ends with, where the request had ended with
/// `outcome`: an earlier failure stays, and a response is lost to `failure`.
pub open spec fn unless_failed(
    outcome: Result<ResponseView, DispatchError>,
    failure: DispatchError,
) -> Result<ResponseView, DispatchError> {
    match outcome {
        Ok(_) => Err(failure),
        Err(e) => Err(e),
    }
}

/// What follows when `event` is reported in `state`.
pub open spec fn step_spec(state: StateView, event: EventView) -> (StateView, ActionView) {
    match state {
        StateView::Opening { request, overlapped } => match event {
            EventView::Opened => (
                StateView::Sending { overlapped, output_capacity: request.output_capacity },
                ActionView::Send { request },
            ),
            EventView::OpenFailed { status } => finish(
                Err(DispatchError::DeviceUnavailable { status }),
            ),
            _ => finish(Err(DispatchError::UnexpectedEvent)),
        },
        StateView::Sending { overlapped, output_capacity } => match event {
            EventView::Completed { output, transferred } => close_with(
                completed(output_capacity, output, transferred),
            ),
            EventView::RequestFailed { status } => close_with(
                Err(DispatchError::RequestFailed { status }),
            ),
            EventView::Pending => if overlapped {
                (StateView::Waiting { output_capacity }, ActionView::Wait)
            } else {
                close_with(Err(DispatchError::UnexpectedEvent))
            },
            _ => close_with(Err(DispatchError::UnexpectedEvent)),
        },
        StateView::Waiting { output_capacity } => match event {
            EventView::Completed { output, transferred } => close_with(
                completed(output_capacity, output, transferred),
            ),
            EventView::RequestFailed { status } => close_with(
                Err(DispatchError::RequestFailed { status }),
            ),
            _ => close_with(Err(DispatchError::UnexpectedEvent)),
        },
        StateView::Closing { outcome } => match event {
            EventView::Closed => finish(outcome),
            EventView::CloseFailed { status } => finish(
                unless_failed(outcome, DispatchError::CloseFailed { status }),
            ),
            _ => finish(unless_failed(outcome, DispatchError::UnexpectedEvent)),
        },
        StateView::Finished { outcome } => finish(outcome),
    }
}

/// What reading the outcome in `state` gives: the outcome of a finished
/// cycle, and an error of its own before that.
pub open spec fn outcome_spec(state: StateView) -> Result<ResponseView, DispatchError> {
    match state {
        StateView::Finished { outcome } => outcome,
        _ => Err(DispatchError::PrematureRead),
    }
}

impl StateView {
    /// Whether the device is open in this state, as far as the cycle knows.
    pub open spec fn holds_device(self) -> bool {
        self is Sending || self is Waiting || self is Closing
    }

    /// The greatest number of events that can still be taken before the
    /// cycle is over.
    pub open spec fn steps_left(self) -> nat {
        match self {
            StateView::Opening { .. } => 4,
            StateView::Sending { .. } => 3,
            StateView::Waiting { .. } => 2,
            StateView::Closing { .. } => 1,
            StateView::Finished { .. } => 0,
        }
    }
}

/// Dispatcher that sends one control request to a device.
pub struct IoctlDispatcher<'a> {
    pub device_name: String,
    pub ioctl: &'a Ioctl,
}

impl<'a> IoctlDispatcher<'a> {
    /// Begins a cycle: builds the input buffer and asks for the device to be
    /// opened, or ends the cycle at once where the request cannot be sent.
    /// The entries are tested before any buffer is made, so that a request
    /// that is refused costs no memory.
    pub fn begin(&self) -> (next: (DispatchState, DispatchAction))
        ensures
            (next.0@, next.1@) == begin_spec(self.device_name@, *self.ioctl),
    {
        let ioctl = self.ioctl;
        match ioctl.check_entries() {
            Ok(()) => {},
            Err(e) => {
                return (
                    DispatchState::Finished { outcome: Err(DispatchError::Buffer(e)) },
                    DispatchAction::Done,
                );
            },
        }
        if ioctl.input_buffer_size > u32::MAX as usize {
            return (
                DispatchState::Finished {
                    outcome: Err(DispatchError::SizeTooLarge { size: ioctl.input_buffer_size }),
                },
                DispatchAction::Done,
            );
        }
        if ioctl.output_buffer_size > u32::MAX as usize {
            return (
                DispatchState::Finished {
                    outcome: Err(DispatchError::SizeTooLarge { size: ioctl.output_buffer_size }),
                },
                DispatchAction::Done,
            );
        }
        match ioctl.build_input_buffer() {
            Err(e) => (
                DispatchState::Finished { outcome: Err(DispatchError::Buffer(e)) },
                DispatchAction::Done,
            ),
            Ok(input) => {
                let request = Request {
                    code: ioctl.code,
                    input,
                    input_size: ioctl.input_buffer_size as u32,
                    output_capacity: ioctl.output_buffer_size as u32,
                };
                (
                    DispatchState::Opening { request, overlapped: ioctl.overlapped },
                    DispatchAction::Open {
                        device_name: self.device_name.clone(),
                        overlapped: ioctl.overlapped,
                    },
                )
            },
        }
    }
}

/// Says what a completed request ends with.
fn complete(output_capacity: u32, output: Vec<u8>, transferred: u32) -> (outcome: Result<
    Response,
    DispatchError,
>)
    ensures
        outcome_view(outcome) == completed(output_capacity, output@, transferred),
{
    if output.len() == output_capacity as usize {
        Ok(Response { bytes: output, transferred })
    } else {
        Err(DispatchError::UnexpectedEvent)
    }
}

/// Says what the cycle ends with where closing the device went wrong.
fn fail_unless_failed(outcome: Result<Response, DispatchError>, failure: DispatchError) -> (res:
    Result<Response, DispatchError>)
    ensures
        outcome_view(res) == unless_failed(outcome_view(outcome), failure),
{
    match outcome {
        Ok(_) => Err(failure),
        Err(e) => Err(e),
    }
}

impl DispatchState {
    /// Takes the event that the caller reports and says what to do next.
    pub fn step(self, event: DispatchEvent) -> (next: (DispatchState, DispatchAction))
        ensures
            (next.0@, next.1@) == step_spec(self@, event@),
    {
        match self {
            DispatchState::Opening { request, overlapped } => match event {
                DispatchEvent::Opened => (
                    DispatchState::Sending { overlapped, output_capacity: request.output_capacity },
                    DispatchAction::Send { request },
                ),
                DispatchEvent::OpenFailed { status } => (
                    DispatchState::Finished {
                        outcome: Err(DispatchError::DeviceUnavailable { status }),
                    },
                    DispatchAction::Done,
                ),
                _ => (
                    DispatchState::Finished { outcome: Err(DispatchError::UnexpectedEvent) },
                    DispatchAction::Done,
                ),
            },
            DispatchState::Sending { overlapped, output_capacity } => match event {
                DispatchEvent::Completed { output, transferred } => (
                    DispatchState::Closing {
                        outcome: complete(output_capacity, output, transferred),
                    },
                    DispatchAction::Close,
                ),
                DispatchEvent::RequestFailed { status } => (
                    DispatchState::Closing {
                        outcome: Err(DispatchError::RequestFailed { status }),
                    },
                    DispatchAction::Close,
                ),
                DispatchEvent::Pending => if overlapped {
                    (DispatchState::Waiting { output_capacity }, DispatchAction::Wait)
                } else {
                    (
                        DispatchState::Closing { outcome: Err(DispatchError::UnexpectedEvent) },
                        DispatchAction::Close,
                    )
                },
                _ => (
                    DispatchState::Closing { outcome: Err(DispatchError::UnexpectedEvent) },
                    DispatchAction::Close,
                ),
            },
            DispatchState::Waiting { output_capacity } => match event {
                DispatchEvent::Completed { output, transferred } => (
                    DispatchState::Closing {
                        outcome: complete(output_capacity, output, transferred),
                    },
                    DispatchAction::Close,
                ),
                DispatchEvent::RequestFailed { status } => (
                    DispatchState::Closing {
                        outcome: Err(DispatchError::RequestFailed { status }),
                    },
                    DispatchAction::Close,
                ),
                _ => (
                    DispatchState::Closing { outcome: Err(DispatchError::UnexpectedEvent) },
                    DispatchAction::Close,
                ),
            },
            DispatchState::Closing { outcome } => match event {
                DispatchEvent::Closed => (DispatchState::Finished { outcome }, DispatchAction::Done),
                DispatchEvent::CloseFailed { status } => (
                    DispatchState::Finished {
                        outcome: fail_unless_failed(
                            outcome,
                            DispatchError::CloseFailed { status },
                        ),
                    },
                    DispatchAction::Done,
                ),
                _ => (
                    DispatchState::Finished {
                        outcome: fail_unless_failed(outcome, DispatchError::UnexpectedEvent),
                    },
                    DispatchAction::Done,
                ),
            },
            DispatchState::Finished { outcome } => (
                DispatchState::Finished { outcome },
                DispatchAction::Done,
            ),
        }
    }

    /// Whether the cycle is over.
    pub fn is_finished(&self) -> (finished: bool)
        ensures
            finished == (self@ is Finished),
    {
        match self {
            DispatchState::Finished { .. } => true,
            _ => false,
        }
    }

    /// Hands out the outcome of the cycle. Before the cycle is over there is
    /// no response to read, and the result is `PrematureRead`.
    pub fn into_outcome(self) -> (outcome: Result<Response, DispatchError>)
        ensures
            outcome_view(outcome) == outcome_spec(self@),
    {
        match self {
            DispatchState::Finished { outcome } => outcome,
            _ => Err(DispatchError::PrematureRead),
        }
    }
}

/// A cycle that has not begun holds no device, and it is over at once
/// exactly where it asks for nothing: then it ends in an error, and where an
/// entry lies outside the input buffer that error is the error of the build,
/// whatever the sizes are.
pub proof fn lemma_begin_protocol(device_name: Seq<char>, ioctl: Ioctl)
    ensures
        !begin_spec(device_name, ioctl).0.holds_device(),
        begin_spec(device_name, ioctl).1 is Open || begin_spec(device_name, ioctl).1 is Done,
        begin_spec(device_name, ioctl).1 is Open <==> begin_spec(device_name, ioctl).0 is Opening,
        begin_spec(device_name, ioctl).1 is Done <==> begin_spec(device_name, ioctl).0 is Finished,
        begin_spec(device_name, ioctl).0 is Finished ==> outcome_spec(
            begin_spec(device_name, ioctl).0,
        ) is Err,
        begin_spec(device_name, ioctl).1 is Open <==> ioctl.input_buffer() is Ok
            && ioctl.input_buffer_size <= u32::MAX && ioctl.output_buffer_size <= u32::MAX,
        ioctl.input_buffer() matches Err(e) ==> begin_spec(device_name, ioctl) == finish(
            Err(DispatchError::Buffer(e)),
        ),
{
}

/// Each action has its one place in the cycle: the request is sent only on
/// the news that the device is open, waiting is asked only for a request
/// sent for asynchronous completion, closing only for a device that is open
/// and was not asked to be closed before, and no step asks to open.
pub proof fn lemma_step_protocol(state: StateView, event: EventView)
    ensures
        !(step_spec(state, event).1 is Open),
        step_spec(state, event).1 is Send <==> state is Opening && event is Opened,
        step_spec(state, event).1 is Send ==> step_spec(state, event).0 is Sending,
        step_spec(state, event).1 is Wait <==> state is Sending && state->Sending_overlapped
            && event is Pending,
        step_spec(state, event).1 is Wait ==> step_spec(state, event).0 is Waiting,
        step_spec(state, event).1 is Close <==> step_spec(state, event).0 is Closing,
        step_spec(state, event).1 is Close ==> state.holds_device() && !(state is Closing),
        step_spec(state, event).1 is Done <==> step_spec(state, event).0 is Finished,
{
}

/// The device is got hold of by the news that it is open and by nothing
/// else, and it is let go only after it was asked to be closed: a cycle that
/// holds the device cannot end without a `Close`.
pub proof fn lemma_step_holds_device(state: StateView, event: EventView)
    ensures
        step_spec(state, event).0.holds_device() <==> (state.holds_device() && !(state is Closing))
            || (state is Opening && event is Opened),
        state.holds_device() && step_spec(state, event).0 is Finished ==> state is Closing,
{
}

/// Every event brings the cycle nearer its end: it is over after four
/// events at most, and stays over.
pub proof fn lemma_step_progress(state: StateView, event: EventView)
    ensures
        !(state is Finished) ==> step_spec(state, event).0.steps_left() < state.steps_left(),
        state is Finished ==> step_spec(state, event) == (state, ActionView::Done),
{
}

impl StateView {
    /// Whether this state can be met in a cycle for `ioctl`: the request
    /// that waits is the one that `ioctl` describes, and a response that was
    /// taken is an output buffer of the size that `ioctl` asks for.
    pub open spec fn serves(self, ioctl: Ioctl) -> bool {
        match self {
            StateView::Opening { request, overlapped } => {
                &&& overlapped == ioctl.overlapped
                &&& request.code == ioctl.code
                &&& ioctl.input_buffer() == Ok::<Seq<u8>, BufferError>(request.input)
                &&& request.input.len() == ioctl.input_buffer_size
                &&& request.input_size == ioctl.input_buffer_size
                &&& request.output_capacity == ioctl.output_buffer_size
            },
            StateView::Sending { overlapped, output_capacity } => {
                &&& overlapped == ioctl.overlapped
                &&& output_capacity == ioctl.output_buffer_size
            },
            StateView::Waiting { output_capacity } => {
                &&& ioctl.overlapped
                &&& output_capacity == ioctl.output_buffer_size
            },
            StateView::Closing { outcome } | StateView::Finished { outcome } => {
                outcome matches Ok(response) ==> response.bytes.len() == ioctl.output_buffer_size
            },
        }
    }
}

/// A cycle begins in a state that serves its request, and what it asks to
/// be opened is the device named, in the mode that the request names.
pub proof fn lemma_begin_serves(device_name: Seq<char>, ioctl: Ioctl)
    ensures
        begin_spec(device_name, ioctl).0.serves(ioctl),
        begin_spec(device_name, ioctl).1 is Open ==> begin_spec(device_name, ioctl).1 == (
        ActionView::Open { device_name, overlapped: ioctl.overlapped }),
{
    if begin_spec(device_name, ioctl).1 is Open {
        crate::buffer::lemma_build_len(ioctl.input_buffer_size, ioctl.entries());
    }
}

/// Every step keeps the cycle serving its request. So the input buffer
/// that is sent is the one built for the request, with its sizes, and a
/// response that the cycle ends with has exactly the size of the request's
/// output buffer, however many bytes of it the device wrote.
pub proof fn lemma_step_serves(state: StateView, event: EventView, ioctl: Ioctl)
    requires
        state.serves(ioctl),
    ensures
        step_spec(state, event).0.serves(ioctl),
        step_spec(state, event).1 matches ActionView::Send { request } ==> {
            &&& request.code == ioctl.code
            &&& ioctl.input_buffer() == Ok::<Seq<u8>, BufferError>(request.input)
            &&& request.input_size == request.input.len()
            &&& request.output_capacity == ioctl.output_buffer_size
        },
{
}

/// A response is handed out only for a request that completed and a device
/// that was closed after it; every failure on the way is what the cycle
/// ends with.
pub proof fn lemma_step_outcome(state: StateView, event: EventView)
    ensures
        step_spec(state, event).0 matches StateView::Finished { outcome: Ok(response) } ==> (state
            == StateView::Closing { outcome: Ok::<ResponseView, DispatchError>(response) }
            && event is Closed) || state == (StateView::Finished {
            outcome: Ok::<ResponseView, DispatchError>(response),
        }),
        step_spec(state, event).0 matches StateView::Closing { outcome: Ok(response) } ==> (state
            is Sending || state is Waiting) && event == (EventView::Completed {
            output: response.bytes,
            transferred: response.transferred,
        }),
        state matches StateView::Closing { outcome: Err(e) } ==> step_spec(state, event).0 == (
        StateView::Finished { outcome: Err::<ResponseView, DispatchError>(e) }),
{
}

} // verus!
