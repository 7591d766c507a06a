use ioctiller::dispatch::{
    DispatchAction, DispatchError, DispatchEvent, DispatchState, Dispatcher, IoctlDispatcher,
    Request, Response,
};
use ioctiller::{send_single, BufferContentEntry, BufferError, EntryData, Ioctl};

const DEVICE: &str = "\\\\.\\GLOBALROOT\\Device\\Beep";

fn beep(overlapped: bool) -> Ioctl {
    Ioctl {
        name: "IOCTL_BEEP".to_string(),
        code: 0x10000,
        overlapped,
        input_buffer_size: 0x40,
        output_buffer_size: 0x8,
        input_buffer_content: Some(vec![
            BufferContentEntry {
                offset: 0x0,
                entry_data: EntryData::U8 { value: 0x41 },
            },
            BufferContentEntry {
                offset: 0x8,
                entry_data: EntryData::U16 { value: 0x1234 },
            },
            BufferContentEntry {
                offset: 0x10,
                entry_data: EntryData::U32 { value: 0xDEADC0DE },
            },
            BufferContentEntry {
                offset: 0x18,
                entry_data: EntryData::U64 {
                    value: 0xCAFEBABEDEADBEEF,
                },
            },
            BufferContentEntry {
                offset: 0x20,
                entry_data: EntryData::String8 {
                    value: "FOOBAR".to_string(),
                },
            },
            BufferContentEntry {
                offset: 0x30,
                entry_data: EntryData::Fill {
                    value: 0x24,
                    length: 0x10,
                },
            },
        ]),
    }
}

fn beep_buffer() -> Vec<u8> {
    vec![
        0x41, 0, 0, 0, 0, 0, 0, 0, 0x34, 0x12, 0, 0, 0, 0, 0, 0, 0xDE, 0xC0, 0xAD, 0xDE, 0, 0, 0,
        0, 0xEF, 0xBE, 0xAD, 0xDE, 0xBE, 0xBA, 0xFE, 0xCA, 0x46, 0x4F, 0x4F, 0x42, 0x41, 0x52, 0,
        0, 0, 0, 0, 0, 0, 0, 0, 0, 0x24, 0x24, 0x24, 0x24, 0x24, 0x24, 0x24, 0x24, 0x24, 0x24,
        0x24, 0x24, 0x24, 0x24, 0x24, 0x24,
    ]
}

pub struct TestDispatcher<'a> {
    pub device_name: String,
    pub ioctl: &'a Ioctl,
}

impl<'a> Dispatcher for TestDispatcher<'a> {
    fn dispatch(&self) -> Result<(), DispatchError> {
        let input = self.ioctl.build_input_buffer().unwrap();

        assert_eq!(self.device_name, DEVICE.to_string());

        assert_eq!(input.len(), 0x40);

        let correct_buffer = beep_buffer();

        assert_eq!(input, correct_buffer);

        Ok(())
    }
}

struct FailingDispatcher;

impl Dispatcher for FailingDispatcher {
    fn dispatch(&self) -> Result<(), DispatchError> {
        Err(DispatchError::DeviceUnavailable { status: 5 })
    }
}

#[test]
fn send_single_runs_the_dispatcher_it_is_given() {
    let ioctl = beep(false);
    let test_dispatcher = TestDispatcher {
        device_name: DEVICE.to_string(),
        ioctl: &ioctl,
    };

    if let Err(e) = send_single(&test_dispatcher) {
        panic!("Error calling send with test_dispatcher: {e:?}");
    }
}

struct CountingDispatcher {
    calls: std::cell::Cell<u32>,
}

impl Dispatcher for CountingDispatcher {
    fn dispatch(&self) -> Result<(), DispatchError> {
        self.calls.set(self.calls.get() + 1);
        Err(DispatchError::RequestFailed {
            status: self.calls.get() as i32,
        })
    }
}

#[test]
fn send_single_asks_the_dispatcher_once() {
    let dispatcher = CountingDispatcher {
        calls: std::cell::Cell::new(0),
    };

    assert_eq!(
        send_single(&dispatcher),
        Err(DispatchError::RequestFailed { status: 1 })
    );
    assert_eq!(dispatcher.calls.get(), 1);
}

#[test]
fn send_single_hands_back_the_dispatchers_error() {
    assert_eq!(
        send_single(&FailingDispatcher),
        Err(DispatchError::DeviceUnavailable { status: 5 })
    );
}

fn begin(ioctl: &Ioctl) -> (DispatchState, DispatchAction) {
    IoctlDispatcher {
        device_name: DEVICE.to_string(),
        ioctl,
    }
    .begin()
}

fn expected_request() -> Request {
    Request {
        code: 0x10000,
        input: beep_buffer(),
        input_size: 0x40,
        output_capacity: 0x8,
    }
}

#[test]
fn cycle_begins_by_asking_for_the_device() {
    let ioctl = beep(false);

    let (state, action) = begin(&ioctl);

    assert_eq!(
        action,
        DispatchAction::Open {
            device_name: DEVICE.to_string(),
            overlapped: false
        }
    );
    assert_eq!(
        state,
        DispatchState::Opening {
            request: expected_request(),
            overlapped: false
        }
    );
    assert!(!state.is_finished());
}

#[test]
fn cycle_of_a_request_that_succeeds() {
    let ioctl = beep(false);
    let (state, _) = begin(&ioctl);

    let (state, action) = state.step(DispatchEvent::Opened);
    assert_eq!(
        action,
        DispatchAction::Send {
            request: expected_request()
        }
    );

    let (state, action) = state.step(DispatchEvent::Completed {
        output: vec![1, 2, 3, 4, 0, 0, 0, 0],
        transferred: 4,
    });
    assert_eq!(action, DispatchAction::Close);
    assert!(!state.is_finished());

    let (state, action) = state.step(DispatchEvent::Closed);
    assert_eq!(action, DispatchAction::Done);
    assert!(state.is_finished());
    assert_eq!(
        state.into_outcome(),
        Ok(Response {
            bytes: vec![1, 2, 3, 4, 0, 0, 0, 0],
            transferred: 4
        })
    );
}

#[test]
fn cycle_keeps_an_empty_output_buffer_apart_from_nothing_written() {
    let mut no_output = beep(false);
    no_output.output_buffer_size = 0;
    let (state, _) = begin(&no_output);
    let (state, _) = state.step(DispatchEvent::Opened);
    let (state, _) = state.step(DispatchEvent::Completed {
        output: Vec::new(),
        transferred: 0,
    });
    let (state, _) = state.step(DispatchEvent::Closed);
    assert_eq!(
        state.into_outcome(),
        Ok(Response {
            bytes: Vec::new(),
            transferred: 0
        })
    );

    let ioctl = beep(false);
    let (state, _) = begin(&ioctl);
    let (state, _) = state.step(DispatchEvent::Opened);
    let (state, _) = state.step(DispatchEvent::Completed {
        output: vec![0; 8],
        transferred: 0,
    });
    let (state, _) = state.step(DispatchEvent::Closed);
    assert_eq!(
        state.into_outcome(),
        Ok(Response {
            bytes: vec![0; 8],
            transferred: 0
        })
    );
}

#[test]
fn cycle_ends_at_once_when_an_entry_is_out_of_bounds() {
    let mut ioctl = beep(false);
    ioctl.input_buffer_size = 0x3f;

    let (state, action) = begin(&ioctl);

    assert_eq!(action, DispatchAction::Done);
    assert!(state.is_finished());
    assert_eq!(
        state.into_outcome(),
        Err(DispatchError::Buffer(BufferError::OutOfBounds {
            offset: 0x30,
            entry_size: 0x10,
            buffer_size: 0x3f
        }))
    );
}

#[test]
fn cycle_ends_at_once_when_a_size_does_not_fit_a_request() {
    if usize::BITS > 32 {
        let too_large = (u32::MAX as usize) + 1;
        let mut ioctl = beep(false);
        ioctl.output_buffer_size = too_large;

        let (state, action) = begin(&ioctl);

        assert_eq!(action, DispatchAction::Done);
        assert_eq!(
            state.into_outcome(),
            Err(DispatchError::SizeTooLarge { size: too_large })
        );

        let mut ioctl = beep(false);
        ioctl.input_buffer_size = too_large;
        ioctl.input_buffer_content = None;
        let (state, action) = begin(&ioctl);
        assert_eq!(action, DispatchAction::Done);
        assert_eq!(
            state.into_outcome(),
            Err(DispatchError::SizeTooLarge { size: too_large })
        );
    }
}

#[test]
fn cycle_reports_the_buffer_error_before_a_size_that_does_not_fit() {
    if usize::BITS > 32 {
        let too_large = (u32::MAX as usize) + 1;
        let ioctl = Ioctl {
            name: "IOCTL_BEEP".to_string(),
            code: 0x10000,
            overlapped: false,
            input_buffer_size: usize::MAX,
            output_buffer_size: too_large,
            input_buffer_content: Some(vec![BufferContentEntry {
                offset: usize::MAX,
                entry_data: EntryData::U8 { value: 1 },
            }]),
        };

        let (state, action) = begin(&ioctl);

        assert_eq!(action, DispatchAction::Done);
        assert_eq!(
            state.into_outcome(),
            Err(DispatchError::Buffer(BufferError::OutOfBounds {
                offset: usize::MAX,
                entry_size: 1,
                buffer_size: usize::MAX
            }))
        );
    }
}

#[test]
fn cycle_reports_the_buffer_error_before_an_output_size_that_does_not_fit() {
    if usize::BITS > 32 {
        let mut ioctl = beep(false);
        ioctl.input_buffer_size = 0x3f;
        ioctl.output_buffer_size = (u32::MAX as usize) + 1;

        let (state, action) = begin(&ioctl);

        assert_eq!(action, DispatchAction::Done);
        assert_eq!(
            state.into_outcome(),
            Err(DispatchError::Buffer(BufferError::OutOfBounds {
                offset: 0x30,
                entry_size: 0x10,
                buffer_size: 0x3f
            }))
        );
    }
}

#[test]
fn cycle_ends_without_closing_when_the_device_does_not_open() {
    let ioctl = beep(false);
    let (state, _) = begin(&ioctl);

    let (state, action) = state.step(DispatchEvent::OpenFailed { status: -2147024894 });

    assert_eq!(action, DispatchAction::Done);
    assert_eq!(
        state.into_outcome(),
        Err(DispatchError::DeviceUnavailable {
            status: -2147024894
        })
    );
}

#[test]
fn cycle_closes_the_device_after_a_failed_request() {
    let ioctl = beep(false);
    let (state, _) = begin(&ioctl);
    let (state, _) = state.step(DispatchEvent::Opened);

    let (state, action) = state.step(DispatchEvent::RequestFailed { status: 31 });
    assert_eq!(action, DispatchAction::Close);

    let (state, action) = state.step(DispatchEvent::Closed);
    assert_eq!(action, DispatchAction::Done);
    assert_eq!(
        state.into_outcome(),
        Err(DispatchError::RequestFailed { status: 31 })
    );
}

#[test]
fn cycle_reports_a_failed_close_unless_the_request_failed_first() {
    let ioctl = beep(false);
    let (state, _) = begin(&ioctl);
    let (state, _) = state.step(DispatchEvent::Opened);
    let (state, _) = state.step(DispatchEvent::Completed {
        output: vec![0; 8],
        transferred: 8,
    });
    let (state, action) = state.step(DispatchEvent::CloseFailed { status: 6 });
    assert_eq!(action, DispatchAction::Done);
    assert_eq!(
        state.into_outcome(),
        Err(DispatchError::CloseFailed { status: 6 })
    );

    let (state, _) = begin(&ioctl);
    let (state, _) = state.step(DispatchEvent::Opened);
    let (state, _) = state.step(DispatchEvent::RequestFailed { status: 31 });
    let (state, _) = state.step(DispatchEvent::CloseFailed { status: 6 });
    assert_eq!(
        state.into_outcome(),
        Err(DispatchError::RequestFailed { status: 31 })
    );
}

#[test]
fn cycle_waits_for_an_overlapped_request_to_complete() {
    let ioctl = beep(true);
    let (state, action) = begin(&ioctl);
    assert_eq!(
        action,
        DispatchAction::Open {
            device_name: DEVICE.to_string(),
            overlapped: true
        }
    );
    let (state, _) = state.step(DispatchEvent::Opened);

    let (state, action) = state.step(DispatchEvent::Pending);
    assert_eq!(action, DispatchAction::Wait);
    assert_eq!(state, DispatchState::Waiting { output_capacity: 8 });

    let (state, action) = state.step(DispatchEvent::Completed {
        output: vec![9; 8],
        transferred: 8,
    });
    assert_eq!(action, DispatchAction::Close);
    let (state, _) = state.step(DispatchEvent::Closed);
    assert_eq!(
        state.into_outcome(),
        Ok(Response {
            bytes: vec![9; 8],
            transferred: 8
        })
    );
}

#[test]
fn cycle_closes_the_device_when_a_pending_request_fails() {
    let ioctl = beep(true);
    let (state, _) = begin(&ioctl);
    let (state, _) = state.step(DispatchEvent::Opened);
    let (state, _) = state.step(DispatchEvent::Pending);

    let (state, action) = state.step(DispatchEvent::RequestFailed { status: 995 });

    assert_eq!(action, DispatchAction::Close);
    let (state, _) = state.step(DispatchEvent::Closed);
    assert_eq!(
        state.into_outcome(),
        Err(DispatchError::RequestFailed { status: 995 })
    );
}

#[test]
fn cycle_gives_no_response_before_it_is_over() {
    let ioctl = beep(true);

    let (state, _) = begin(&ioctl);
    assert_eq!(state.into_outcome(), Err(DispatchError::PrematureRead));

    let (state, _) = begin(&ioctl);
    let (state, _) = state.step(DispatchEvent::Opened);
    assert_eq!(state.into_outcome(), Err(DispatchError::PrematureRead));

    let (state, _) = begin(&ioctl);
    let (state, _) = state.step(DispatchEvent::Opened);
    let (state, _) = state.step(DispatchEvent::Pending);
    assert_eq!(state.into_outcome(), Err(DispatchError::PrematureRead));

    let (state, _) = begin(&ioctl);
    let (state, _) = state.step(DispatchEvent::Opened);
    let (state, _) = state.step(DispatchEvent::Completed {
        output: vec![0; 8],
        transferred: 8,
    });
    assert_eq!(state.into_outcome(), Err(DispatchError::PrematureRead));
}

#[test]
fn cycle_refuses_pending_on_a_device_opened_for_synchronous_requests() {
    let ioctl = beep(false);
    let (state, _) = begin(&ioctl);
    let (state, _) = state.step(DispatchEvent::Opened);

    let (state, action) = state.step(DispatchEvent::Pending);

    assert_eq!(action, DispatchAction::Close);
    let (state, _) = state.step(DispatchEvent::Closed);
    assert_eq!(state.into_outcome(), Err(DispatchError::UnexpectedEvent));
}

#[test]
fn cycle_refuses_an_output_buffer_of_another_size() {
    let ioctl = beep(false);
    let (state, _) = begin(&ioctl);
    let (state, _) = state.step(DispatchEvent::Opened);

    let (state, action) = state.step(DispatchEvent::Completed {
        output: vec![0; 7],
        transferred: 7,
    });

    assert_eq!(action, DispatchAction::Close);
    let (state, _) = state.step(DispatchEvent::Closed);
    assert_eq!(state.into_outcome(), Err(DispatchError::UnexpectedEvent));
}

#[test]
fn cycle_refuses_events_out_of_turn() {
    let ioctl = beep(false);

    let (state, _) = begin(&ioctl);
    let (state, action) = state.step(DispatchEvent::Closed);
    assert_eq!(action, DispatchAction::Done);
    assert_eq!(state.into_outcome(), Err(DispatchError::UnexpectedEvent));

    let (state, _) = begin(&ioctl);
    let (state, _) = state.step(DispatchEvent::Opened);
    let (state, action) = state.step(DispatchEvent::Opened);
    assert_eq!(action, DispatchAction::Close);
    let (state, action) = state.step(DispatchEvent::Opened);
    assert_eq!(action, DispatchAction::Done);
    assert_eq!(state.into_outcome(), Err(DispatchError::UnexpectedEvent));

    let (state, _) = begin(&ioctl);
    let (state, _) = state.step(DispatchEvent::Opened);
    let (state, _) = state.step(DispatchEvent::Completed {
        output: vec![0; 8],
        transferred: 8,
    });
    let (state, _) = state.step(DispatchEvent::Pending);
    assert_eq!(state.into_outcome(), Err(DispatchError::UnexpectedEvent));
}

#[test]
fn cycle_stays_over_once_it_is_over() {
    let ioctl = beep(false);
    let (state, _) = begin(&ioctl);
    let (state, _) = state.step(DispatchEvent::OpenFailed { status: 2 });

    let (state, action) = state.step(DispatchEvent::Opened);
    assert_eq!(action, DispatchAction::Done);
    let (state, action) = state.step(DispatchEvent::Closed);
    assert_eq!(action, DispatchAction::Done);

    assert_eq!(
        state.into_outcome(),
        Err(DispatchError::DeviceUnavailable { status: 2 })
    );
}

fn run(ioctl: &Ioctl, events: Vec<DispatchEvent>) -> Vec<DispatchAction> {
    let (mut state, first) = begin(ioctl);
    let mut actions = vec![first];
    for event in events {
        let (next, action) = state.step(event);
        state = next;
        actions.push(action);
    }
    actions
}

fn count(actions: &[DispatchAction], wanted: fn(&DispatchAction) -> bool) -> usize {
    actions.iter().filter(|action| wanted(action)).count()
}

fn event(kind: u8) -> DispatchEvent {
    match kind {
        0 => DispatchEvent::Opened,
        1 => DispatchEvent::OpenFailed { status: 1 },
        2 => DispatchEvent::Completed {
            output: vec![0; 8],
            transferred: 8,
        },
        3 => DispatchEvent::Pending,
        4 => DispatchEvent::RequestFailed { status: 2 },
        5 => DispatchEvent::Closed,
        _ => DispatchEvent::CloseFailed { status: 3 },
    }
}

#[test]
fn cycle_opens_sends_and_closes_at_most_once_whatever_is_reported() {
    for overlapped in [false, true] {
        let ioctl = beep(overlapped);
        for code in 0..7u32.pow(5) {
            let kinds: Vec<u8> = (0..5).map(|place| (code / 7u32.pow(place) % 7) as u8).collect();
            let actions = run(&ioctl, kinds.iter().map(|kind| event(*kind)).collect());

            let opens = count(&actions, |a| matches!(a, DispatchAction::Open { .. }));
            let sends = count(&actions, |a| matches!(a, DispatchAction::Send { .. }));
            let closes = count(&actions, |a| matches!(a, DispatchAction::Close));

            assert_eq!(opens, 1);
            assert!(sends <= 1);
            assert_eq!(closes, sends, "a device that was opened is closed: {kinds:?}");
            assert_eq!(actions.last(), Some(&DispatchAction::Done));
        }
    }
}
