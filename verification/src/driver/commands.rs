//! What the application asks of the driver.

use vstd::prelude::*;
use vstd::string::*;
use vstd::utf8::*;

use crate::driver::events::{DriverEvent, Told};
use crate::driver::flows::StreamShutdown;
use crate::driver::desk::{Desk, DeskState, Serving};
use crate::driver::state::{lemma_put_wf, CoreState, H3Core, WaitingRequest};
use crate::headers::{asks_for_session, fields, is_webtransport_connect, Header};
use crate::lane::{Lane, LaneError, LaneState};
use crate::peer_log::Sent;
use crate::pipe_config::DriverPipe;
use crate::request_stream::RequestStream;
use crate::settings::Http3Settings;
use crate::table::put;
use crate::transport::Role;
use crate::wire::capsule::MAX_CLOSE_MESSAGE_LEN;
use crate::wire::stream_prefix::WebTransportStreamDirection;
use crate::wt::requests::Queued;
use crate::wt::types::SessionEvent;

verus! {

/// Something that the application asks of the driver.
#[derive(Debug)]
pub enum H3Command {
    /// Send a request.
    Request { request_id: u64, headers: Vec<Header>, fin: bool },
    /// Tell the peer that no more requests are taken.
    GoAway,
    /// End directions of a stream.
    ShutdownStream { stream_id: u64, shutdown: StreamShutdown },
    /// Close a session.
    CloseSession { session_id: u64, error_code: u32, message: String },
}

/// What became of a command that the application offered.
#[derive(Clone, Copy, Debug, PartialEq, Eq, Structural)]
pub enum H3CommandAdmission {
    Accepted,
    QueueFull,
    DriverGone,
}

/// Why a session cannot be closed. What the application handed over comes back.
#[derive(Debug)]
pub enum WebTransportSessionCloseError {
    /// The message is longer than a close capsule can carry.
    MessageTooLong { len: usize, message: String },
    QueueFull { session_id: u64, error_code: u32, message: String },
    DriverGone { session_id: u64, error_code: u32, message: String },
}

impl CoreState {
    /// The state after the request for a session was refused before it left.
    pub open spec fn request_refused(self, request_id: u64) -> CoreState {
        self.told(Told::WebTransportRequestRejected { request_id })
    }

    /// Whether a request for a session can leave: the peer offers WebTransport,
    /// no session is there yet, and a stream may be opened.
    pub open spec fn can_ask_session(self) -> bool {
        self.peer_webtransport == Some(true) && (self.session matches Some(s) && s.takes_session(
            self.transport.next_stream(WebTransportStreamDirection::Bidi),
        )) && self.transport.may_open(WebTransportStreamDirection::Bidi)
    }

    /// The state after a request for a session left, or was refused.
    #[verifier::opaque]
    pub open spec fn session_requested(self, request_id: u64) -> CoreState {
        let stream_id = self.transport.next_stream(WebTransportStreamDirection::Bidi);
        match self.session {
            Some(s) => if self.can_ask_session() {
                (CoreState {
                    transport: self.transport.opened(WebTransportStreamDirection::Bidi).sending(
                        Sent::Headers { stream_id, cost: 0 },
                    ),
                    session: Some(
                        s.asked(stream_id).saying(
                            SessionEvent::Pending { session_id: stream_id },
                        ),
                    ),
                    streams: put(
                        self.streams,
                        stream_id,
                        RequestStream::opened(false, false, true),
                    ),
                    ..self
                }).flushed().told(Told::NewOutboundRequest { stream_id, request_id })
            } else {
                self.request_refused(request_id)
            },
            None => self.request_refused(request_id),
        }
    }

    /// The state after an ordinary request left, or was put aside until a stream
    /// may be opened. Its field section takes nothing of the stream's credit.
    #[verifier::opaque]
    pub open spec fn request_left(self, request_id: u64, fin: bool) -> CoreState {
        let stream_id = self.transport.next_stream(WebTransportStreamDirection::Bidi);
        if self.transport.may_open(WebTransportStreamDirection::Bidi) {
            let opened = self.transport.opened(WebTransportStreamDirection::Bidi).sending(
                Sent::Headers { stream_id, cost: 0 },
            );
            (CoreState {
                transport: if fin {
                    opened.sending(Sent::Fin { stream_id })
                } else {
                    opened
                },
                streams: put(self.streams, stream_id, RequestStream::opened(false, fin, false)),
                ..self
            }).told(Told::NewOutboundRequest { stream_id, request_id })
        } else {
            CoreState {
                waiting_requests: self.waiting_requests.push(WaitingRequest { request_id, fin }),
                ..self
            }
        }
    }

    /// The state after the application asked for a request. One for a session
    /// waits for the peer's settings; a second one is refused meanwhile.
    #[verifier::opaque]
    pub open spec fn requested(
        self,
        request_id: u64,
        list: Seq<(Seq<u8>, Seq<u8>)>,
        fin: bool,
    ) -> CoreState {
        if self.session is Some && asks_for_session(list) {
            if self.settings_forwarded {
                self.session_requested(request_id)
            } else if self.queued_request is Some {
                self.request_refused(request_id)
            } else {
                CoreState { queued_request: Some(request_id), ..self }
            }
        } else {
            self.request_left(request_id, fin)
        }
    }

    /// The state after the application asked for the end of a session.
    #[verifier::opaque]
    pub open spec fn close_requested(
        self,
        session_id: u64,
        error_code: u32,
        message: Seq<char>,
    ) -> CoreState {
        match self.session {
            Some(s) => if encode_utf8(message).len() <= MAX_CLOSE_MESSAGE_LEN {
                self.with_session(s.close_begun(session_id, error_code, message)).close_pumped()
            } else {
                self
            },
            None => self,
        }
    }

    /// The state after one command.
    #[verifier::opaque]
    pub open spec fn commanded(self, command: H3Command) -> CoreState {
        match command {
            H3Command::Request { request_id, headers, fin } => self.requested(
                request_id,
                fields(headers@),
                fin,
            ),
            H3Command::GoAway => CoreState { goaway_sent: true, ..self },
            H3Command::ShutdownStream { stream_id, shutdown } => self.stream_shut(
                stream_id,
                shutdown,
            ),
            H3Command::CloseSession { session_id, error_code, message } => self.close_requested(
                session_id,
                error_code,
                message@,
            ),
        }
    }

    /// The state after the commands of a list from index `from` on.
    pub open spec fn commanded_from(self, commands: Seq<H3Command>, from: int) -> CoreState
        decreases commands.len() - from,
    {
        if from < 0 || from >= commands.len() {
            self
        } else {
            self.commanded(commands[from]).commanded_from(commands, from + 1)
        }
    }

    /// Whether the request for a session that was put aside can go on.
    pub open spec fn request_released(self) -> bool {
        self.queued_request is Some && self.settings_forwarded
    }

    /// The state after the request for a session that was put aside went on.
    #[verifier::opaque]
    pub open spec fn queued_request_sent(self) -> CoreState {
        match self.queued_request {
            Some(request_id) => if self.settings_forwarded {
                (CoreState { queued_request: None, ..self }).session_requested(request_id)
            } else {
                self
            },
            None => self,
        }
    }

    /// The state after requests of a list from index `from` on were tried again.
    pub open spec fn retried_from(self, requests: Seq<WaitingRequest>, from: int) -> CoreState
        decreases requests.len() - from,
    {
        if from < 0 || from >= requests.len() {
            self
        } else {
            self.request_left(requests[from].request_id, requests[from].fin).retried_from(
                requests,
                from + 1,
            )
        }
    }

    /// The state after the requests that were put aside were tried again.
    #[verifier::opaque]
    pub open spec fn requests_retried(self) -> CoreState {
        (CoreState { waiting_requests: Seq::empty(), ..self }).retried_from(
            self.waiting_requests,
            0,
        )
    }

    /// The state before any command of this turn.
    pub open spec fn caught_up(self) -> CoreState {
        self.queued_request_sent().requests_retried()
    }
}

impl H3Core {
    fn reject_request(&mut self, request_id: u64)
        requires
            old(self).wf(),
        ensures
            final(self).wf(),
            final(self)@ == old(self)@.request_refused(request_id),
    {
        self.emit(DriverEvent::WebTransportRequestRejected { request_id });
    }

    fn may_ask_session(&self) -> (may: bool)
        ensures
            may == self@.can_ask_session(),
    {
        let offers = match self.peer_webtransport {
            Some(offers) => offers,
            None => false,
        };
        match (self.transport.upcoming(WebTransportStreamDirection::Bidi), &self.session) {
            (Some(next), Some(runtime)) => offers && runtime.has_room_for(next),
            _ => false,
        }
    }

    fn request_session(&mut self, request_id: u64)
        requires
            old(self).wf(),
        ensures
            final(self).wf(),
            final(self)@ == old(self)@.session_requested(request_id),
    {
        proof {
            reveal(CoreState::session_requested);
        }
        if !self.may_ask_session() {
            self.reject_request(request_id);
            return;
        }
        if let Some(stream_id) = self.transport.open_stream(WebTransportStreamDirection::Bidi) {
            self.transport.log_mut().headers(stream_id, 0);
            if let Some(runtime) = &mut self.session {
                let _ = runtime.ask(stream_id);
                runtime.announce(stream_id);
            }
            proof {
                lemma_put_wf(self.streams@, stream_id, None);
            }
            self.streams.set(stream_id, RequestStream::open(false, false, true));
            self.flush();
            self.emit(DriverEvent::NewOutboundRequest { stream_id, request_id });
        }
    }

    fn send_request(&mut self, request_id: u64, fin: bool)
        requires
            old(self).wf(),
        ensures
            final(self).wf(),
            final(self)@ == old(self)@.request_left(request_id, fin),
    {
        proof {
            reveal(CoreState::request_left);
        }
        match self.transport.open_stream(WebTransportStreamDirection::Bidi) {
            Some(stream_id) => {
                self.transport.log_mut().headers(stream_id, 0);
                if fin {
                    self.transport.log_mut().fin(stream_id);
                }
                proof {
                    lemma_put_wf(self.streams@, stream_id, None);
                }
                self.streams.set(stream_id, RequestStream::open(false, fin, false));
                self.emit(DriverEvent::NewOutboundRequest { stream_id, request_id });
            },
            None => {
                self.waiting_requests.push(WaitingRequest { request_id, fin });
            },
        }
    }

    fn handle_request(&mut self, request_id: u64, headers: &Vec<Header>, fin: bool)
        requires
            old(self).wf(),
        ensures
            final(self).wf(),
            final(self)@ == old(self)@.requested(request_id, fields(headers@), fin),
    {
        proof {
            reveal(CoreState::requested);
        }
        if self.session.is_some() && is_webtransport_connect(headers) {
            if self.settings_forwarded {
                self.request_session(request_id);
            } else if self.queued_request.is_some() {
                self.reject_request(request_id);
            } else {
                self.queued_request = Some(request_id);
            }
        } else {
            self.send_request(request_id, fin);
        }
    }

    fn handle_close(&mut self, session_id: u64, error_code: u32, message: &String)
        requires
            old(self).wf(),
        ensures
            final(self).wf(),
            final(self)@ == old(self)@.close_requested(session_id, error_code, message@),
    {
        proof {
            reveal(CoreState::close_requested);
        }
        if message_len(message) > MAX_CLOSE_MESSAGE_LEN {
            return;
        }
        match &mut self.session {
            Some(runtime) => {
                let _ = runtime.begin_close(session_id, error_code, message.as_str());
            },
            None => {
                return;
            },
        }
        self.pump_close();
    }

    /// Carries a command out.
    pub fn handle_command(&mut self, command: H3Command)
        requires
            old(self).wf(),
        ensures
            final(self).wf(),
            final(self)@ == old(self)@.commanded(command),
    {
        proof {
            reveal(CoreState::commanded);
        }
        match command {
            H3Command::Request { request_id, headers, fin } => {
                self.handle_request(request_id, &headers, fin);
            },
            H3Command::GoAway => {
                self.goaway_sent = true;
            },
            H3Command::ShutdownStream { stream_id, shutdown } => {
                self.shut_stream(stream_id, shutdown);
            },
            H3Command::CloseSession { session_id, error_code, message } => {
                self.handle_close(session_id, error_code, &message);
            },
        }
    }

    fn send_queued_request(&mut self) -> (sent: bool)
        requires
            old(self).wf(),
        ensures
            final(self).wf(),
            final(self)@ == old(self)@.queued_request_sent(),
            sent == old(self)@.request_released(),
    {
        proof {
            reveal(CoreState::queued_request_sent);
        }
        match self.queued_request {
            Some(request_id) => if self.settings_forwarded {
                self.queued_request = None;
                self.request_session(request_id);
                true
            } else {
                false
            },
            None => false,
        }
    }

    fn retry_requests(&mut self)
        requires
            old(self).wf(),
        ensures
            final(self).wf(),
            final(self)@ == old(self)@.requests_retried(),
    {
        proof {
            reveal(CoreState::requests_retried);
        }
        let mut requests: Vec<WaitingRequest> = Vec::new();
        std::mem::swap(&mut requests, &mut self.waiting_requests);
        let ghost target = self@.retried_from(requests@, 0);
        let mut i: usize = 0;
        while i < requests.len()
            invariant
                i <= requests@.len(),
                self.wf(),
                self@.retried_from(requests@, i as int) == target,
            decreases requests@.len() - i,
        {
            let request = requests[i];
            self.send_request(request.request_id, request.fin);
            i += 1;
        }
    }

    /// Goes on with the requests that were put aside. Returns whether one for a
    /// session was among them.
    pub fn catch_up(&mut self) -> (released: bool)
        requires
            old(self).wf(),
        ensures
            final(self).wf(),
            final(self)@ == old(self)@.caught_up(),
            released == old(self)@.request_released(),
    {
        let released = self.send_queued_request();
        self.retry_requests();
        released
    }
}

/// How many bytes a message has.
pub fn message_len(message: &String) -> (len: usize)
    ensures
        len == encode_utf8(message@).len(),
{
    message.as_str().as_bytes().len()
}

/// A driver with the lanes on which the application talks to it.
pub struct H3Driver {
    pub core: H3Core,
    pub commands: Lane<H3Command>,
    pub desk: Desk,
    /// The requests about sessions.
    pub requests: Lane<Queued>,
}

/// The value of an [`H3Driver`].
pub ghost struct DriverState {
    pub core: CoreState,
    pub commands: LaneState<H3Command>,
    pub desk: DeskState,
    pub requests: LaneState<Queued>,
}

impl View for H3Driver {
    type V = DriverState;

    open spec fn view(&self) -> DriverState {
        DriverState {
            core: self.core@,
            commands: self.commands@,
            desk: self.desk@,
            requests: self.requests@,
        }
    }
}

impl DriverState {
    /// The driver's state together with the desk's.
    pub open spec fn serving(self) -> Serving {
        Serving { core: self.core, desk: self.desk }
    }

    /// The state with other values of the driver's state and the desk's.
    pub open spec fn with_serving(self, serving: Serving) -> DriverState {
        DriverState { core: serving.core, desk: serving.desk, ..self }
    }

    /// What becomes of a command that is offered.
    pub open spec fn admission(self) -> H3CommandAdmission {
        if !self.commands.open {
            H3CommandAdmission::DriverGone
        } else if self.commands.admits() {
            H3CommandAdmission::Accepted
        } else {
            H3CommandAdmission::QueueFull
        }
    }

    /// The state after a command was offered.
    pub open spec fn offered(self, command: H3Command) -> DriverState {
        if self.commands.admits() {
            DriverState {
                commands: LaneState {
                    items: self.commands.items.push(command),
                    ..self.commands
                },
                ..self
            }
        } else {
            self
        }
    }

    /// The state after all waiting commands were carried out, and the requests
    /// that they decided were answered.
    #[verifier::opaque]
    pub open spec fn commands_processed(self) -> DriverState {
        let commanded = DriverState {
            core: self.core.caught_up().commanded_from(self.commands.items, 0),
            commands: LaneState { items: Seq::empty(), ..self.commands },
            ..self
        };
        commanded.with_serving(
            commanded.serving().streams_settled().datagrams_settled().sessions_settled()
                .ready_settled(),
        )
    }

    /// How many commands that is.
    pub open spec fn commands_due(self) -> nat {
        self.commands.items.len() + if self.core.request_released() {
            1nat
        } else {
            0nat
        }
    }
}

impl H3Driver {
    /// The parts of the driver are consistent.
    pub open spec fn wf(self) -> bool {
        &&& self.core.wf()
        &&& self.commands.wf()
        &&& self.commands@.items.len() <= self.commands@.capacity < usize::MAX
        &&& self.desk.wf()
        &&& self.requests.wf()
    }

    /// A driver before the handshake.
    pub open spec fn fresh(role: Role, pipe: DriverPipe, settings: Http3Settings) -> DriverState {
        DriverState {
            core: H3Core::fresh(role, pipe, settings),
            commands: LaneState::fresh(settings.command_capacity as nat),
            desk: Desk::fresh(settings),
            requests: LaneState::fresh(settings.webtransport_command_capacity as nat),
        }
    }

    /// A driver before the handshake.
    pub fn new(role: Role, pipe: DriverPipe, settings: Http3Settings) -> (driver: Self)
        requires
            settings.lanes_fit(),
        ensures
            driver.wf(),
            driver@ == H3Driver::fresh(role, pipe, settings),
    {
        let commands = Lane::new(settings.command_capacity);
        let requests = Lane::new(settings.webtransport_command_capacity);
        let desk = Desk::new(&settings);
        H3Driver { core: H3Core::new(role, pipe, settings), commands, desk, requests }
    }

    fn offer(&mut self, command: H3Command) -> (admission: H3CommandAdmission)
        requires
            old(self).wf(),
        ensures
            final(self).wf(),
            admission == old(self)@.admission(),
            final(self)@ == old(self)@.offered(command),
    {
        match self.commands.try_send(command) {
            Ok(()) => H3CommandAdmission::Accepted,
            Err(LaneError::Full(_)) => H3CommandAdmission::QueueFull,
            Err(LaneError::Closed(_)) => H3CommandAdmission::DriverGone,
        }
    }

    /// Asks for a request.
    pub fn enqueue_request(&mut self, request_id: u64, headers: Vec<Header>, fin: bool) -> (
    admission: H3CommandAdmission)
        requires
            old(self).wf(),
        ensures
            final(self).wf(),
            admission == old(self)@.admission(),
            final(self)@ == old(self)@.offered(H3Command::Request { request_id, headers, fin }),
    {
        self.offer(H3Command::Request { request_id, headers, fin })
    }

    /// Asks the driver to tell the peer that no more requests are taken.
    pub fn send_goaway(&mut self) -> (admission: H3CommandAdmission)
        requires
            old(self).wf(),
        ensures
            final(self).wf(),
            admission == old(self)@.admission(),
            final(self)@ == old(self)@.offered(H3Command::GoAway),
    {
        self.offer(H3Command::GoAway)
    }

    /// Asks the driver to end directions of a stream.
    pub fn shutdown_stream(&mut self, stream_id: u64, shutdown: StreamShutdown) -> (admission:
        H3CommandAdmission)
        requires
            old(self).wf(),
        ensures
            final(self).wf(),
            admission == old(self)@.admission(),
            final(self)@ == old(self)@.offered(
                H3Command::ShutdownStream { stream_id, shutdown },
            ),
    {
        self.offer(H3Command::ShutdownStream { stream_id, shutdown })
    }

    /// Asks the driver to close a session. A message that is too long is refused
    /// before anything is asked; whenever the driver is not asked, the message
    /// comes back.
    pub fn close_webtransport_session(
        &mut self,
        session_id: u64,
        error_code: u32,
        message: String,
    ) -> (result: Result<(), WebTransportSessionCloseError>)
        requires
            old(self).wf(),
        ensures
            final(self).wf(),
            encode_utf8(message@).len() > MAX_CLOSE_MESSAGE_LEN ==> final(self)@ == old(self)@
                && result == Err::<(), _>(
                WebTransportSessionCloseError::MessageTooLong {
                    len: encode_utf8(message@).len() as usize,
                    message,
                },
            ),
            encode_utf8(message@).len() <= MAX_CLOSE_MESSAGE_LEN ==> final(self)@
                == old(self)@.offered(
                H3Command::CloseSession { session_id, error_code, message },
            ) && result == (match old(self)@.admission() {
                H3CommandAdmission::Accepted => Ok(()),
                H3CommandAdmission::QueueFull => Err(
                    WebTransportSessionCloseError::QueueFull { session_id, error_code, message },
                ),
                H3CommandAdmission::DriverGone => Err(
                    WebTransportSessionCloseError::DriverGone { session_id, error_code, message },
                ),
            }),
    {
        let len: usize = message_len(&message);
        if len > MAX_CLOSE_MESSAGE_LEN {
            return Err(WebTransportSessionCloseError::MessageTooLong { len, message });
        }
        match self.commands.try_send(
            H3Command::CloseSession { session_id, error_code, message },
        ) {
            Ok(()) => Ok(()),
            Err(LaneError::Full(command)) => match command {
                H3Command::CloseSession { session_id, error_code, message } => Err(
                    WebTransportSessionCloseError::QueueFull { session_id, error_code, message },
                ),
                _ => Ok(()),
            },
            Err(LaneError::Closed(command)) => match command {
                H3Command::CloseSession { session_id, error_code, message } => Err(
                    WebTransportSessionCloseError::DriverGone { session_id, error_code, message },
                ),
                _ => Ok(()),
            },
        }
    }

    /// The driver takes no more commands.
    pub fn shut_down(&mut self)
        requires
            old(self).wf(),
        ensures
            final(self).wf(),
            final(self)@ == (DriverState {
                commands: LaneState { open: false, ..old(self)@.commands },
                ..old(self)@
            }),
    {
        self.commands.close();
    }

    /// Carries all waiting commands out. Returns how many there were.
    pub fn process_commands(&mut self) -> (count: usize)
        requires
            old(self).wf(),
        ensures
            final(self).wf(),
            final(self)@ == old(self)@.commands_processed(),
            count == old(self)@.commands_due(),
    {
        proof {
            reveal(DriverState::commands_processed);
        }
        let released = self.core.catch_up();
        let ghost all = self.commands@.items;
        let ghost target = self.core@.commanded_from(all, 0);
        let mut count: usize = 0;
        assert(all.skip(0) =~= all);
        while self.commands.len() > 0
            invariant
                self.wf(),
                count + self.commands@.items.len() == all.len(),
                self.commands@.items == all.skip(count as int),
                self.commands@.capacity == old(self)@.commands.capacity,
                self.commands@.open == old(self)@.commands.open,
                all.len() <= old(self)@.commands.capacity < usize::MAX,
                self.core@.commanded_from(all, count as int) == target,
                self.desk == old(self).desk,
                self.requests == old(self).requests,
            decreases self.commands@.items.len(),
        {
            if let Some(command) = self.commands.try_recv() {
                assert(command == all[count as int]);
                assert(self.commands@.items =~= all.skip(count + 1));
                self.core.handle_command(command);
                count += 1;
            }
        }
        assert(self.commands@.items =~= Seq::empty());
        self.desk.settle_streams(&mut self.core);
        self.desk.settle_datagrams(&mut self.core);
        self.desk.settle_sessions(&self.core);
        self.desk.settle_ready(&self.core);
        if released {
            count + 1
        } else {
            count
        }
    }
}

} // verus!
