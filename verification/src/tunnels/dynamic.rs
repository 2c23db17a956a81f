//! The conversation of one connection to a dynamic (`ssh -D`) forward.
//!
//! [`DynamicForward`] negotiates the SOCKS5 method, reads the CONNECT request,
//! has the destination opened and answers the client. It performs nothing
//! itself: it names the next action and is told what came of it. The success
//! reply is sent only after the destination is open, and failures send the
//! matching SOCKS reply.

use vstd::prelude::*;
use vstd::string::*;

use crate::tunnels::socks5;
use crate::tunnels::socks5::{
    negotiate_method, read_request, write_reply, NegotiateStep, ReplyCode, RequestModel,
    RequestStep,
};

verus! {

/// How far the conversation has come.
#[derive(Debug, Clone, Copy, PartialEq, Eq, Structural)]
pub enum DynamicPhase {
    /// Reading the greeting.
    Greeting,
    /// Sending the chosen method.
    MethodReply,
    /// Reading the CONNECT request.
    Request,
    /// Having the destination opened.
    Opening,
    /// Sending the success reply.
    SuccessReply,
    /// Nothing is left to decide.
    Over,
}

/// What to do next.
#[derive(Debug, PartialEq, Eq)]
pub enum DynamicAction {
    /// Read exactly this many bytes from the client.
    Read(usize),
    /// Send these bytes to the client.
    Write(Vec<u8>),
    /// Send these bytes to the client (best effort), then close.
    WriteAndClose(Vec<u8>),
    /// Open a channel to this destination.
    Open { host: String, port: u16 },
    /// Copy bytes both ways until either side closes.
    Pump,
    /// Close the connection.
    Close,
}

/// What came of the last action.
#[derive(Debug, PartialEq, Eq)]
pub enum DynamicEvent {
    /// The bytes that were read.
    Received(Vec<u8>),
    /// Everything was sent.
    Sent,
    /// The channel is open.
    Opened,
    /// The action failed.
    Failed,
}

/// An action, with what it carries as characters and bytes.
pub enum ActionModel {
    Read(int),
    Write(Seq<u8>),
    WriteAndClose(Seq<u8>),
    Open { host: Seq<char>, port: u16 },
    Pump,
    Close,
}

impl View for DynamicAction {
    type V = ActionModel;

    open spec fn view(&self) -> ActionModel {
        match self {
            DynamicAction::Read(n) => ActionModel::Read(*n as int),
            DynamicAction::Write(bytes) => ActionModel::Write(bytes@),
            DynamicAction::WriteAndClose(bytes) => ActionModel::WriteAndClose(bytes@),
            DynamicAction::Open { host, port } => ActionModel::Open { host: host@, port: *port },
            DynamicAction::Pump => ActionModel::Pump,
            DynamicAction::Close => ActionModel::Close,
        }
    }
}

/// An event, with what it carries as bytes.
pub enum EventModel {
    Received(Seq<u8>),
    Sent,
    Opened,
    Failed,
}

impl View for DynamicEvent {
    type V = EventModel;

    open spec fn view(&self) -> EventModel {
        match self {
            DynamicEvent::Received(bytes) => EventModel::Received(bytes@),
            DynamicEvent::Sent => EventModel::Sent,
            DynamicEvent::Opened => EventModel::Opened,
            DynamicEvent::Failed => EventModel::Failed,
        }
    }
}

/// The state of a conversation: its phase, and what has been read of the
/// message at hand.
pub struct ForwardModel {
    pub phase: DynamicPhase,
    pub seen: Seq<u8>,
}

/// The state when nothing of a message has been read.
pub open spec fn at(phase: DynamicPhase) -> ForwardModel {
    ForwardModel { phase, seen: Seq::empty() }
}

/// The state and action once these bytes of the greeting are there.
pub open spec fn after_greeting(seen: Seq<u8>) -> (ForwardModel, ActionModel) {
    if seen.len() < 2 || (seen[0] == socks5::SOCKS5_VERSION && seen.len() < socks5::greeting_len(
        seen,
    )) {
        (
            ForwardModel { phase: DynamicPhase::Greeting, seen },
            ActionModel::Read(socks5::greeting_len(seen) - seen.len()),
        )
    } else if seen[0] != socks5::SOCKS5_VERSION {
        (at(DynamicPhase::Over), ActionModel::Close)
    } else if socks5::method_of(seen) is Ok {
        (
            at(DynamicPhase::MethodReply),
            ActionModel::Write(seq![socks5::SOCKS5_VERSION, socks5::METHOD_NO_AUTH]),
        )
    } else {
        (
            at(DynamicPhase::Over),
            ActionModel::WriteAndClose(seq![socks5::SOCKS5_VERSION, socks5::METHOD_NO_ACCEPTABLE]),
        )
    }
}

/// The state and action once a failure is answered with this code.
pub open spec fn answered(code: ReplyCode) -> (ForwardModel, ActionModel) {
    (at(DynamicPhase::Over), ActionModel::WriteAndClose(socks5::plain_reply(code)))
}

/// The state and action once these bytes of the request are there.
pub open spec fn after_request(seen: Seq<u8>) -> (ForwardModel, ActionModel) {
    match socks5::early_refusal(seen) {
        Some(e) => answered(e.reply()),
        None => if seen.len() < socks5::request_len(seen) {
            (
                ForwardModel { phase: DynamicPhase::Request, seen },
                ActionModel::Read(socks5::request_len(seen) - seen.len()),
            )
        } else {
            match socks5::request_of(seen) {
                Ok(request) => (
                    at(DynamicPhase::Opening),
                    ActionModel::Open { host: socks5::host_text(request.addr), port: request.port },
                ),
                Err(e) => answered(e.reply()),
            }
        },
    }
}

/// The state and action that follow an event.
pub open spec fn after(state: ForwardModel, event: EventModel) -> (ForwardModel, ActionModel) {
    match (state.phase, event) {
        (DynamicPhase::Greeting, EventModel::Received(bytes)) => after_greeting(
            state.seen + bytes,
        ),
        (DynamicPhase::MethodReply, EventModel::Sent) => after_request(Seq::empty()),
        (DynamicPhase::Request, EventModel::Received(bytes)) => after_request(state.seen + bytes),
        (DynamicPhase::Request, EventModel::Failed) => answered(ReplyCode::GeneralFailure),
        (DynamicPhase::Opening, EventModel::Opened) => (
            at(DynamicPhase::SuccessReply),
            ActionModel::Write(socks5::plain_reply(ReplyCode::Succeeded)),
        ),
        (DynamicPhase::Opening, EventModel::Failed) => answered(ReplyCode::HostUnreachable),
        (DynamicPhase::SuccessReply, EventModel::Sent) => (
            at(DynamicPhase::Over),
            ActionModel::Pump,
        ),
        _ => (at(DynamicPhase::Over), ActionModel::Close),
    }
}

/// One connection to a dynamic forward.
pub struct DynamicForward {
    phase: DynamicPhase,
    seen: Vec<u8>,
}

impl View for DynamicForward {
    type V = ForwardModel;

    closed spec fn view(&self) -> ForwardModel {
        ForwardModel { phase: self.phase, seen: self.seen@ }
    }
}

impl DynamicForward {
    /// A conversation that has just begun, with its first action.
    pub fn begin() -> (r: (DynamicForward, DynamicAction))
        ensures
            r.0@ == at(DynamicPhase::Greeting),
            r.1@ == ActionModel::Read(2),
    {
        let seen: Vec<u8> = Vec::new();
        assert(seen@ =~= Seq::empty());
        (DynamicForward { phase: DynamicPhase::Greeting, seen }, DynamicAction::Read(2))
    }

    /// How far the conversation has come.
    pub fn phase(&self) -> (r: DynamicPhase)
        ensures
            r == self@.phase,
    {
        self.phase
    }

    fn turn(&mut self, phase: DynamicPhase)
        ensures
            final(self)@ == at(phase),
    {
        self.phase = phase;
        self.seen = Vec::new();
        assert(self.seen@ =~= Seq::empty());
    }

    fn answer(&mut self, code: ReplyCode) -> (r: DynamicAction)
        ensures
            (final(self)@, r@) == answered(code),
    {
        self.turn(DynamicPhase::Over);
        DynamicAction::WriteAndClose(write_reply(code))
    }

    fn greeting_action(&mut self) -> (r: DynamicAction)
        requires
            old(self)@.phase == DynamicPhase::Greeting,
        ensures
            (final(self)@, r@) == after_greeting(old(self)@.seen),
    {
        match negotiate_method(self.seen.as_slice()) {
            NegotiateStep::Read(n) => DynamicAction::Read(n),
            NegotiateStep::Accept { reply } => {
                self.turn(DynamicPhase::MethodReply);
                let bytes: Vec<u8> = vec![reply[0], reply[1]];
                assert(bytes@ =~= reply@);
                DynamicAction::Write(bytes)
            },
            NegotiateStep::Reject { answer, error: _ } => {
                self.turn(DynamicPhase::Over);
                match answer {
                    Some(reply) => {
                        let bytes: Vec<u8> = vec![reply[0], reply[1]];
                        assert(bytes@ =~= reply@);
                        DynamicAction::WriteAndClose(bytes)
                    },
                    None => DynamicAction::Close,
                }
            },
        }
    }

    fn request_action(&mut self) -> (r: DynamicAction)
        requires
            old(self)@.phase == DynamicPhase::Request,
        ensures
            (final(self)@, r@) == after_request(old(self)@.seen),
    {
        match read_request(self.seen.as_slice()) {
            RequestStep::Read(n) => DynamicAction::Read(n),
            RequestStep::Done(request) => {
                self.turn(DynamicPhase::Opening);
                DynamicAction::Open { host: request.host(), port: request.port }
            },
            RequestStep::Reject(error) => self.answer(error.reply_code()),
        }
    }

    /// Takes in what came of the last action, and names the next one.
    pub fn advance(&mut self, event: DynamicEvent) -> (r: DynamicAction)
        ensures
            (final(self)@, r@) == after(old(self)@, event@),
    {
        match (self.phase, event) {
            (DynamicPhase::Greeting, DynamicEvent::Received(bytes)) => {
                self.seen.extend_from_slice(bytes.as_slice());
                assert(self@.seen =~= old(self)@.seen + bytes@);
                self.greeting_action()
            },
            (DynamicPhase::MethodReply, DynamicEvent::Sent) => {
                self.turn(DynamicPhase::Request);
                self.request_action()
            },
            (DynamicPhase::Request, DynamicEvent::Received(bytes)) => {
                self.seen.extend_from_slice(bytes.as_slice());
                assert(self@.seen =~= old(self)@.seen + bytes@);
                self.request_action()
            },
            (DynamicPhase::Request, DynamicEvent::Failed) => self.answer(
                ReplyCode::GeneralFailure,
            ),
            (DynamicPhase::Opening, DynamicEvent::Opened) => {
                self.turn(DynamicPhase::SuccessReply);
                DynamicAction::Write(write_reply(ReplyCode::Succeeded))
            },
            (DynamicPhase::Opening, DynamicEvent::Failed) => self.answer(
                ReplyCode::HostUnreachable,
            ),
            (DynamicPhase::SuccessReply, DynamicEvent::Sent) => {
                self.turn(DynamicPhase::Over);
                DynamicAction::Pump
            },
            _ => {
                self.turn(DynamicPhase::Over);
                DynamicAction::Close
            },
        }
    }
}

// ---------------------------------------------------------------------------
// Laws
// ---------------------------------------------------------------------------

/// The bytes that an action sends, if it sends any.
pub open spec fn sent_by(action: ActionModel) -> Option<Seq<u8>> {
    match action {
        ActionModel::Write(bytes) => Some(bytes),
        ActionModel::WriteAndClose(bytes) => Some(bytes),
        _ => None,
    }
}

proof fn lemma_reply_code_of(code: ReplyCode)
    ensures
        socks5::plain_reply(code).len() == 10,
        socks5::plain_reply(code)[1] == code.wire(),
{
}

/// The success reply is sent only when the destination has just been opened.
pub proof fn law_success_reply_follows_open(state: ForwardModel, event: EventModel)
    requires
        sent_by(after(state, event).1) == Some(socks5::plain_reply(ReplyCode::Succeeded)),
    ensures
        state.phase == DynamicPhase::Opening,
        event is Opened,
{
    lemma_reply_code_of(ReplyCode::Succeeded);
    lemma_reply_code_of(ReplyCode::GeneralFailure);
    lemma_reply_code_of(ReplyCode::HostUnreachable);
    lemma_reply_code_of(ReplyCode::CommandNotSupported);
    lemma_reply_code_of(ReplyCode::AddressTypeNotSupported);
}

/// Bytes are forwarded only when the success reply has gone out, and that phase
/// is entered only by opening the destination.
pub proof fn law_pump_follows_success_reply(state: ForwardModel, event: EventModel)
    ensures
        after(state, event).1 is Pump ==> state.phase == DynamicPhase::SuccessReply
            && event is Sent,
        after(state, event).0.phase == DynamicPhase::SuccessReply ==> state.phase
            == DynamicPhase::Opening && event is Opened,
{
}

/// Once the method is agreed, the connection is never dropped without an answer
/// because of what the client asked or because the destination cannot be
/// opened: the conversation goes on, or ends with a reply whose code says that
/// it failed.
pub proof fn law_refused_request_is_answered(state: ForwardModel, event: EventModel)
    requires
        ({
            ||| state.phase == DynamicPhase::Request && (event is Received || event is Failed)
            ||| state.phase == DynamicPhase::Opening && (event is Opened || event is Failed)
        }),
    ensures
        after(state, event).0.phase != DynamicPhase::Over || exists|code: ReplyCode|
            code != ReplyCode::Succeeded && after(state, event).1 == ActionModel::WriteAndClose(
                #[trigger] socks5::plain_reply(code),
            ),
{
    let (next, action) = after(state, event);
    if next.phase == DynamicPhase::Over {
        let code = match (state.phase, event) {
            (DynamicPhase::Opening, _) => ReplyCode::HostUnreachable,
            (_, EventModel::Received(bytes)) => match socks5::early_refusal(state.seen + bytes) {
                Some(e) => e.reply(),
                None => socks5::request_of(state.seen + bytes)->Err_0.reply(),
            },
            _ => ReplyCode::GeneralFailure,
        };
        assert(action == ActionModel::WriteAndClose(socks5::plain_reply(code)));
    }
}

/// A client that sends a well-formed request has exactly the destination opened
/// that it asked for.
pub proof fn law_requested_destination_is_opened(request: RequestModel)
    requires
        socks5::encodable(request),
    ensures
        after(
            at(DynamicPhase::Request),
            EventModel::Received(socks5::request_bytes(request)),
        ) == (
            at(DynamicPhase::Opening),
            ActionModel::Open { host: socks5::host_text(request.addr), port: request.port },
        ),
{
    let bytes = socks5::request_bytes(request);
    assert(Seq::<u8>::empty() + bytes =~= bytes);
    assert(bytes + Seq::<u8>::empty() =~= bytes);
    socks5::law_request_round_trip(request, Seq::empty());
}

/// However a client fills its messages, no read asks for nothing, and none for
/// more than the longest message takes.
pub proof fn law_reads_are_bounded(state: ForwardModel, event: EventModel)
    ensures
        after(state, event).1 matches ActionModel::Read(n) ==> 0 < n <= socks5::MAX_REQUEST_LEN,
{
    if let EventModel::Received(bytes) = event {
        socks5::law_request_reads_are_bounded(state.seen + bytes);
    }
    socks5::law_request_reads_are_bounded(Seq::empty());
}

/// How much of the conversation is left at most.
pub open spec fn rank(state: ForwardModel) -> int {
    let phase: int = match state.phase {
        DynamicPhase::Greeting => 5,
        DynamicPhase::MethodReply => 4,
        DynamicPhase::Request => 3,
        DynamicPhase::Opening => 2,
        DynamicPhase::SuccessReply => 1,
        DynamicPhase::Over => 0,
    };
    phase * 301 + if state.seen.len() < 300 {
        300 - state.seen.len()
    } else {
        0
    }
}

/// Every conversation comes to an end: each event that brings something brings
/// it closer.
pub proof fn law_conversation_ends(state: ForwardModel, event: EventModel)
    requires
        state.phase != DynamicPhase::Over,
        event matches EventModel::Received(bytes) ==> bytes.len() > 0,
    ensures
        0 <= rank(after(state, event).0) < rank(state),
{
    if let EventModel::Received(bytes) = event {
        socks5::law_request_reads_are_bounded(state.seen + bytes);
    }
}

/// A complete greeting is answered `05 00` and the conversation goes on where NO
/// AUTH is among its methods, and `05 FF` and the end where it is not. A client
/// that does not speak SOCKS5 gets no answer.
pub proof fn law_greeting_is_answered(greeting: Seq<u8>)
    requires
        greeting.len() >= 2,
        greeting.len() == 2 + greeting[1],
    ensures
        ({
            let (next, action) = after(at(DynamicPhase::Greeting), EventModel::Received(greeting));
            if greeting[0] != 5 {
                next.phase == DynamicPhase::Over && action == ActionModel::Close
            } else if exists|k: int| 2 <= k < 2 + greeting[1] && #[trigger] greeting[k] == 0 {
                next.phase == DynamicPhase::MethodReply && action == ActionModel::Write(
                    seq![5u8, 0u8],
                )
            } else {
                next.phase == DynamicPhase::Over && action == ActionModel::WriteAndClose(
                    seq![5u8, 255u8],
                )
            }
        }),
{
    assert(Seq::<u8>::empty() + greeting =~= greeting);
    if greeting[0] == 5 {
        socks5::law_no_auth_is_chosen_wherever_offered(greeting);
    }
}

/// It does not matter in how many pieces a message arrives: what is decided is
/// decided on all that has been read of it.
pub proof fn law_pieces_of_a_message_join(state: ForwardModel, a: Seq<u8>, b: Seq<u8>)
    requires
        state.phase == DynamicPhase::Greeting || state.phase == DynamicPhase::Request,
        after(state, EventModel::Received(a)).0.phase == state.phase,
    ensures
        after(after(state, EventModel::Received(a)).0, EventModel::Received(b)) == after(
            state,
            EventModel::Received(a + b),
        ),
{
    assert(state.seen + a + b =~= state.seen + (a + b));
}

/// Once the method reply is out, the four bytes of a request header are read.
pub proof fn law_request_follows_method_reply(state: ForwardModel)
    requires
        state.phase == DynamicPhase::MethodReply,
    ensures
        after(state, EventModel::Sent) == (at(DynamicPhase::Request), ActionModel::Read(4)),
        at(DynamicPhase::Request).seen.len() == 0,
{
}

/// A client that asks for an IPv4 address has exactly that address and port
/// opened.
pub proof fn law_ipv4_destination_is_opened(buf: Seq<u8>)
    requires
        buf.len() == 10,
        buf[0] == 5,
        buf[1] == 1,
        buf[3] == 1,
    ensures
        after(at(DynamicPhase::Request), EventModel::Received(buf)).0.phase
            == DynamicPhase::Opening,
        after(at(DynamicPhase::Request), EventModel::Received(buf)).1 matches ActionModel::Open {
            host,
            port,
        } && host == socks5::host_text(
            socks5::AddrModel::V4(seq![buf[4], buf[5], buf[6], buf[7]]),
        ) && port == buf[8] * 256 + buf[9],
{
    assert(Seq::<u8>::empty() + buf =~= buf);
    socks5::law_ipv4_request_by_bytes(buf);
    socks5::law_requests_are_refused_as_soon_as_they_can_be(buf);
    socks5::law_announced_lengths(buf);
}

/// A client that asks for a name has exactly that name and port opened.
pub proof fn law_named_destination_is_opened(buf: Seq<u8>, name: Seq<char>)
    requires
        buf.len() >= 5,
        buf[0] == 5,
        buf[1] == 1,
        buf[3] == 3,
        buf[4] > 0,
        buf.len() == 7 + buf[4],
        vstd::utf8::encode_utf8(name) == buf.subrange(5, 5 + buf[4]),
    ensures
        after(at(DynamicPhase::Request), EventModel::Received(buf)).0.phase
            == DynamicPhase::Opening,
        after(at(DynamicPhase::Request), EventModel::Received(buf)).1 matches ActionModel::Open {
            host,
            port,
        } && host == name && port == buf[5 + buf[4]] * 256 + buf[6 + buf[4]],
{
    assert(Seq::<u8>::empty() + buf =~= buf);
    vstd::utf8::encode_utf8_valid_utf8(name);
    vstd::utf8::encode_utf8_decode_utf8(name);
    socks5::law_domain_request_by_bytes(buf);
    socks5::law_requests_are_refused_as_soon_as_they_can_be(buf);
    socks5::law_announced_lengths(buf);
    let got = socks5::request_of(buf)->Ok_0.addr->Domain_0;
    vstd::utf8::encode_utf8_decode_utf8(got);
}

/// Every failure of a request is answered with the code that says what was
/// wrong, and a destination that is open with success.
pub proof fn law_answers_on_the_wire(state: ForwardModel, buf: Seq<u8>)
    ensures
        state.phase == DynamicPhase::Opening ==> after(state, EventModel::Opened).1
            == ActionModel::Write(seq![5u8, 0, 0, 1, 0, 0, 0, 0, 0, 0]),
        state.phase == DynamicPhase::Opening ==> after(state, EventModel::Failed).1
            == ActionModel::WriteAndClose(seq![5u8, 4, 0, 1, 0, 0, 0, 0, 0, 0]),
        state.phase == DynamicPhase::Request ==> after(state, EventModel::Failed).1
            == ActionModel::WriteAndClose(seq![5u8, 1, 0, 1, 0, 0, 0, 0, 0, 0]),
        buf.len() >= 4 && buf[0] != 5 ==> after(
            at(DynamicPhase::Request),
            EventModel::Received(buf),
        ).1 == ActionModel::WriteAndClose(seq![5u8, 1, 0, 1, 0, 0, 0, 0, 0, 0]),
        buf.len() >= 4 && buf[0] == 5 && buf[1] != 1 ==> after(
            at(DynamicPhase::Request),
            EventModel::Received(buf),
        ).1 == ActionModel::WriteAndClose(seq![5u8, 7, 0, 1, 0, 0, 0, 0, 0, 0]),
        buf.len() >= 4 && buf[0] == 5 && buf[1] == 1 && buf[3] != 1 && buf[3] != 3 && buf[3] != 4
            ==> after(at(DynamicPhase::Request), EventModel::Received(buf)).1
            == ActionModel::WriteAndClose(seq![5u8, 8, 0, 1, 0, 0, 0, 0, 0, 0]),
        state.phase == DynamicPhase::SuccessReply ==> after(state, EventModel::Sent).1
            == ActionModel::Pump,
{
    assert(Seq::<u8>::empty() + buf =~= buf);
    socks5::law_requests_are_refused_as_soon_as_they_can_be(buf);
}

/// A client that stops talking or cannot be written to is dropped: outside the
/// request and the opening, a failure closes the connection.
pub proof fn law_failed_client_is_dropped(state: ForwardModel)
    requires
        state.phase != DynamicPhase::Request,
        state.phase != DynamicPhase::Opening,
    ensures
        after(state, EventModel::Failed) == (at(DynamicPhase::Over), ActionModel::Close),
{
}

/// A message that is not complete yet is read on: what is missing of its fixed
/// part first, and then exactly what its own bytes announce.
pub proof fn law_incomplete_messages_are_read_on(seen: Seq<u8>, bytes: Seq<u8>)
    requires
        bytes.len() > 0,
    ensures
        ({
            let all = seen + bytes;
            let (next, action) = after(
                ForwardModel { phase: DynamicPhase::Greeting, seen },
                EventModel::Received(bytes),
            );
            &&& all.len() < 2 ==> action == ActionModel::Read(2 - all.len()) && next == (
            ForwardModel { phase: DynamicPhase::Greeting, seen: all })
            &&& all.len() >= 2 && all[0] == 5 && all.len() < 2 + all[1] ==> action
                == ActionModel::Read(2 + all[1] - all.len()) && next == (ForwardModel {
                phase: DynamicPhase::Greeting,
                seen: all,
            })
        }),
        ({
            let all = seen + bytes;
            let (next, action) = after(
                ForwardModel { phase: DynamicPhase::Request, seen },
                EventModel::Received(bytes),
            );
            let on = ForwardModel { phase: DynamicPhase::Request, seen: all };
            &&& all.len() < 4 ==> action == ActionModel::Read(4 - all.len()) && next == on
            &&& all.len() >= 4 && all[0] == 5 && all[1] == 1 ==> {
                &&& all[3] == 1 && all.len() < 10 ==> action == ActionModel::Read(10 - all.len())
                    && next == on
                &&& all[3] == 4 && all.len() < 22 ==> action == ActionModel::Read(22 - all.len())
                    && next == on
                &&& all[3] == 3 && all.len() == 4 ==> action == ActionModel::Read(1) && next == on
                &&& all[3] == 3 && all.len() > 4 && all[4] > 0 && all.len() < 7 + all[4] ==> action
                    == ActionModel::Read(7 + all[4] - all.len()) && next == on
            }
        }),
{
}

/// A client that asks for an IPv6 address has exactly that address and port
/// opened.
pub proof fn law_ipv6_destination_is_opened(buf: Seq<u8>)
    requires
        buf.len() == 22,
        buf[0] == 5,
        buf[1] == 1,
        buf[3] == 4,
    ensures
        after(at(DynamicPhase::Request), EventModel::Received(buf)).0.phase
            == DynamicPhase::Opening,
        after(at(DynamicPhase::Request), EventModel::Received(buf)).1 matches ActionModel::Open {
            host,
            port,
        } && host == socks5::host_text(socks5::AddrModel::V6(buf.subrange(4, 20))) && port == buf[20]
            * 256 + buf[21],
{
    assert(Seq::<u8>::empty() + buf =~= buf);
    socks5::law_ipv6_request_by_bytes(buf);
    socks5::law_requests_are_refused_as_soon_as_they_can_be(buf);
    socks5::law_announced_lengths(buf);
}

/// A name that is empty or no text is answered with a general failure.
pub proof fn law_bad_name_is_answered(buf: Seq<u8>)
    requires
        buf.len() >= 5,
        buf[0] == 5,
        buf[1] == 1,
        buf[3] == 3,
        buf[4] == 0 || (buf.len() == 7 + buf[4] && !vstd::utf8::valid_utf8(
            buf.subrange(5, 5 + buf[4]),
        )),
    ensures
        after(at(DynamicPhase::Request), EventModel::Received(buf)) == (
            at(DynamicPhase::Over),
            ActionModel::WriteAndClose(seq![5u8, 1, 0, 1, 0, 0, 0, 0, 0, 0]),
        ),
{
    assert(Seq::<u8>::empty() + buf =~= buf);
    socks5::law_domain_request_by_bytes(buf);
    socks5::law_requests_are_refused_as_soon_as_they_can_be(buf);
    socks5::law_announced_lengths(buf);
    if buf[4] != 0 {
        if let Ok(request) = socks5::request_of(buf) {
            vstd::utf8::encode_utf8_valid_utf8(request.addr->Domain_0);
        }
        let e = socks5::request_of(buf)->Err_0;
        assert(e == socks5::Socks5Error::Malformed("domain name is not valid UTF-8"));
        assert(e.reply() == ReplyCode::GeneralFailure);
    }
    assert(socks5::plain_reply(ReplyCode::GeneralFailure) =~= seq![5u8, 1, 0, 1, 0, 0, 0, 0, 0, 0]);
}

/// What nobody asked for ends the conversation, and once it is over nothing more
/// is done.
pub proof fn law_stray_events_close(state: ForwardModel, bytes: Seq<u8>)
    ensures
        state.phase == DynamicPhase::Over ==> forall|event: EventModel| #[trigger]
            after(state, event) == (at(DynamicPhase::Over), ActionModel::Close),
        state.phase == DynamicPhase::Opening || state.phase == DynamicPhase::MethodReply
            || state.phase == DynamicPhase::SuccessReply ==> after(
            state,
            EventModel::Received(bytes),
        ) == (at(DynamicPhase::Over), ActionModel::Close),
        at(DynamicPhase::Over).phase == DynamicPhase::Over,
{
}

} // verus!
