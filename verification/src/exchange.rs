//! One exchange with the modem, as a state machine that does no I/O. The
//! machine says which request to send next; whoever drives it sends the
//! request and reports the status line, then the body if the machine asks for
//! it. A read or a write that finds the session gone renews it once, and once
//! only.

use crate::error::{Error, ErrorView};
use crate::forwards::{fields_view, push_field, Fields};
use crate::functions::LOGIN;
use crate::session::{header_view, lookup_view};
use crate::text::{chars_of, decimal, decimal_string, occurs_at, occurs_at_index, same_text};
use reqwest::header::ToStrError;
use vstd::prelude::*;
use vstd::string::*;

verus! {

/// Where a 'Location' header points when the modem refuses a login because
/// somebody else is logged in.
pub const ACCESS_DENIED_PAGE: &'static str = "../common_page/Access-denied.html";

/// The answer to a login with a wrong password.
pub const LOGIN_INCORRECT: &'static str = "idloginincorrect";

/// What the answer to a good login starts with; the session id follows.
pub const LOGIN_SUCCESSFUL: &'static str = "successful;SID=";

/// The places on the modem that the client talks to.
#[derive(Clone, Copy, Debug, PartialEq, Eq, Structural)]
pub enum Endpoint {
    /// The login page; fetching it makes the modem set its anti-forgery
    /// cookie.
    LoginPage,
    /// Where reads are posted; it answers in XML.
    Getter,
    /// Where writes, logins and logouts are posted; it answers in plain text.
    Setter,
}

/// A request for the driver to send: a POST of the form, or a GET where
/// there is none.
#[derive(Debug)]
pub struct Request {
    pub endpoint: Endpoint,
    pub form: Option<Vec<(String, String)>>,
}

/// A [`Request`] with its texts as sequences of characters.
pub struct RequestView {
    pub endpoint: Endpoint,
    pub form: Option<Fields>,
}

impl View for Request {
    type V = RequestView;

    open spec fn view(&self) -> RequestView {
        RequestView {
            endpoint: self.endpoint,
            form: match self.form {
                None => None,
                Some(fields) => Some(fields_view(fields@)),
            },
        }
    }
}

/// What a caller wants of the modem once a session is open.
#[derive(Debug)]
pub enum Call {
    /// Read what the function reports.
    Read { function: u32 },
    /// Hand the fields to the function. A strict write takes any answer but
    /// the empty one as the modem's refusal.
    Write { function: u32, fields: Vec<(String, String)>, strict: bool },
}

/// A [`Call`] with its texts as sequences of characters.
pub enum CallView {
    /// A read of what the function reports.
    Read(u32),
    /// A write to the function: its number, the fields, and whether it is
    /// strict.
    Write(u32, Fields, bool),
}

impl View for Call {
    type V = CallView;

    open spec fn view(&self) -> CallView {
        match *self {
            Call::Read { function } => CallView::Read(function),
            Call::Write { function, fields, strict } => CallView::Write(
                function,
                fields_view(fields@),
                strict,
            ),
        }
    }
}

/// A request is out, and its status line is awaited.
#[derive(Debug)]
pub enum Pending {
    /// The login page was asked for.
    LoginPage,
    /// The password was posted, by a login that the caller asked for.
    Login,
    /// The call's own request was posted; `renewed` tells whether the session
    /// was renewed for this call before.
    Call { call: Call, renewed: bool },
    /// The password was posted to renew the session for `call`.
    Renewal { call: Call },
}

/// A [`Pending`] with its texts as sequences of characters.
pub enum PendingView {
    LoginPage,
    Login,
    /// The call, and whether the session was renewed for it before.
    Call(CallView, bool),
    Renewal(CallView),
}

impl View for Pending {
    type V = PendingView;

    open spec fn view(&self) -> PendingView {
        match *self {
            Pending::LoginPage => PendingView::LoginPage,
            Pending::Login => PendingView::Login,
            Pending::Call { call, renewed } => PendingView::Call(call@, renewed),
            Pending::Renewal { call } => PendingView::Renewal(call@),
        }
    }
}

/// A status line was accepted, and the body of the answer is awaited.
#[derive(Debug)]
pub enum Reading {
    /// The answer to a login that the caller asked for.
    Login,
    /// The answer to a login that renews the session for `call`.
    Renewal { call: Call },
    /// The answer to the call's own request.
    Call { call: Call },
}

/// A [`Reading`] with its texts as sequences of characters.
pub enum ReadingView {
    Login,
    Renewal(CallView),
    Call(CallView),
}

impl View for Reading {
    type V = ReadingView;

    open spec fn view(&self) -> ReadingView {
        match *self {
            Reading::Login => ReadingView::Login,
            Reading::Renewal { call } => ReadingView::Renewal(call@),
            Reading::Call { call } => ReadingView::Call(call@),
        }
    }
}

/// What a finished exchange hands back.
#[derive(Debug)]
pub enum Reply {
    /// The modem did as it was told.
    Done,
    /// The document that a read brought.
    Document(String),
}

/// A [`Reply`] with its text as a sequence of characters.
pub enum ReplyView {
    Done,
    Document(Seq<char>),
}

impl View for Reply {
    type V = ReplyView;

    open spec fn view(&self) -> ReplyView {
        match *self {
            Reply::Done => ReplyView::Done,
            Reply::Document(body) => ReplyView::Document(body@),
        }
    }
}

/// What the driver does next.
#[derive(Debug)]
pub enum Action {
    /// Send the request, then report the status line of the answer.
    Send(Request, Pending),
    /// Read the body of the answer at hand, then report it.
    ReadBody(Reading),
    /// Stop: the exchange is over, with this outcome.
    Finish(Result<Reply, Error>),
}

/// An [`Action`] with its texts as sequences of characters.
pub enum ActionView {
    Send(RequestView, PendingView),
    ReadBody(ReadingView),
    Finish(Result<ReplyView, ErrorView>),
}

impl View for Action {
    type V = ActionView;

    open spec fn view(&self) -> ActionView {
        match *self {
            Action::Send(request, pending) => ActionView::Send(request@, pending@),
            Action::ReadBody(reading) => ActionView::ReadBody(reading@),
            Action::Finish(Ok(reply)) => ActionView::Finish(Ok(reply@)),
            Action::Finish(Err(e)) => ActionView::Finish(Err(e@)),
        }
    }
}

/// Whether a status code is of the redirection class. The modem answers
/// every request with one of these once the session is gone.
pub open spec fn redirects(status: u16) -> bool {
    300 <= status < 400
}

/// Whether a status code is of the redirection class.
pub fn is_redirection(status: u16) -> (r: bool)
    ensures
        r == redirects(status),
{
    300 <= status && status < 400
}

/// The anti-forgery token that a lookup of its cookie brought: a failed
/// lookup fails the exchange as it is, and a missing cookie fails it too.
pub open spec fn token_of(lookup: Result<Option<Seq<char>>, ErrorView>) -> Result<
    Seq<char>,
    ErrorView,
> {
    match lookup {
        Ok(Some(token)) => Ok(token),
        Ok(None) => Err(ErrorView::NoSessionToken),
        Err(e) => Err(e),
    }
}

/// The fields that every form starts with: the token, then the function.
pub open spec fn form_head(token: Seq<char>, function: u32) -> Fields {
    seq![("token"@, token), ("fun"@, decimal(function as nat))]
}

/// The request that carries out `call` under the token `token`.
pub open spec fn call_request(call: CallView, token: Seq<char>) -> RequestView {
    match call {
        CallView::Read(function) => RequestView {
            endpoint: Endpoint::Getter,
            form: Some(form_head(token, function)),
        },
        CallView::Write(function, fields, strict) => RequestView {
            endpoint: Endpoint::Setter,
            form: Some(form_head(token, function) + fields),
        },
    }
}

/// The request that logs in with the password `code` under the token
/// `token`. The modem knows no user names; the field is there all the same.
pub open spec fn login_request(token: Seq<char>, code: Seq<char>) -> RequestView {
    RequestView {
        endpoint: Endpoint::Setter,
        form: Some(form_head(token, LOGIN) + seq![("Username"@, "NULL"@), ("Password"@, code)]),
    }
}

/// Sending the request of `call`, if the token is at hand.
pub open spec fn send_call(
    call: CallView,
    renewed: bool,
    lookup: Result<Option<Seq<char>>, ErrorView>,
) -> ActionView {
    match token_of(lookup) {
        Err(e) => ActionView::Finish(Err(e)),
        Ok(token) => ActionView::Send(
            call_request(call, token),
            PendingView::Call(call, renewed),
        ),
    }
}

/// Sending the password, if the token is at hand; `next` is the state that
/// awaits the answer.
pub open spec fn send_login(
    next: PendingView,
    lookup: Result<Option<Seq<char>>, ErrorView>,
    code: Seq<char>,
) -> ActionView {
    match token_of(lookup) {
        Err(e) => ActionView::Finish(Err(e)),
        Ok(token) => ActionView::Send(login_request(token, code), next),
    }
}

/// What the status line of a login's answer means. A redirection that names
/// its target is a refusal: to the access-denied page where somebody else is
/// logged in, anywhere else for reasons unknown. Every other answer is read.
pub open spec fn after_login_head(
    reading: ReadingView,
    status: u16,
    location: Option<Result<Seq<char>, ToStrError>>,
) -> ActionView {
    if redirects(status) && location is Some {
        match location->Some_0 {
            Err(e) => ActionView::Finish(Err(ErrorView::InvalidHeaderValue(e))),
            Ok(target) => if target == ACCESS_DENIED_PAGE@ {
                ActionView::Finish(Err(ErrorView::AccessDenied))
            } else {
                ActionView::Finish(Err(ErrorView::UnexpectedRedirect(target)))
            },
        }
    } else {
        ActionView::ReadBody(reading)
    }
}

/// What follows the status line of an answer. `location` is the answer's
/// 'Location' header, `lookup` what the session store holds for the token
/// now, `code` the password, `auto_reauth` whether the client may renew its
/// session.
///
/// A redirection in answer to a call means that the session is gone. If the
/// client may renew it and has not done so for this call, it logs in again;
/// if not, the call fails.
pub open spec fn after_head(
    pending: PendingView,
    status: u16,
    location: Option<Result<Seq<char>, ToStrError>>,
    lookup: Result<Option<Seq<char>>, ErrorView>,
    code: Seq<char>,
    auto_reauth: bool,
) -> ActionView {
    match pending {
        PendingView::LoginPage => send_login(PendingView::Login, lookup, code),
        PendingView::Login => after_login_head(ReadingView::Login, status, location),
        PendingView::Renewal(call) => after_login_head(
            ReadingView::Renewal(call),
            status,
            location,
        ),
        PendingView::Call(call, renewed) => if redirects(status) {
            if auto_reauth && !renewed {
                send_login(PendingView::Renewal(call), lookup, code)
            } else {
                ActionView::Finish(Err(ErrorView::NotAuthorized))
            }
        } else {
            ActionView::ReadBody(ReadingView::Call(call))
        },
    }
}

/// The session id that the answer to a login carries, or why there is none.
pub open spec fn login_reply(body: Seq<char>) -> Result<Seq<char>, ErrorView> {
    if body == LOGIN_INCORRECT@ {
        Err(ErrorView::IncorrectPassword)
    } else if occurs_at(body, LOGIN_SUCCESSFUL@, 0) {
        Ok(body.subrange(LOGIN_SUCCESSFUL@.len() as int, body.len() as int))
    } else {
        Err(ErrorView::UnexpectedResponse(body))
    }
}

/// The outcome of `call`, given the body of the modem's answer.
pub open spec fn call_reply(call: CallView, body: Seq<char>) -> Result<ReplyView, ErrorView> {
    match call {
        CallView::Read(function) => Ok(ReplyView::Document(body)),
        CallView::Write(function, fields, strict) => if strict && body.len() > 0 {
            Err(ErrorView::Remote(body))
        } else {
            Ok(ReplyView::Done)
        },
    }
}

/// What follows the body of an answer, once the session id of a good login
/// is stored; `lookup` is what the session store holds for the token after
/// that.
pub open spec fn after_body(
    reading: ReadingView,
    body: Seq<char>,
    lookup: Result<Option<Seq<char>>, ErrorView>,
) -> ActionView {
    match reading {
        ReadingView::Login => match login_reply(body) {
            Err(e) => ActionView::Finish(Err(e)),
            Ok(sid) => ActionView::Finish(Ok(ReplyView::Done)),
        },
        ReadingView::Renewal(call) => match login_reply(body) {
            Err(e) => ActionView::Finish(Err(e)),
            Ok(sid) => send_call(call, true, lookup),
        },
        ReadingView::Call(call) => ActionView::Finish(call_reply(call, body)),
    }
}

/// Starts a form: the token, then the function.
fn start_form(token: &str, function: u32) -> (form: Vec<(String, String)>)
    ensures
        fields_view(form@) == form_head(token@, function),
{
    let mut form: Vec<(String, String)> = Vec::new();
    assert(fields_view(form@) =~= Seq::<(Seq<char>, Seq<char>)>::empty());
    let number = decimal_string(function as u64);
    push_field(&mut form, "token", token);
    push_field(&mut form, "fun", number.as_str());
    assert(fields_view(form@) =~= form_head(token@, function));
    form
}

/// Lays out the request that carries out `call` under the token `token`.
pub fn request_for(call: &Call, token: &str) -> (request: Request)
    ensures
        request@ == call_request(call@, token@),
{
    match call {
        Call::Read { function } => Request {
            endpoint: Endpoint::Getter,
            form: Some(start_form(token, *function)),
        },
        Call::Write { function, fields, strict } => {
            let mut form = start_form(token, *function);
            let mut i: usize = 0;
            while i < fields.len()
                invariant
                    i <= fields.len(),
                    fields_view(form@) == form_head(token@, *function) + fields_view(
                        fields@,
                    ).take(i as int),
                decreases fields.len() - i,
            {
                push_field(&mut form, fields[i].0.as_str(), fields[i].1.as_str());
                assert(fields_view(fields@).take(i + 1) =~= fields_view(fields@).take(
                    i as int,
                ).push((fields@[i as int].0@, fields@[i as int].1@)));
                assert(fields_view(form@) =~= form_head(token@, *function) + fields_view(
                    fields@,
                ).take(i + 1));
                i += 1;
            }
            assert(fields_view(fields@).take(fields.len() as int) =~= fields_view(fields@));
            Request { endpoint: Endpoint::Setter, form: Some(form) }
        },
    }
}

/// Lays out the request that logs in with the password `code`.
pub fn login_request_for(token: &str, code: &str) -> (request: Request)
    ensures
        request@ == login_request(token@, code@),
{
    let mut form = start_form(token, LOGIN);
    push_field(&mut form, "Username", "NULL");
    push_field(&mut form, "Password", code);
    assert(fields_view(form@) =~= form_head(token@, LOGIN) + seq![
        ("Username"@, "NULL"@),
        ("Password"@, code@),
    ]);
    Request { endpoint: Endpoint::Setter, form: Some(form) }
}

/// Sends the request of `call`, if the lookup brought the token.
pub fn start_call(call: Call, renewed: bool, lookup: Result<Option<String>, Error>) -> (action:
    Action)
    ensures
        action@ == send_call(call@, renewed, lookup_view(lookup)),
{
    match lookup {
        Err(e) => Action::Finish(Err(e)),
        Ok(None) => Action::Finish(Err(Error::NoSessionToken)),
        Ok(Some(token)) => {
            let request = request_for(&call, token.as_str());
            Action::Send(request, Pending::Call { call, renewed })
        },
    }
}

/// Sends the password, if the lookup brought the token.
pub fn start_login(next: Pending, lookup: Result<Option<String>, Error>, code: &str) -> (action:
    Action)
    ensures
        action@ == send_login(next@, lookup_view(lookup), code@),
{
    match lookup {
        Err(e) => Action::Finish(Err(e)),
        Ok(None) => Action::Finish(Err(Error::NoSessionToken)),
        Ok(Some(token)) => Action::Send(login_request_for(token.as_str(), code), next),
    }
}

/// Judges the status line of a login's answer.
pub fn login_head_action(
    reading: Reading,
    status: u16,
    location: Option<Result<String, ToStrError>>,
) -> (action: Action)
    ensures
        action@ == after_login_head(reading@, status, header_view(location)),
{
    if is_redirection(status) {
        match location {
            Some(Err(e)) => {
                return Action::Finish(Err(Error::InvalidHeaderValue(e)));
            },
            Some(Ok(target)) => {
                if same_text(target.as_str(), ACCESS_DENIED_PAGE) {
                    return Action::Finish(Err(Error::AccessDenied));
                }
                return Action::Finish(Err(Error::UnexpectedRedirect(target)));
            },
            None => {},
        }
    }
    Action::ReadBody(reading)
}

/// Decides what follows the status line of an answer.
pub fn head_action(
    pending: Pending,
    status: u16,
    location: Option<Result<String, ToStrError>>,
    lookup: Result<Option<String>, Error>,
    code: &str,
    auto_reauth: bool,
) -> (action: Action)
    ensures
        action@ == after_head(
            pending@,
            status,
            header_view(location),
            lookup_view(lookup),
            code@,
            auto_reauth,
        ),
{
    match pending {
        Pending::LoginPage => start_login(Pending::Login, lookup, code),
        Pending::Login => login_head_action(Reading::Login, status, location),
        Pending::Renewal { call } => login_head_action(Reading::Renewal { call }, status, location),
        Pending::Call { call, renewed } => {
            if is_redirection(status) {
                if auto_reauth && !renewed {
                    start_login(Pending::Renewal { call }, lookup, code)
                } else {
                    Action::Finish(Err(Error::NotAuthorized))
                }
            } else {
                Action::ReadBody(Reading::Call { call })
            }
        },
    }
}

/// Reads the answer to a login: the session id of a good one, or why there
/// is none.
pub fn read_login_reply(body: String) -> (r: Result<String, Error>)
    ensures
        match r {
            Ok(sid) => login_reply(body@) == Ok::<Seq<char>, ErrorView>(sid@),
            Err(e) => login_reply(body@) == Err::<Seq<char>, ErrorView>(e@),
        },
{
    if same_text(body.as_str(), LOGIN_INCORRECT) {
        return Err(Error::IncorrectPassword);
    }
    let text = chars_of(body.as_str());
    let prefix = chars_of(LOGIN_SUCCESSFUL);
    if occurs_at_index(&text, &prefix, 0) {
        let sid = body.as_str().substring_char(prefix.len(), text.len());
        Ok(String::from_str(sid))
    } else {
        Err(Error::UnexpectedResponse(body))
    }
}

/// Reads the answer to the request of `call`.
pub fn read_call_reply(call: &Call, body: String) -> (r: Result<Reply, Error>)
    ensures
        match r {
            Ok(reply) => call_reply(call@, body@) == Ok::<ReplyView, ErrorView>(reply@),
            Err(e) => call_reply(call@, body@) == Err::<ReplyView, ErrorView>(e@),
        },
{
    match call {
        Call::Read { function } => Ok(Reply::Document(body)),
        Call::Write { function, fields, strict } => {
            if *strict && !body.as_str().is_empty() {
                Err(Error::Remote(body))
            } else {
                Ok(Reply::Done)
            }
        },
    }
}

/// What the driver reports to the machine: the status line of an answer with
/// its 'Location' header, or the body of an answer; each with what the
/// session store holds for the token at that time.
pub enum Event {
    Head {
        status: u16,
        location: Option<Result<Seq<char>, ToStrError>>,
        found: Result<Option<Seq<char>>, ErrorView>,
    },
    Body { body: Seq<char>, found: Result<Option<Seq<char>>, ErrorView> },
}

/// The action that follows `action` when the driver reports `event`; none
/// where the event is not what the action asked for.
pub open spec fn step(
    action: ActionView,
    event: Event,
    code: Seq<char>,
    auto_reauth: bool,
) -> Option<ActionView> {
    match (action, event) {
        (ActionView::Send(_, pending), Event::Head { status, location, found }) => Some(
            after_head(pending, status, location, found, code, auto_reauth),
        ),
        (ActionView::ReadBody(reading), Event::Body { body, found }) => Some(
            after_body(reading, body, found),
        ),
        _ => None,
    }
}

/// Whether an action posts the password to renew a session.
pub open spec fn renews_session(action: ActionView) -> bool {
    action matches ActionView::Send(_, PendingView::Renewal(_))
}

/// How often the session is renewed while the driver reports `events`, one
/// after the other, starting at `action`.
pub open spec fn renewals(
    action: ActionView,
    events: Seq<Event>,
    code: Seq<char>,
    auto_reauth: bool,
) -> nat
    decreases events.len(),
{
    if events.len() == 0 {
        0
    } else {
        match step(action, events[0], code, auto_reauth) {
            None => 0,
            Some(next) => {
                let now: nat = if renews_session(next) {
                    1
                } else {
                    0
                };
                now + renewals(next, events.drop_first(), code, auto_reauth)
            },
        }
    }
}

/// How many renewals an action leaves room for: one while the call's own
/// request is out and the session was not renewed for the call, none
/// otherwise.
pub open spec fn renewals_left(action: ActionView, auto_reauth: bool) -> nat {
    match action {
        ActionView::Send(_, PendingView::Call(call, renewed)) => if auto_reauth && !renewed {
            1
        } else {
            0
        },
        _ => 0,
    }
}

/// An exchange renews the session once at most, whatever the modem answers
/// and however long it goes on; a client that may not renew never does. The
/// room that an action leaves is never exceeded.
pub proof fn lemma_renewed_once_at_most(
    action: ActionView,
    events: Seq<Event>,
    code: Seq<char>,
    auto_reauth: bool,
)
    ensures
        renewals(action, events, code, auto_reauth) <= renewals_left(action, auto_reauth),
        renewals(action, events, code, auto_reauth) <= 1,
        !auto_reauth ==> renewals(action, events, code, auto_reauth) == 0,
    decreases events.len(),
{
    if events.len() > 0 {
        match step(action, events[0], code, auto_reauth) {
            None => {},
            Some(next) => {
                lemma_renewed_once_at_most(next, events.drop_first(), code, auto_reauth);
            },
        }
    }
}

/// How a call fares when the modem answers its request with a redirection.
///
/// A client that may renew its session posts the password, under the token
/// that it holds; when the modem accepts it, the call's request goes out
/// again, as it was but for the token, and a plain answer to it ends the call
/// as if the session had never gone. A second redirection ends the call with
/// `NotAuthorized`. A client that may not renew ends the call so at the
/// first.
pub proof fn lemma_expiry(
    call: CallView,
    status: u16,
    location: Option<Result<Seq<char>, ToStrError>>,
    token: Seq<char>,
    code: Seq<char>,
    sid: Seq<char>,
    later_token: Seq<char>,
    body: Seq<char>,
)
    requires
        redirects(status),
    ensures
        after_head(
            PendingView::Call(call, false),
            status,
            location,
            Ok(Some(token)),
            code,
            true,
        ) == ActionView::Send(login_request(token, code), PendingView::Renewal(call)),
        after_head(PendingView::Renewal(call), 200, None, Ok(Some(token)), code, true)
            == ActionView::ReadBody(ReadingView::Renewal(call)),
        after_body(ReadingView::Renewal(call), LOGIN_SUCCESSFUL@ + sid, Ok(Some(later_token)))
            == ActionView::Send(
            call_request(call, later_token),
            PendingView::Call(call, true),
        ),
        after_head(
            PendingView::Call(call, true),
            200,
            None,
            Ok(Some(later_token)),
            code,
            true,
        ) == ActionView::ReadBody(ReadingView::Call(call)),
        after_body(ReadingView::Call(call), body, Ok(Some(later_token))) == ActionView::Finish(
            call_reply(call, body),
        ),
        after_head(
            PendingView::Call(call, true),
            status,
            location,
            Ok(Some(later_token)),
            code,
            true,
        ) == ActionView::Finish(Err(ErrorView::NotAuthorized)),
        after_head(
            PendingView::Call(call, false),
            status,
            location,
            Ok(Some(token)),
            code,
            false,
        ) == ActionView::Finish(Err(ErrorView::NotAuthorized)),
{
    lemma_login_reply(sid);
}

/// What the answers to a login mean: the text of a refused password is an
/// error of its own, the text of a success carries the session id behind
/// it, and every other text is handed back as unexpected.
pub proof fn lemma_login_reply(sid: Seq<char>)
    ensures
        login_reply(LOGIN_INCORRECT@) == Err::<Seq<char>, ErrorView>(ErrorView::IncorrectPassword),
        login_reply(LOGIN_SUCCESSFUL@ + sid) == Ok::<Seq<char>, ErrorView>(sid),
        forall|body: Seq<char>|
            body != LOGIN_INCORRECT@ && !occurs_at(body, LOGIN_SUCCESSFUL@, 0) ==> login_reply(body)
                == Err::<Seq<char>, ErrorView>(ErrorView::UnexpectedResponse(body)),
{
    reveal_strlit("idloginincorrect");
    reveal_strlit("successful;SID=");
    let body = LOGIN_SUCCESSFUL@ + sid;
    assert(body.subrange(0, LOGIN_SUCCESSFUL@.len() as int) =~= LOGIN_SUCCESSFUL@);
    assert(body.subrange(LOGIN_SUCCESSFUL@.len() as int, body.len() as int) =~= sid);
    assert(body[0] == 's');
    assert(LOGIN_INCORRECT@[0] == 'i');
}

} // verus!
