//! The client: who it talks to, what it knows, and the exchanges that it
//! offers. The client sends nothing itself. Each operation hands out the
//! first step of an exchange, and `on_head` and `on_body` hand out the steps
//! that follow, as the answers come in.

use crate::error::{Error, ErrorView};
use crate::exchange::{
    after_body, after_head, head_action, lemma_login_reply, login_reply, read_call_reply,
    read_login_reply, send_call, start_call, Action, ActionView, Call, CallView, Endpoint,
    Pending, PendingView, Reading, ReadingView, RequestView, LOGIN_INCORRECT, LOGIN_SUCCESSFUL,
};
use crate::forwards::{
    add_fields, add_form, batch_rows, decided, delete_column, edit_fields, edit_form,
    enable_column, encode_rows, id_column, rows_of, star_list, PortForwardAction,
};
use crate::functions::{EDIT_FORWARDS, FORWARDS, LAN_TABLE, LOGOUT};
use crate::models::{PortForwardEntry, PortForwards};
use crate::outside::{
    clone_url, header_text, header_text_of, join_url, parse_url, url_joined, url_parsed,
};
use crate::session::{header_view, lookup, lookup_view, SessionStore};
use reqwest::cookie::Jar;
use reqwest::header::{HeaderValue, ToStrError};
use reqwest::Url;
use std::sync::Arc;
use vstd::prelude::*;
use vstd::string::*;

verus! {

/// The cookie that carries the modem's anti-forgery token. The modem sets it
/// with its login page, and wants it back in every form.
pub const SESSION_TOKEN: &'static str = "sessionToken";

/// The cookie that carries the session id.
pub const SESSION_ID: &'static str = "SID";

/// Where reads are posted, relative to the base URL.
pub const GETTER_PATH: &'static str = "xml/getter.xml";

/// Where writes are posted, relative to the base URL.
pub const SETTER_PATH: &'static str = "xml/setter.xml";

/// Where the login page is, relative to the base URL.
pub const LOGIN_PAGE_PATH: &'static str = "common_page/login.html";

/// The base URL of the modem at `address`.
pub open spec fn base_address(address: Seq<char>) -> Seq<char> {
    "http://"@ + address + "/"@
}

/// Writes the base URL of the modem at `address`.
pub fn base_address_of(address: &str) -> (base: String)
    ensures
        base@ == base_address(address@),
{
    let mut base = String::from_str("http://");
    base.append(address);
    base.append("/");
    base
}

/// The URLs that a client of the modem at `address` works with: the base
/// URL, where it reads and where it writes. Where one of them cannot be made,
/// the first failure is the outcome.
pub open spec fn urls_of(address: Seq<char>) -> Result<(Url, Url, Url), url::ParseError> {
    match url_parsed(base_address(address)) {
        Err(e) => Err(e),
        Ok(base) => match url_joined(base, GETTER_PATH@) {
            Err(e) => Err(e),
            Ok(getter) => match url_joined(base, SETTER_PATH@) {
                Err(e) => Err(e),
                Ok(setter) => Ok((base, getter, setter)),
            },
        },
    }
}

/// The 'Location' header of an answer as the machine takes it: its text, or
/// the reason why it has none.
pub open spec fn location_text(location: Option<HeaderValue>) -> Option<
    Result<Seq<char>, ToStrError>,
> {
    match location {
        None => None,
        Some(value) => Some(header_text_of(value)),
    }
}

/// What the body of an answer makes the client store: the session id of a
/// good login, as the cookie `SID`, and nothing else. An answer to a call
/// stores nothing, and neither does a login that failed.
pub open spec fn stored_by(reading: ReadingView, body: Seq<char>) -> Seq<(Seq<char>, Seq<char>)> {
    match reading {
        ReadingView::Call(_) => Seq::empty(),
        _ => match login_reply(body) {
            Ok(sid) => seq![(SESSION_ID@, sid)],
            Err(_) => Seq::empty(),
        },
    }
}

/// A login is stored whole or not at all. The answer to a good login, asked
/// for by the caller or made to renew a session, stores the session id that
/// it carries, and that alone. The answer to a login that failed stores
/// nothing, whatever it says, and neither does the answer to a call.
pub proof fn lemma_only_a_good_login_stores(call: CallView, sid: Seq<char>, body: Seq<char>)
    ensures
        stored_by(ReadingView::Login, LOGIN_SUCCESSFUL@ + sid) == seq![(SESSION_ID@, sid)],
        stored_by(ReadingView::Renewal(call), LOGIN_SUCCESSFUL@ + sid) == seq![(SESSION_ID@, sid)],
        stored_by(ReadingView::Login, LOGIN_INCORRECT@).len() == 0,
        login_reply(body) is Err ==> stored_by(ReadingView::Login, body).len() == 0
            && stored_by(ReadingView::Renewal(call), body).len() == 0,
        stored_by(ReadingView::Call(call), body).len() == 0,
        after_body(ReadingView::Login, body, Ok(None)) matches ActionView::Finish(Err(_))
            ==> stored_by(ReadingView::Login, body).len() == 0,
{
    lemma_login_reply(sid);
}

/// The client of one modem.
pub struct ConnectBox {
    code: String,
    session: SessionStore,
    base_url: Url,
    getter_url: Url,
    setter_url: Url,
    auto_reauth: bool,
}

impl ConnectBox {
    /// The password that the client logs in with.
    pub closed spec fn code(&self) -> Seq<char> {
        self.code@
    }

    /// Whether the client logs in again when it finds its session gone.
    pub closed spec fn renews(&self) -> bool {
        self.auto_reauth
    }

    /// The jar that the client keeps its cookies in.
    pub closed spec fn jar(&self) -> Arc<Jar> {
        self.session.jar_spec()
    }

    /// The base URL of the modem, which the cookies are kept for.
    pub closed spec fn base(&self) -> Url {
        self.base_url
    }

    /// The address that the client keeps its cookies for.
    pub closed spec fn scope(&self) -> Url {
        self.session.scope()
    }

    /// Where the client posts its reads.
    pub closed spec fn getter(&self) -> Url {
        self.getter_url
    }

    /// Where the client posts its writes.
    pub closed spec fn setter(&self) -> Url {
        self.setter_url
    }

    /// The cookies that the client itself has put into its session store,
    /// names and values, from the first to the latest.
    pub closed spec fn stored(&self) -> Seq<(Seq<char>, Seq<char>)> {
        self.session.stored()
    }

    /// Whether `other` is this client but for what it has stored: the same
    /// password, the same URLs, the same jar.
    pub open spec fn same_modem(&self, other: &ConnectBox) -> bool {
        &&& self.code() == other.code()
        &&& self.renews() == other.renews()
        &&& self.jar() == other.jar()
        &&& self.base() == other.base()
        &&& self.scope() == other.scope()
        &&& self.getter() == other.getter()
        &&& self.setter() == other.setter()
    }

    /// A client for the modem at `address`, which is a host name or an IP
    /// address, with a port if need be. `code` is the modem's password;
    /// `auto_reauth` tells whether to log in again when the session is found
    /// gone. No session is open yet, and nothing is stored: start with
    /// `login`.
    ///
    /// The client is made wherever its three URLs can be made, and holds
    /// these. Where one cannot, the first failure is handed back.
    pub fn new(address: &str, code: String, auto_reauth: bool) -> (r: Result<ConnectBox, Error>)
        ensures
            match urls_of(address@) {
                Ok(urls) => {
                    &&& r matches Ok(client)
                    &&& client.base() == urls.0
                    &&& client.scope() == urls.0
                    &&& client.getter() == urls.1
                    &&& client.setter() == urls.2
                    &&& client.code() == code@
                    &&& client.renews() == auto_reauth
                    &&& client.stored() == Seq::<(Seq<char>, Seq<char>)>::empty()
                },
                Err(e) => r matches Err(failure) && failure == Error::URLParseError(e),
            },
    {
        let base = base_address_of(address);
        let base_url = match parse_url(base.as_str()) {
            Ok(url) => url,
            Err(e) => {
                return Err(Error::URLParseError(e));
            },
        };
        let getter_url = match join_url(&base_url, GETTER_PATH) {
            Ok(url) => url,
            Err(e) => {
                return Err(Error::URLParseError(e));
            },
        };
        let setter_url = match join_url(&base_url, SETTER_PATH) {
            Ok(url) => url,
            Err(e) => {
                return Err(Error::URLParseError(e));
            },
        };
        let session = SessionStore::new(clone_url(&base_url));
        Ok(ConnectBox { code, session, base_url, getter_url, setter_url, auto_reauth })
    }

    /// Whether the client logs in again when it finds its session gone.
    pub fn auto_reauth(&self) -> (r: bool)
        ensures
            r == self.renews(),
    {
        self.auto_reauth
    }

    /// The jar that holds the session's cookies. The HTTP client that sends
    /// the requests has to file the modem's cookies there and send them from
    /// there.
    pub fn cookie_store(&self) -> (jar: Arc<Jar>)
        ensures
            jar == self.jar(),
    {
        self.session.jar()
    }

    /// The value of the cookie `name`, if the session store holds one now.
    pub fn cookie(&self, name: &str) -> (r: Result<Option<String>, Error>)
        ensures
            exists|header: Option<Result<Seq<char>, ToStrError>>|
                lookup_view(r) == #[trigger] lookup(header, name@),
    {
        self.session.get(name)
    }

    /// The URL of an endpoint on this modem. The URLs for reads and writes
    /// are those that the client was made with; the URL of the login page is
    /// worked out from the base URL each time.
    pub fn url(&self, endpoint: Endpoint) -> (r: Result<Url, Error>)
        ensures
            match endpoint {
                Endpoint::Getter => r == Ok::<Url, Error>(self.getter()),
                Endpoint::Setter => r == Ok::<Url, Error>(self.setter()),
                Endpoint::LoginPage => match url_joined(self.base(), LOGIN_PAGE_PATH@) {
                    Ok(url) => r == Ok::<Url, Error>(url),
                    Err(e) => r == Err::<Url, Error>(Error::URLParseError(e)),
                },
            },
    {
        match endpoint {
            Endpoint::Getter => Ok(clone_url(&self.getter_url)),
            Endpoint::Setter => Ok(clone_url(&self.setter_url)),
            Endpoint::LoginPage => match join_url(&self.base_url, LOGIN_PAGE_PATH) {
                Ok(url) => Ok(url),
                Err(e) => Err(Error::URLParseError(e)),
            },
        }
    }

    /// Starts the exchange that carries out `call`: its request goes out if
    /// the session store holds the token, and the exchange fails at once if
    /// it does not. The jar decides which header it gives; the action is
    /// what follows from the lookup of the token in that header.
    pub fn call(&self, call: Call) -> (action: Action)
        ensures
            exists|header: Option<Result<Seq<char>, ToStrError>>|
                action@ == send_call(call@, false, #[trigger] lookup(header, SESSION_TOKEN@)),
    {
        let found = self.cookie(SESSION_TOKEN);
        let action = start_call(call, false, found);
        assert(action@ == send_call(call@, false, lookup_view(found)));
        action
    }

    /// Starts a login: the login page is fetched first, for the sake of the
    /// cookie that comes with it, and the password is posted once the page's
    /// status line is in.
    pub fn login(&self) -> (action: Action)
        ensures
            action@ == ActionView::Send(
                (RequestView { endpoint: Endpoint::LoginPage, form: None }),
                PendingView::LoginPage,
            ),
    {
        Action::Send(
            crate::exchange::Request { endpoint: Endpoint::LoginPage, form: None },
            Pending::LoginPage,
        )
    }

    /// Starts the logout. The modem keeps one session only, so a client that
    /// is done should log out and let others in. Whatever the modem answers
    /// is taken as done.
    pub fn logout(&self) -> (action: Action)
        ensures
            exists|header: Option<Result<Seq<char>, ToStrError>>|
                action@ == send_call(
                    CallView::Write(LOGOUT, Seq::empty(), false),
                    false,
                    #[trigger] lookup(header, SESSION_TOKEN@),
                ),
    {
        let fields: Vec<(String, String)> = Vec::new();
        let call = Call::Write { function: LOGOUT, fields, strict: false };
        assert(call@ == CallView::Write(LOGOUT, Seq::empty(), false)) by {
            assert(crate::forwards::fields_view(fields@) =~= Seq::empty());
        }
        self.call(call)
    }

    /// Starts the read of the devices on the local network.
    pub fn devices(&self) -> (action: Action)
        ensures
            exists|header: Option<Result<Seq<char>, ToStrError>>|
                action@ == send_call(
                    CallView::Read(LAN_TABLE),
                    false,
                    #[trigger] lookup(header, SESSION_TOKEN@),
                ),
    {
        self.call(Call::Read { function: LAN_TABLE })
    }

    /// Starts the read of the port forwarding table.
    pub fn port_forwards(&self) -> (action: Action)
        ensures
            exists|header: Option<Result<Seq<char>, ToStrError>>|
                action@ == send_call(
                    CallView::Read(FORWARDS),
                    false,
                    #[trigger] lookup(header, SESSION_TOKEN@),
                ),
    {
        self.call(Call::Read { function: FORWARDS })
    }

    /// Starts the write that adds the forward `port`, whose id is not sent.
    /// Any answer but the empty one is the modem's refusal.
    pub fn add_port_forward(&self, port: &PortForwardEntry) -> (action: Action)
        ensures
            exists|header: Option<Result<Seq<char>, ToStrError>>|
                action@ == send_call(
                    CallView::Write(EDIT_FORWARDS, add_form(*port), true),
                    false,
                    #[trigger] lookup(header, SESSION_TOKEN@),
                ),
    {
        let fields = add_fields(port);
        self.call(Call::Write { function: EDIT_FORWARDS, fields, strict: true })
    }

    /// Starts the write that changes the forwards of `table` as `decide`
    /// says: it is asked about every forward, in the table's order, and all
    /// that it does not keep go into one form. A table of which it keeps
    /// everything still makes a form, with three empty lists.
    pub fn edit_port_forwards<F>(&self, table: &PortForwards, decide: F) -> (action: Action)
        where
            F: FnMut(PortForwardEntry) -> PortForwardAction,
        requires
            forall|i: int|
                0 <= i < table.entries.len() ==> call_requires(
                    decide,
                    (#[trigger] table.entries[i],),
                ),
        ensures
            exists|actions: Seq<PortForwardAction>, header: Option<Result<Seq<char>, ToStrError>>|
                #[trigger] decided(decide, table.entries@, actions) && action@ == send_call(
                    CallView::Write(
                        EDIT_FORWARDS,
                        batch_form(rows_of(table.entries@, actions)),
                        true,
                    ),
                    false,
                    #[trigger] lookup(header, SESSION_TOKEN@),
                ),
    {
        let ghost asked = decide;
        let rows = batch_rows(&table.entries, decide);
        let batch = encode_rows(&rows);
        let fields = edit_fields(&batch);
        let call = Call::Write { function: EDIT_FORWARDS, fields, strict: true };
        let ghost wanted = call@;
        let action = self.call(call);
        proof {
            let actions = choose|actions: Seq<PortForwardAction>|
                #[trigger] decided(asked, table.entries@, actions) && rows@ == rows_of(
                    table.entries@,
                    actions,
                );
            let header = choose|header: Option<Result<Seq<char>, ToStrError>>|
                action@ == send_call(wanted, false, #[trigger] lookup(header, SESSION_TOKEN@));
            assert(decided(asked, table.entries@, actions) && action@ == send_call(
                CallView::Write(
                    EDIT_FORWARDS,
                    batch_form(rows_of(table.entries@, actions)),
                    true,
                ),
                false,
                lookup(header, SESSION_TOKEN@),
            ));
        }
        action
    }

    /// Takes the status line of the answer to the request that `pending`
    /// awaits, with the answer's 'Location' header if it has one, and says
    /// what to do next. The header is read as the header parser reads it; the
    /// token is looked up in the header that the jar gives.
    pub fn on_head(&self, pending: Pending, status: u16, location: Option<HeaderValue>) -> (action:
        Action)
        ensures
            exists|header: Option<Result<Seq<char>, ToStrError>>|
                action@ == after_head(
                    pending@,
                    status,
                    location_text(location),
                    #[trigger] lookup(header, SESSION_TOKEN@),
                    self.code(),
                    self.renews(),
                ),
    {
        let target = match location {
            None => None,
            Some(value) => Some(header_text(&value)),
        };
        let found = self.cookie(SESSION_TOKEN);
        assert(header_view(target) == location_text(location));
        let action = head_action(
            pending,
            status,
            target,
            found,
            self.code.as_str(),
            self.auto_reauth,
        );
        assert(action@ == after_head(
            pending@,
            status,
            location_text(location),
            lookup_view(found),
            self.code(),
            self.renews(),
        ));
        action
    }

    /// Takes the body of the answer that `reading` awaits, and says what to
    /// do next. The session id of a good login goes into the session store,
    /// as the cookie `SID`, before anything else is done; nothing else is
    /// ever stored, and the client stays as it is otherwise. Where a call
    /// goes on after a renewal, its token is looked up in the header that the
    /// jar gives then.
    pub fn on_body(&mut self, reading: Reading, body: String) -> (action: Action)
        ensures
            exists|header: Option<Result<Seq<char>, ToStrError>>|
                action@ == after_body(
                    reading@,
                    body@,
                    #[trigger] lookup(header, SESSION_TOKEN@),
                ),
            final(self).stored() == old(self).stored() + stored_by(reading@, body@),
            final(self).same_modem(old(self)),
    {
        match reading {
            Reading::Call { call } => {
                let action = Action::Finish(read_call_reply(&call, body));
                assert(action@ == after_body(reading@, body@, lookup(None, SESSION_TOKEN@)));
                assert(self.stored() + stored_by(reading@, body@) =~= self.stored());
                action
            },
            Reading::Login => {
                let action = match read_login_reply(body) {
                    Err(e) => Action::Finish(Err(e)),
                    Ok(sid) => {
                        self.session.set(SESSION_ID, sid.as_str());
                        Action::Finish(Ok(crate::exchange::Reply::Done))
                    },
                };
                assert(action@ == after_body(reading@, body@, lookup(None, SESSION_TOKEN@)));
                assert(self.stored() =~= old(self).stored() + stored_by(reading@, body@));
                action
            },
            Reading::Renewal { call } => {
                match read_login_reply(body) {
                    Err(e) => {
                        let action = Action::Finish(Err(e));
                        assert(action@ == after_body(
                            reading@,
                            body@,
                            lookup(None, SESSION_TOKEN@),
                        ));
                        assert(self.stored() + stored_by(reading@, body@) =~= self.stored());
                        action
                    },
                    Ok(sid) => {
                        self.session.set(SESSION_ID, sid.as_str());
                        let found = self.cookie(SESSION_TOKEN);
                        let action = start_call(call, true, found);
                        assert(action@ == after_body(reading@, body@, lookup_view(found)));
                        assert(self.stored() =~= old(self).stored() + stored_by(
                            reading@,
                            body@,
                        ));
                        action
                    },
                }
            },
        }
    }
}

/// The form that applies the changes `rows`.
pub open spec fn batch_form(rows: Seq<crate::forwards::BatchRow>) -> crate::forwards::Fields {
    edit_form(
        star_list(id_column(rows)),
        star_list(enable_column(rows)),
        star_list(delete_column(rows)),
    )
}

} // verus!
