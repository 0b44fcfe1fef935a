use connectbox::client::{base_address_of, ConnectBox};
use connectbox::exchange::{
    head_action, is_redirection, login_head_action, login_request_for, read_call_reply,
    read_login_reply, request_for, start_call, start_login, Action, Call, Endpoint, Pending,
    Reading, Reply, Request,
};
use connectbox::models::{Ipv4Addr, PortForwardEntry, PortForwardProtocol, PortForwards};
use connectbox::{Error, PortForwardAction};
use reqwest::header::HeaderValue;
use reqwest::Url;

const ADDRESS: &str = "192.168.0.1";

fn client(auto_reauth: bool) -> ConnectBox {
    ConnectBox::new(ADDRESS, "secret".to_string(), auto_reauth).unwrap()
}

fn modem_sets(client: &ConnectBox, cookie: &str) {
    let url = Url::parse("http://192.168.0.1/").unwrap();
    client.cookie_store().add_cookie_str(cookie, &url);
}

fn pairs(request: &Request) -> Vec<(&str, &str)> {
    request
        .form
        .as_ref()
        .expect("a form")
        .iter()
        .map(|(name, value)| (name.as_str(), value.as_str()))
        .collect()
}

fn sent(action: Action) -> (Request, Pending) {
    match action {
        Action::Send(request, pending) => (request, pending),
        other => panic!("nothing is sent: {:?}", other),
    }
}

fn reads(action: Action) -> Reading {
    match action {
        Action::ReadBody(reading) => reading,
        other => panic!("nothing is read: {:?}", other),
    }
}

fn finished(action: Action) -> Result<Reply, Error> {
    match action {
        Action::Finish(outcome) => outcome,
        other => panic!("not finished: {:?}", other),
    }
}

fn is_login(request: &Request) -> bool {
    request.endpoint == Endpoint::Setter
        && pairs(request).iter().any(|(name, value)| *name == "fun" && *value == "15")
}

/// Plays the modem: answers each request with the next scripted answer, and
/// tells how the exchange ended and what was sent.
fn play(
    client: &mut ConnectBox,
    start: impl FnOnce(&ConnectBox) -> Action,
    answers: &[(u16, Option<&str>, &str)],
) -> (Result<Reply, Error>, Vec<Request>) {
    let mut requests = Vec::new();
    let mut answers = answers.iter();
    let mut body = "";
    let mut action = start(client);
    loop {
        action = match action {
            Action::Send(request, pending) => {
                requests.push(request);
                let (status, location, text) = answers.next().expect("one more answer");
                body = text;
                let location = location.map(|l| HeaderValue::from_str(l).unwrap());
                client.on_head(pending, *status, location)
            }
            Action::ReadBody(reading) => client.on_body(reading, body.to_string()),
            Action::Finish(outcome) => {
                assert!(answers.next().is_none(), "an answer was left over");
                return (outcome, requests);
            }
        };
    }
}

#[test]
fn status_codes_from_300_to_399_redirect() {
    for status in 0..=u16::MAX {
        assert_eq!(is_redirection(status), (300..400).contains(&status));
    }
}

#[test]
fn the_base_address_is_a_plain_http_url() {
    assert_eq!(base_address_of("192.168.0.1"), "http://192.168.0.1/");
    assert_eq!(base_address_of("modem.lan:8080"), "http://modem.lan:8080/");
}

#[test]
fn the_endpoints_hang_off_the_base_address() {
    let client = client(true);
    assert_eq!(
        client.url(Endpoint::Getter).unwrap().as_str(),
        "http://192.168.0.1/xml/getter.xml"
    );
    assert_eq!(
        client.url(Endpoint::Setter).unwrap().as_str(),
        "http://192.168.0.1/xml/setter.xml"
    );
    assert_eq!(
        client.url(Endpoint::LoginPage).unwrap().as_str(),
        "http://192.168.0.1/common_page/login.html"
    );
}

#[test]
fn an_address_that_makes_no_url_is_refused() {
    assert!(matches!(
        ConnectBox::new("exa mple", "x".to_string(), true),
        Err(Error::URLParseError(_))
    ));
    assert!(matches!(
        ConnectBox::new("", "x".to_string(), true),
        Err(Error::URLParseError(url::ParseError::EmptyHost))
    ));
    assert!(matches!(
        ConnectBox::new("host:99999", "x".to_string(), true),
        Err(Error::URLParseError(url::ParseError::InvalidPort))
    ));
}

#[test]
fn the_client_remembers_whether_to_renew() {
    assert!(client(true).auto_reauth());
    assert!(!client(false).auto_reauth());
}

#[test]
fn a_read_posts_token_and_function_to_the_getter() {
    let request = request_for(&Call::Read { function: 123 }, "tok");
    assert_eq!(request.endpoint, Endpoint::Getter);
    assert_eq!(pairs(&request), vec![("token", "tok"), ("fun", "123")]);
}

#[test]
fn a_write_posts_its_fields_behind_token_and_function() {
    let fields = vec![
        ("action".to_string(), "add".to_string()),
        ("idd".to_string(), String::new()),
    ];
    let request = request_for(&Call::Write { function: 122, fields, strict: true }, "9");
    assert_eq!(request.endpoint, Endpoint::Setter);
    assert_eq!(
        pairs(&request),
        vec![("token", "9"), ("fun", "122"), ("action", "add"), ("idd", "")]
    );
}

#[test]
fn a_login_posts_the_password() {
    let request = login_request_for("tok", "secret");
    assert_eq!(request.endpoint, Endpoint::Setter);
    assert_eq!(
        pairs(&request),
        vec![("token", "tok"), ("fun", "15"), ("Username", "NULL"), ("Password", "secret")]
    );
}

#[test]
fn nothing_is_sent_without_the_token() {
    let outcome = finished(start_call(Call::Read { function: 1 }, false, Ok(None)));
    assert!(matches!(outcome, Err(Error::NoSessionToken)));
    let outcome = finished(start_login(Pending::Login, Ok(None), "secret"));
    assert!(matches!(outcome, Err(Error::NoSessionToken)));
    let outcome = finished(start_call(Call::Read { function: 1 }, false, Err(Error::AccessDenied)));
    assert!(matches!(outcome, Err(Error::AccessDenied)));
    let client = client(true);
    assert!(matches!(finished(client.devices()), Err(Error::NoSessionToken)));
    assert!(matches!(finished(client.port_forwards()), Err(Error::NoSessionToken)));
    assert!(matches!(finished(client.logout()), Err(Error::NoSessionToken)));
}

#[test]
fn login_reply_incorrect_password() {
    assert!(matches!(
        read_login_reply("idloginincorrect".to_string()),
        Err(Error::IncorrectPassword)
    ));
}

#[test]
fn login_reply_successful() {
    assert_eq!(read_login_reply("successful;SID=abc123".to_string()).unwrap(), "abc123");
    assert_eq!(read_login_reply("successful;SID=".to_string()).unwrap(), "");
    assert_eq!(read_login_reply("successful;SID=1;x=2".to_string()).unwrap(), "1;x=2");
}

#[test]
fn login_reply_unexpected() {
    for body in ["", "successful", "successful;SID", "idloginincorrect ", "Successful;SID=1", "<html/>"] {
        match read_login_reply(body.to_string()) {
            Err(Error::UnexpectedResponse(text)) => assert_eq!(text, body),
            other => panic!("{:?}", other),
        }
    }
}

#[test]
fn login_stores_the_session_id() {
    let mut client = client(true);
    let (request, pending) = sent(client.login());
    assert_eq!(request.endpoint, Endpoint::LoginPage);
    assert!(request.form.is_none());
    assert!(matches!(pending, Pending::LoginPage));
    modem_sets(&client, "sessionToken=1234");
    let (request, pending) = sent(client.on_head(pending, 200, None));
    assert_eq!(
        pairs(&request),
        vec![("token", "1234"), ("fun", "15"), ("Username", "NULL"), ("Password", "secret")]
    );
    assert_eq!(request.endpoint, Endpoint::Setter);
    assert!(matches!(pending, Pending::Login));
    let reading = reads(client.on_head(pending, 200, None));
    assert!(matches!(reading, Reading::Login));
    assert!(matches!(client.cookie("SID"), Ok(None)));
    let outcome = finished(client.on_body(reading, "successful;SID=abc123".to_string()));
    assert!(matches!(outcome, Ok(Reply::Done)));
    assert_eq!(client.cookie("SID").unwrap(), Some("abc123".to_string()));
    assert_eq!(client.cookie("sessionToken").unwrap(), Some("1234".to_string()));
}

#[test]
fn login_with_a_wrong_password() {
    let mut client = client(true);
    modem_sets(&client, "sessionToken=1");
    let (outcome, requests) =
        play(&mut client, |c| c.login(), &[(200, None, "<html/>"), (200, None, "idloginincorrect")]);
    assert!(matches!(outcome, Err(Error::IncorrectPassword)));
    assert_eq!(requests.len(), 2);
    assert!(matches!(client.cookie("SID"), Ok(None)));
}

#[test]
fn login_with_an_unexpected_answer() {
    let mut client = client(true);
    modem_sets(&client, "sessionToken=1");
    let (outcome, _) =
        play(&mut client, |c| c.login(), &[(200, None, ""), (200, None, "try again later")]);
    match outcome {
        Err(Error::UnexpectedResponse(body)) => assert_eq!(body, "try again later"),
        other => panic!("{:?}", other),
    }
    assert!(matches!(client.cookie("SID"), Ok(None)));
}

#[test]
fn login_without_the_cookie_of_the_login_page() {
    let mut client = client(true);
    let (outcome, requests) = play(&mut client, |c| c.login(), &[(200, None, "")]);
    assert!(matches!(outcome, Err(Error::NoSessionToken)));
    assert_eq!(requests.len(), 1);
}

#[test]
fn login_while_somebody_else_is_logged_in() {
    let mut client = client(true);
    modem_sets(&client, "sessionToken=1");
    let (outcome, _) = play(
        &mut client,
        |c| c.login(),
        &[(200, None, ""), (302, Some("../common_page/Access-denied.html"), "")],
    );
    assert!(matches!(outcome, Err(Error::AccessDenied)));
}

#[test]
fn login_redirected_elsewhere() {
    let mut client = client(true);
    modem_sets(&client, "sessionToken=1");
    let (outcome, _) =
        play(&mut client, |c| c.login(), &[(200, None, ""), (307, Some("/elsewhere.html"), "")]);
    match outcome {
        Err(Error::UnexpectedRedirect(location)) => assert_eq!(location, "/elsewhere.html"),
        other => panic!("{:?}", other),
    }
}

#[test]
fn login_redirected_without_a_target_is_read() {
    let mut client = client(true);
    modem_sets(&client, "sessionToken=1");
    let (outcome, _) =
        play(&mut client, |c| c.login(), &[(200, None, ""), (302, None, "successful;SID=7")]);
    assert!(matches!(outcome, Ok(Reply::Done)));
    assert_eq!(client.cookie("SID").unwrap(), Some("7".to_string()));
}

#[test]
fn login_answered_with_a_target_but_no_redirection_is_read() {
    let action = login_head_action(Reading::Login, 200, Some(Ok("/elsewhere.html".to_string())));
    assert!(matches!(reads(action), Reading::Login));
}

#[test]
fn login_redirected_to_what_is_no_text() {
    let client = client(true);
    modem_sets(&client, "sessionToken=1");
    let (_, pending) = sent(client.login());
    let (_, pending) = sent(client.on_head(pending, 200, None));
    let target = HeaderValue::from_bytes(&[b'/', 0xe4]).unwrap();
    let outcome = finished(client.on_head(pending, 302, Some(target)));
    assert!(matches!(outcome, Err(Error::InvalidHeaderValue(_))));
}

#[test]
fn a_read_brings_its_document() {
    let mut client = client(true);
    modem_sets(&client, "sessionToken=55");
    let (outcome, requests) = play(&mut client, |c| c.devices(), &[(200, None, "<LanUserTable/>")]);
    match outcome {
        Ok(Reply::Document(body)) => assert_eq!(body, "<LanUserTable/>"),
        other => panic!("{:?}", other),
    }
    assert_eq!(requests.len(), 1);
    assert_eq!(requests[0].endpoint, Endpoint::Getter);
    assert_eq!(pairs(&requests[0]), vec![("token", "55"), ("fun", "123")]);
    let (_, requests) = play(&mut client, |c| c.port_forwards(), &[(200, None, "")]);
    assert_eq!(pairs(&requests[0]), vec![("token", "55"), ("fun", "121")]);
}

#[test]
fn reauth_two_expiries_fail_after_one_renewal() {
    let mut client = client(true);
    modem_sets(&client, "sessionToken=55");
    let (outcome, requests) = play(
        &mut client,
        |c| c.devices(),
        &[(302, Some("../common_page/login.html"), ""), (200, None, "successful;SID=new"), (302, None, "")],
    );
    assert!(matches!(outcome, Err(Error::NotAuthorized)));
    assert_eq!(requests.len(), 3);
    assert_eq!(requests.iter().filter(|r| is_login(r)).count(), 1);
    assert!(!is_login(&requests[0]));
    assert!(is_login(&requests[1]));
    assert!(!is_login(&requests[2]));
}

#[test]
fn reauth_one_expiry_is_not_seen_by_the_caller() {
    let mut client = client(true);
    modem_sets(&client, "sessionToken=55");
    modem_sets(&client, "SID=old");
    let (outcome, requests) = play(
        &mut client,
        |c| c.devices(),
        &[(302, None, ""), (200, None, "successful;SID=new"), (200, None, "<LanUserTable/>")],
    );
    match outcome {
        Ok(Reply::Document(body)) => assert_eq!(body, "<LanUserTable/>"),
        other => panic!("{:?}", other),
    }
    assert_eq!(requests.iter().filter(|r| is_login(r)).count(), 1);
    assert_eq!(requests.len(), 3);
    assert_eq!(pairs(&requests[0]), pairs(&requests[2]));
    assert_eq!(requests[2].endpoint, Endpoint::Getter);
    assert_eq!(
        pairs(&requests[1]),
        vec![("token", "55"), ("fun", "15"), ("Username", "NULL"), ("Password", "secret")]
    );
    assert_eq!(client.cookie("SID").unwrap(), Some("new".to_string()));
}

#[test]
fn reauth_takes_the_token_that_the_store_holds_then() {
    let mut client = client(true);
    modem_sets(&client, "sessionToken=1");
    let (_, pending) = sent(client.devices());
    modem_sets(&client, "sessionToken=2");
    let (request, pending) = sent(client.on_head(pending, 302, None));
    assert_eq!(pairs(&request)[0], ("token", "2"));
    let reading = reads(client.on_head(pending, 200, None));
    modem_sets(&client, "sessionToken=3");
    let (request, pending) = sent(client.on_body(reading, "successful;SID=s".to_string()));
    assert_eq!(pairs(&request), vec![("token", "3"), ("fun", "123")]);
    assert!(matches!(pending, Pending::Call { renewed: true, .. }));
}

#[test]
fn reauth_that_fails_ends_the_call() {
    let mut client = client(true);
    modem_sets(&client, "sessionToken=55");
    let (outcome, requests) =
        play(&mut client, |c| c.devices(), &[(302, None, ""), (200, None, "idloginincorrect")]);
    assert!(matches!(outcome, Err(Error::IncorrectPassword)));
    assert_eq!(requests.len(), 2);
    let (outcome, _) = play(
        &mut client,
        |c| c.devices(),
        &[(302, None, ""), (302, Some("../common_page/Access-denied.html"), "")],
    );
    assert!(matches!(outcome, Err(Error::AccessDenied)));
}

#[test]
fn reauth_is_off_when_the_client_says_so() {
    let mut client = client(false);
    modem_sets(&client, "sessionToken=55");
    let (outcome, requests) = play(&mut client, |c| c.devices(), &[(302, None, "")]);
    assert!(matches!(outcome, Err(Error::NotAuthorized)));
    assert_eq!(requests.len(), 1);
    let (outcome, requests) = play(&mut client, |c| c.logout(), &[(399, None, "")]);
    assert!(matches!(outcome, Err(Error::NotAuthorized)));
    assert_eq!(requests.len(), 1);
}

#[test]
fn reauth_applies_to_writes_too() {
    let mut client = client(true);
    modem_sets(&client, "sessionToken=55");
    let port = PortForwardEntry {
        id: 0,
        local_ip: Ipv4Addr::new(192, 168, 0, 180),
        start_port: 25565,
        end_port: 25565,
        start_port_in: 25565,
        end_port_in: 25565,
        protocol: PortForwardProtocol::Both,
        enable: true,
    };
    let (outcome, requests) = play(
        &mut client,
        |c| c.add_port_forward(&port),
        &[(300, None, ""), (200, None, "successful;SID=new"), (200, None, "")],
    );
    assert!(matches!(outcome, Ok(Reply::Done)));
    assert_eq!(requests.len(), 3);
    assert_eq!(pairs(&requests[0]), pairs(&requests[2]));
    assert_eq!(requests[2].endpoint, Endpoint::Setter);
    let (outcome, requests) = play(
        &mut client,
        |c| c.add_port_forward(&port),
        &[(302, None, ""), (200, None, "successful;SID=new"), (302, None, "")],
    );
    assert!(matches!(outcome, Err(Error::NotAuthorized)));
    assert_eq!(requests.iter().filter(|r| is_login(r)).count(), 1);
}

#[test]
fn status_codes_beside_the_redirections_are_read() {
    for status in [200u16, 299, 400, 404, 500] {
        let action = head_action(
            Pending::Call { call: Call::Read { function: 1 }, renewed: false },
            status,
            None,
            Ok(Some("t".to_string())),
            "secret",
            true,
        );
        assert!(matches!(reads(action), Reading::Call { .. }));
    }
}

#[test]
fn adding_a_forward() {
    let mut client = client(true);
    modem_sets(&client, "sessionToken=8");
    let port = PortForwardEntry {
        id: 5,
        local_ip: Ipv4Addr::new(192, 168, 0, 180),
        start_port: 25565,
        end_port: 25570,
        start_port_in: 1000,
        end_port_in: 1005,
        protocol: PortForwardProtocol::Tcp,
        enable: false,
    };
    let (outcome, requests) = play(&mut client, |c| c.add_port_forward(&port), &[(200, None, "")]);
    assert!(matches!(outcome, Ok(Reply::Done)));
    assert_eq!(requests[0].endpoint, Endpoint::Setter);
    assert_eq!(
        pairs(&requests[0]),
        vec![
            ("token", "8"),
            ("fun", "122"),
            ("action", "add"),
            ("instance", ""),
            ("local_IP", "192.168.0.180"),
            ("start_port", "25565"),
            ("end_port", "25570"),
            ("start_portIn", "1000"),
            ("end_portIn", "1005"),
            ("protocol", "1"),
            ("enable", "0"),
            ("delete", "0"),
            ("idd", ""),
        ]
    );
}

#[test]
fn a_refused_change_is_reported_with_the_modems_words() {
    let mut client = client(true);
    modem_sets(&client, "sessionToken=8");
    let port = PortForwardEntry {
        id: 0,
        local_ip: Ipv4Addr::new(192, 168, 0, 180),
        start_port: 1,
        end_port: 1,
        start_port_in: 1,
        end_port_in: 1,
        protocol: PortForwardProtocol::Udp,
        enable: true,
    };
    let (outcome, _) =
        play(&mut client, |c| c.add_port_forward(&port), &[(200, None, "port range overlaps")]);
    match outcome {
        Err(Error::Remote(body)) => assert_eq!(body, "port range overlaps"),
        other => panic!("{:?}", other),
    }
}

#[test]
fn logout_takes_any_answer() {
    let mut client = client(true);
    modem_sets(&client, "sessionToken=8");
    let (outcome, requests) = play(&mut client, |c| c.logout(), &[(200, None, "bye")]);
    assert!(matches!(outcome, Ok(Reply::Done)));
    assert_eq!(pairs(&requests[0]), vec![("token", "8"), ("fun", "16")]);
    assert_eq!(requests[0].endpoint, Endpoint::Setter);
}

#[test]
fn answers_to_calls_are_judged_by_the_call() {
    let read = Call::Read { function: 1 };
    assert!(matches!(read_call_reply(&read, String::new()), Ok(Reply::Document(b)) if b.is_empty()));
    let strict = Call::Write { function: 1, fields: Vec::new(), strict: true };
    assert!(matches!(read_call_reply(&strict, String::new()), Ok(Reply::Done)));
    assert!(matches!(read_call_reply(&strict, " ".to_string()), Err(Error::Remote(b)) if b == " "));
    let lax = Call::Write { function: 1, fields: Vec::new(), strict: false };
    assert!(matches!(read_call_reply(&lax, "x".to_string()), Ok(Reply::Done)));
}

fn table() -> PortForwards {
    let entry = |id: u32, last: u8| PortForwardEntry {
        id,
        local_ip: Ipv4Addr::new(192, 168, 0, last),
        start_port: 80,
        end_port: 80,
        start_port_in: 80,
        end_port_in: 80,
        protocol: PortForwardProtocol::Tcp,
        enable: true,
    };
    PortForwards {
        lan_ip: Ipv4Addr::new(192, 168, 0, 1),
        subnet_mask: Ipv4Addr::new(255, 255, 255, 0),
        entries: vec![entry(1, 10), entry(2, 180), entry(3, 30)],
    }
}

#[test]
fn edit_port_forwards_deletes_the_one_that_matches() {
    let mut client = client(true);
    modem_sets(&client, "sessionToken=8");
    let host = Ipv4Addr::new(192, 168, 0, 180);
    let first = client.edit_port_forwards(&table(), |e| {
        if e.local_ip == host {
            PortForwardAction::Delete
        } else {
            PortForwardAction::Keep
        }
    });
    let (outcome, requests) = play(&mut client, |_| first, &[(200, None, "")]);
    assert!(matches!(outcome, Ok(Reply::Done)));
    assert_eq!(requests.len(), 1);
    assert_eq!(requests[0].endpoint, Endpoint::Setter);
    assert_eq!(
        pairs(&requests[0]),
        vec![
            ("token", "8"),
            ("fun", "122"),
            ("action", "apply"),
            ("instance", "2"),
            ("local_IP", ""),
            ("start_port", ""),
            ("end_port", ""),
            ("start_portIn", ""),
            ("end_portIn", ""),
            ("protocol", ""),
            ("enable", "0"),
            ("delete", "1"),
            ("idd", ""),
        ]
    );
}

#[test]
fn edit_port_forwards_that_keeps_all_still_writes() {
    let mut client = client(true);
    modem_sets(&client, "sessionToken=8");
    let first = client.edit_port_forwards(&table(), |_| PortForwardAction::Keep);
    let (outcome, requests) = play(&mut client, |_| first, &[(200, None, "")]);
    assert!(matches!(outcome, Ok(Reply::Done)));
    let form = pairs(&requests[0]);
    assert_eq!(form[3], ("instance", ""));
    assert_eq!(form[10], ("enable", ""));
    assert_eq!(form[11], ("delete", ""));
}

#[test]
fn edit_port_forwards_reports_a_refusal() {
    let mut client = client(true);
    modem_sets(&client, "sessionToken=8");
    let first = client.edit_port_forwards(&table(), |_| PortForwardAction::Disable);
    let (outcome, requests) = play(&mut client, |_| first, &[(200, None, "no")]);
    assert!(matches!(outcome, Err(Error::Remote(b)) if b == "no"));
    let form = pairs(&requests[0]);
    assert_eq!(form[3], ("instance", "1*2*3"));
    assert_eq!(form[10], ("enable", "0*0*0"));
    assert_eq!(form[11], ("delete", "0*0*0"));
}

#[test]
fn a_new_client_holds_no_cookies() {
    let client = client(true);
    assert!(matches!(client.cookie("SID"), Ok(None)));
    assert!(matches!(client.cookie("sessionToken"), Ok(None)));
}

#[test]
fn login_overwrites_an_earlier_session_id() {
    let mut client = client(true);
    modem_sets(&client, "sessionToken=tok");
    modem_sets(&client, "SID=old");
    let (outcome, _) = play(
        &mut client,
        |c| c.login(),
        &[(200, None, ""), (200, None, "successful;SID=abc123")],
    );
    assert!(matches!(outcome, Ok(Reply::Done)));
    assert_eq!(client.cookie("SID").unwrap(), Some("abc123".to_string()));
    assert_eq!(client.cookie("sessionToken").unwrap(), Some("tok".to_string()));
}

#[test]
fn login_that_fails_leaves_the_store_as_it_was() {
    let answers: [&[(u16, Option<&str>, &str)]; 4] = [
        &[(200, None, ""), (200, None, "idloginincorrect")],
        &[(200, None, ""), (200, None, "successful")],
        &[(200, None, ""), (302, Some("../common_page/Access-denied.html"), "successful;SID=x")],
        &[(200, None, ""), (302, Some("/else"), "successful;SID=x")],
    ];
    for script in answers {
        let mut client = client(true);
        modem_sets(&client, "sessionToken=t");
        modem_sets(&client, "SID=s0");
        let (outcome, _) = play(&mut client, |c| c.login(), script);
        assert!(outcome.is_err());
        assert_eq!(client.cookie("SID").unwrap(), Some("s0".to_string()));
        assert_eq!(client.cookie("sessionToken").unwrap(), Some("t".to_string()));
    }
    let mut client = client(true);
    let (outcome, _) = play(&mut client, |c| c.login(), &[(200, None, "")]);
    assert!(matches!(outcome, Err(Error::NoSessionToken)));
    assert!(matches!(client.cookie("SID"), Ok(None)));
    assert!(matches!(client.cookie("sessionToken"), Ok(None)));
}

#[test]
fn answers_to_calls_store_nothing() {
    let mut client = client(true);
    modem_sets(&client, "sessionToken=t");
    let (outcome, _) =
        play(&mut client, |c| c.devices(), &[(200, None, "successful;SID=sneaky")]);
    assert!(matches!(outcome, Ok(Reply::Document(_))));
    assert!(matches!(client.cookie("SID"), Ok(None)));
}
