//! The EC2 instance metadata service (IMDS).
//!
//! A session token (IMDSv2) is asked for first; if the service answers but
//! refuses it, the rest is asked for without one (IMDSv1).
use vstd::prelude::*;
use vstd::string::*;

use crate::datasource;
use crate::datasource::{Seed, SeedView, Wait};
use crate::http;
use crate::http::{lossy_text, parse_response, request};
use crate::text;
use crate::text::{borrowed, trimmed};

verus! {

/// What came of a request.
#[derive(Debug)]
pub enum Reply {
    /// Nothing answered, or what came back is no response.
    Unreachable,
    /// A response whose status is not 200.
    Refused,
    /// The text of a response whose status is 200.
    Body(String),
}

/// The contents of a [`Reply`].
pub enum ReplyView {
    Unreachable,
    Refused,
    Body(Seq<char>),
}

impl View for Reply {
    type V = ReplyView;

    open spec fn view(&self) -> ReplyView {
        match *self {
            Reply::Unreachable => ReplyView::Unreachable,
            Reply::Refused => ReplyView::Refused,
            Reply::Body(t) => ReplyView::Body(t@),
        }
    }
}

/// What a response comes to.
pub open spec fn reply_of(r: Result<(u16, Seq<u8>), Seq<char>>) -> ReplyView {
    match r {
        Err(_) => ReplyView::Unreachable,
        Ok((code, body)) => if code == 200 {
            ReplyView::Body(http::lossy(body))
        } else {
            ReplyView::Refused
        },
    }
}

/// The bytes of a response, if there are any.
pub open spec fn opt_bytes(raw: Option<Vec<u8>>) -> Option<Seq<u8>> {
    match raw {
        Some(b) => Some(b@),
        None => None,
    }
}

/// What the bytes that came back come to; `None` says that connecting, sending
/// or receiving failed.
pub open spec fn read_reply(raw: Option<Seq<u8>>) -> ReplyView {
    match raw {
        None => ReplyView::Unreachable,
        Some(b) => reply_of(http::response(b)),
    }
}

/// Reads what came back from the service.
pub fn reply(raw: Option<Vec<u8>>) -> (r: Reply)
    ensures
        r@ == read_reply(opt_bytes(raw)),
{
    let bytes = match raw {
        Some(b) => b,
        None => return Reply::Unreachable,
    };
    match parse_response(bytes.as_slice()) {
        Err(_) => Reply::Unreachable,
        Ok((code, body)) => {
            if code == 200 {
                Reply::Body(lossy_text(body.as_slice()))
            } else {
                Reply::Refused
            }
        },
    }
}

/// The request for a session token.
pub open spec fn token_request() -> Seq<char> {
    http::request_text(
        "PUT"@,
        "/latest/api/token"@,
        seq![
            ("X-aws-ec2-metadata-token-ttl-seconds"@, "21600"@),
            ("Content-Length"@, "0"@),
        ],
    )
}

/// The request for a path, with the session token if there is one.
pub open spec fn get_request(path: Seq<char>, token: Option<Seq<char>>) -> Seq<char> {
    http::request_text(
        "GET"@,
        path,
        match token {
            Some(t) => seq![("X-aws-ec2-metadata-token"@, t)],
            None => Seq::<(Seq<char>, Seq<char>)>::empty(),
        },
    )
}

/// The request for a path.
pub fn get(path: &str, token: Option<&str>) -> (r: String)
    ensures
        r@ == get_request(path@, text::opt_str(token)),
{
    let mut headers: Vec<(String, String)> = Vec::new();
    if let Some(t) = token {
        headers.push(("X-aws-ec2-metadata-token".to_owned(), t.to_owned()));
        assert(http::header_views(headers@) =~= seq![("X-aws-ec2-metadata-token"@, t@)]);
    } else {
        assert(http::header_views(headers@) =~= Seq::<(Seq<char>, Seq<char>)>::empty());
    }
    request("GET", path, &headers)
}

/// How far an attempt to fetch a seed has come: what the pending request is
/// for, and what is known.
#[derive(Debug)]
pub enum Asking {
    Token,
    InstanceId { token: Option<String> },
    Hostname { token: Option<String>, meta_data: String },
    UserData { token: Option<String>, meta_data: String },
}

/// The contents of an [`Asking`].
pub enum AskingView {
    Token,
    InstanceId { token: Option<Seq<char>> },
    Hostname { token: Option<Seq<char>>, meta_data: Seq<char> },
    UserData { token: Option<Seq<char>>, meta_data: Seq<char> },
}

/// What to do next in an attempt.
#[derive(Debug)]
pub enum Attempt {
    /// Send the request, and hand over what comes back.
    Ask { asking: Asking, request: String },
    /// The attempt is over.
    Done(Option<Seed>),
}

/// The contents of an [`Attempt`].
pub enum AttemptView {
    Ask { asking: AskingView, request: Seq<char> },
    Done(Option<SeedView>),
}

impl View for Asking {
    type V = AskingView;

    open spec fn view(&self) -> AskingView {
        match *self {
            Asking::Token => AskingView::Token,
            Asking::InstanceId { token } => AskingView::InstanceId { token: text::opt_text(token) },
            Asking::Hostname { token, meta_data } => AskingView::Hostname {
                token: text::opt_text(token),
                meta_data: meta_data@,
            },
            Asking::UserData { token, meta_data } => AskingView::UserData {
                token: text::opt_text(token),
                meta_data: meta_data@,
            },
        }
    }
}

impl View for Attempt {
    type V = AttemptView;

    open spec fn view(&self) -> AttemptView {
        match *self {
            Attempt::Ask { asking, request } => AttemptView::Ask {
                asking: asking@,
                request: request@,
            },
            Attempt::Done(seed) => AttemptView::Done(datasource::opt_seed(seed)),
        }
    }
}

/// The first step of an attempt: it asks for a session token.
pub open spec fn attempt_begins() -> AttemptView {
    AttemptView::Ask { asking: AskingView::Token, request: token_request() }
}

/// The line of meta-data that gives the instance id.
pub open spec fn id_line(id: Seq<char>) -> Seq<char> {
    "instance-id: "@ + id + "\n"@
}

/// The line of meta-data that gives the host name; none if it is blank or not
/// known.
pub open spec fn hostname_line(reply: ReplyView) -> Seq<char> {
    match reply {
        ReplyView::Body(t) => if text::trim(t).len() == 0 {
            Seq::<char>::empty()
        } else {
            "local-hostname: "@ + text::trim(t) + "\n"@
        },
        _ => Seq::<char>::empty(),
    }
}

/// The text of a reply, if it has one.
pub open spec fn reply_text(reply: ReplyView) -> Option<Seq<char>> {
    match reply {
        ReplyView::Body(t) => Some(t),
        _ => None,
    }
}

/// The name of the service as a source of a seed.
pub open spec fn source_name(token: Option<Seq<char>>) -> Seq<char> {
    if token is Some {
        "ec2-imdsv2 (169.254.169.254)"@
    } else {
        "ec2-imdsv1 (169.254.169.254)"@
    }
}

/// The next step of an attempt, once the pending request has been answered.
pub open spec fn attempt_next(asking: AskingView, reply: ReplyView) -> AttemptView {
    match asking {
        AskingView::Token => {
            let token = match reply {
                ReplyView::Body(t) => Some(text::trim(t)),
                _ => None,
            };
            if reply is Unreachable {
                AttemptView::Done(None)
            } else {
                AttemptView::Ask {
                    asking: AskingView::InstanceId { token },
                    request: get_request("/latest/meta-data/instance-id"@, token),
                }
            }
        },
        AskingView::InstanceId { token } => match reply {
            ReplyView::Body(t) => if text::trim(t).len() == 0 {
                AttemptView::Done(None)
            } else {
                AttemptView::Ask {
                    asking: AskingView::Hostname { token, meta_data: id_line(text::trim(t)) },
                    request: get_request("/latest/meta-data/local-hostname"@, token),
                }
            },
            _ => AttemptView::Done(None),
        },
        AskingView::Hostname { token, meta_data } => AttemptView::Ask {
            asking: AskingView::UserData { token, meta_data: meta_data + hostname_line(reply) },
            request: get_request("/latest/user-data"@, token),
        },
        AskingView::UserData { token, meta_data } => AttemptView::Done(
            Some(
                SeedView { source: source_name(token), meta_data, user_data: reply_text(reply) },
            ),
        ),
    }
}

/// Begins an attempt to fetch a seed.
pub fn attempt() -> (r: Attempt)
    ensures
        r@ == attempt_begins(),
{
    let mut headers: Vec<(String, String)> = Vec::new();
    headers.push(("X-aws-ec2-metadata-token-ttl-seconds".to_owned(), "21600".to_owned()));
    headers.push(("Content-Length".to_owned(), "0".to_owned()));
    assert(http::header_views(headers@) =~= seq![
        ("X-aws-ec2-metadata-token-ttl-seconds"@, "21600"@),
        ("Content-Length"@, "0"@),
    ]);
    Attempt::Ask { asking: Asking::Token, request: request("PUT", "/latest/api/token", &headers) }
}

impl Asking {
    /// Takes the answer to the pending request.
    pub fn answer(self, reply: Reply) -> (r: Attempt)
        ensures
            r@ == attempt_next(self@, reply@),
    {
        match self {
            Asking::Token => {
                let token = match reply {
                    Reply::Unreachable => return Attempt::Done(None),
                    Reply::Refused => None,
                    Reply::Body(t) => Some(trimmed(t.as_str())),
                };
                let request = get("/latest/meta-data/instance-id", borrowed(&token));
                Attempt::Ask { asking: Asking::InstanceId { token }, request }
            },
            Asking::InstanceId { token } => {
                let id = match reply {
                    Reply::Body(t) => trimmed(t.as_str()),
                    _ => return Attempt::Done(None),
                };
                if id.as_str().is_empty() {
                    return Attempt::Done(None);
                }
                let mut meta_data = "instance-id: ".to_owned();
                meta_data.append(id.as_str());
                meta_data.append("\n");
                let request = get("/latest/meta-data/local-hostname", borrowed(&token));
                Attempt::Ask { asking: Asking::Hostname { token, meta_data }, request }
            },
            Asking::Hostname { token, meta_data } => {
                let ghost before = meta_data@;
                let mut meta = meta_data;
                if let Reply::Body(t) = &reply {
                    let h = trimmed(t.as_str());
                    if !h.as_str().is_empty() {
                        meta.append("local-hostname: ");
                        meta.append(h.as_str());
                        meta.append("\n");
                    }
                }
                assert(meta@ =~= before + hostname_line(reply@));
                let request = get("/latest/user-data", borrowed(&token));
                Attempt::Ask { asking: Asking::UserData { token, meta_data: meta }, request }
            },
            Asking::UserData { token, meta_data } => {
                let user_data = match reply {
                    Reply::Body(t) => Some(t),
                    _ => None,
                };
                let source = if token.is_some() {
                    "ec2-imdsv2 (169.254.169.254)".to_owned()
                } else {
                    "ec2-imdsv1 (169.254.169.254)".to_owned()
                };
                Attempt::Done(Some(Seed { source, meta_data, user_data }))
            },
        }
    }
}

/// Decides after an attempt: a seed is taken; without one the service is tried
/// again, every second, until the time is up or the seed was found elsewhere.
pub fn fetch(found: Option<Seed>, cancelled: bool, expired: bool) -> (r: Wait)
    ensures
        r == datasource::waits(found, cancelled, expired, 1000),
        r is Found <==> found is Some,
        r is GiveUp <==> found is None && (cancelled || expired),
{
    match found {
        Some(seed) => Wait::Found(seed),
        None => {
            if cancelled || expired {
                Wait::GiveUp
            } else {
                Wait::Sleep(1000)
            }
        },
    }
}

/// What an attempt comes to, given the replies to its requests.
pub open spec fn attempt_result(
    token: ReplyView,
    id: ReplyView,
    hostname: ReplyView,
    user_data: ReplyView,
) -> Option<SeedView> {
    let t = match token {
        ReplyView::Body(t) => Some(text::trim(t)),
        _ => None,
    };
    match (token, id) {
        (ReplyView::Unreachable, _) => None,
        (_, ReplyView::Body(i)) => if text::trim(i).len() == 0 {
            None
        } else {
            Some(
                SeedView {
                    source: source_name(t),
                    meta_data: id_line(text::trim(i)) + hostname_line(hostname),
                    user_data: reply_text(user_data),
                },
            )
        },
        _ => None,
    }
}

/// What the steps of an attempt lead to, where `world` answers every request.
pub open spec fn attempted(
    step: AttemptView,
    world: spec_fn(AskingView) -> ReplyView,
    fuel: nat,
) -> Option<AttemptView>
    decreases fuel,
{
    match step {
        AttemptView::Done(seed) => Some(step),
        AttemptView::Ask { asking, .. } => if fuel == 0 {
            None
        } else {
            attempted(attempt_next(asking, world(asking)), world, (fuel - 1) as nat)
        },
    }
}

/// An attempt is over after four requests at most, and gives a seed exactly if
/// the service is reachable and names an instance: a service that refuses a
/// token is asked without one.
pub proof fn attempt_is_short(world: spec_fn(AskingView) -> ReplyView)
    ensures
        ({
            let token = world(AskingView::Token);
            let t = match token {
                ReplyView::Body(t) => Some(text::trim(t)),
                _ => None,
            };
            let asking_id = AskingView::InstanceId { token: t };
            let id = world(asking_id);
            let meta = match id {
                ReplyView::Body(i) => id_line(text::trim(i)),
                _ => Seq::<char>::empty(),
            };
            let asking_name = AskingView::Hostname { token: t, meta_data: meta };
            let hostname = world(asking_name);
            let asking_data = AskingView::UserData {
                token: t,
                meta_data: meta + hostname_line(hostname),
            };
            attempted(attempt_begins(), world, 4) == Some(
                AttemptView::Done(attempt_result(token, id, hostname, world(asking_data))),
            )
        }),
{
    reveal_with_fuel(attempted, 5);
}

} // verus!
