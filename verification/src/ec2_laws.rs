//! What holds of every attempt to fetch a seed from the metadata service.
use vstd::prelude::*;

use crate::datasource::SeedView;
use crate::ec2;
use crate::ec2::{AskingView, AttemptView, ReplyView};
use crate::http;
use crate::http_laws;
use crate::text;

verus! {

/// What the service answers counts as text exactly if its status is 200, and the
/// text is then the whole of the body; any other status is a refusal. What is no
/// response counts as no answer.
pub proof fn what_an_answer_counts_as(raw: Seq<u8>, t: Seq<char>)
    ensures
        ec2::read_reply(None) is Unreachable,
        ec2::read_reply(Some(raw)) is Unreachable <==> http::response(raw) is Err,
        http::response(raw) matches Ok((code, body)) ==> {
            &&& ec2::read_reply(Some(raw)) is Refused <==> code != 200
            &&& ec2::read_reply(Some(raw)) is Body <==> code == 200
            &&& code == 200 && vstd::utf8::valid_utf8(body) ==> ec2::read_reply(Some(raw))
                == ReplyView::Body(vstd::utf8::decode_utf8(body))
            &&& code == 200 && body == vstd::utf8::encode_utf8(t) ==> ec2::read_reply(Some(raw))
                == ReplyView::Body(t)
        },
{
    vstd::utf8::encode_utf8_valid_utf8(t);
    vstd::utf8::encode_utf8_decode_utf8(t);
}

/// A text that the service sends with status 200 is what is read, all of it,
/// be it sent at once or in chunks.
pub proof fn sent_text_is_read(
    head: Seq<char>,
    t: Seq<char>,
    parts: Seq<Seq<u8>>,
    lines: Seq<Seq<u8>>,
    end: Seq<u8>,
    trailer: Seq<u8>,
)
    requires
        http_laws::is_head(head),
    ensures
        http::head_of(head) == Ok::<(u16, bool), Seq<char>>((200, false)) ==> ec2::read_reply(
            Some(http_laws::response_bytes(head, vstd::utf8::encode_utf8(t))),
        ) == ReplyView::Body(t),
        http::head_of(head) == Ok::<(u16, bool), Seq<char>>((200, true)) && http_laws::sendable(
            parts,
            lines,
            end,
        ) && http_laws::all_parts(parts) == vstd::utf8::encode_utf8(t) ==> ec2::read_reply(
            Some(
                http_laws::response_bytes(
                    head,
                    http_laws::chunks(parts, lines, end, trailer),
                ),
            ),
        ) == ReplyView::Body(t),
{
    vstd::utf8::encode_utf8_valid_utf8(t);
    vstd::utf8::encode_utf8_decode_utf8(t);
    if http::head_of(head) == Ok::<(u16, bool), Seq<char>>((200, false)) {
        http_laws::plain_body_is_read_back(head, 200, vstd::utf8::encode_utf8(t));
    }
    if http::head_of(head) == Ok::<(u16, bool), Seq<char>>((200, true)) && http_laws::sendable(
        parts,
        lines,
        end,
    ) {
        http_laws::chunked_body_is_read_back(head, 200, parts, lines, end, trailer);
    }
}

/// The user-data of the seed is the text that the service answers, whatever the
/// text; there is none exactly if the service refuses it or does not answer.
/// What was known before is kept.
pub proof fn user_data_is_what_the_service_says(
    token: Option<Seq<char>>,
    meta_data: Seq<char>,
    t: Seq<char>,
)
    ensures
        ({
            let asking = AskingView::UserData { token, meta_data };
            let source = match token {
                Some(_) => "ec2-imdsv2 (169.254.169.254)"@,
                None => "ec2-imdsv1 (169.254.169.254)"@,
            };
            &&& ec2::attempt_next(asking, ReplyView::Body(t)) == AttemptView::Done(
                Some(SeedView { source, meta_data, user_data: Some(t) }),
            )
            &&& ec2::attempt_next(asking, ReplyView::Refused) == AttemptView::Done(
                Some(SeedView { source, meta_data, user_data: None }),
            )
            &&& ec2::attempt_next(asking, ReplyView::Unreachable) == AttemptView::Done(
                Some(SeedView { source, meta_data, user_data: None }),
            )
        }),
{
}

/// The service is asked for a token first. It is then asked for the instance id,
/// with the token if it gave one and without one if it refused; where it does not
/// answer, the attempt is over.
pub proof fn a_token_is_asked_for_first(t: Seq<char>)
    ensures
        ec2::attempt_begins() == (AttemptView::Ask {
            asking: AskingView::Token,
            request: "PUT /latest/api/token HTTP/1.1\r\nHost: 169.254.169.254\r\nConnection: close\r\nX-aws-ec2-metadata-token-ttl-seconds: 21600\r\nContent-Length: 0\r\n\r\n"@,
        }),
        ec2::attempt_next(AskingView::Token, ReplyView::Unreachable) == AttemptView::Done(None),
        ec2::attempt_next(AskingView::Token, ReplyView::Refused) == (AttemptView::Ask {
            asking: AskingView::InstanceId { token: None },
            request: ec2::get_request("/latest/meta-data/instance-id"@, None),
        }),
        ec2::attempt_next(AskingView::Token, ReplyView::Body(t)) == (AttemptView::Ask {
            asking: AskingView::InstanceId { token: Some(text::trim(t)) },
            request: ec2::get_request("/latest/meta-data/instance-id"@, Some(text::trim(t))),
        }),
{
    let ttl = ("X-aws-ec2-metadata-token-ttl-seconds"@, "21600"@);
    let length = ("Content-Length"@, "0"@);
    let none = Seq::<(Seq<char>, Seq<char>)>::empty();
    assert(seq![ttl, length] =~= none.push(ttl).push(length));
    http_laws::request_line_by_line("PUT"@, "/latest/api/token"@, none, ttl.0, ttl.1);
    http_laws::request_line_by_line(
        "PUT"@,
        "/latest/api/token"@,
        none.push(ttl),
        length.0,
        length.1,
    );
    reveal_strlit("PUT");
    reveal_strlit(" ");
    reveal_strlit("/latest/api/token");
    reveal_strlit(" HTTP/1.1\r\nHost: 169.254.169.254\r\nConnection: close\r\n\r\n");
    reveal_strlit("X-aws-ec2-metadata-token-ttl-seconds");
    reveal_strlit(": ");
    reveal_strlit("21600");
    reveal_strlit("\r\n\r\n");
    reveal_strlit("Content-Length");
    reveal_strlit("0");
    reveal_strlit("PUT /latest/api/token HTTP/1.1\r\nHost: 169.254.169.254\r\nConnection: close\r\nX-aws-ec2-metadata-token-ttl-seconds: 21600\r\nContent-Length: 0\r\n\r\n");
    assert(ec2::token_request()
        =~= "PUT /latest/api/token HTTP/1.1\r\nHost: 169.254.169.254\r\nConnection: close\r\nX-aws-ec2-metadata-token-ttl-seconds: 21600\r\nContent-Length: 0\r\n\r\n"@);
}

/// A path is asked for by name, and the token, if there is one, goes along.
pub proof fn the_token_goes_along(path: Seq<char>, token: Seq<char>)
    ensures
        ec2::get_request(path, None) == "GET "@ + path
            + " HTTP/1.1\r\nHost: 169.254.169.254\r\nConnection: close\r\n\r\n"@,
        ec2::get_request(path, Some(token)) == "GET "@ + path
            + " HTTP/1.1\r\nHost: 169.254.169.254\r\nConnection: close\r\nX-aws-ec2-metadata-token: "@
            + token + "\r\n\r\n"@,
{
    let name = "X-aws-ec2-metadata-token"@;
    let none = Seq::<(Seq<char>, Seq<char>)>::empty();
    assert(seq![(name, token)] =~= none.push((name, token)));
    http_laws::request_line_by_line("GET"@, path, none, name, token);
    reveal_strlit("GET");
    reveal_strlit(" ");
    reveal_strlit("GET ");
    reveal_strlit(": ");
    reveal_strlit("\r\n\r\n");
    reveal_strlit("X-aws-ec2-metadata-token");
    reveal_strlit(" HTTP/1.1\r\nHost: 169.254.169.254\r\nConnection: close\r\n\r\n");
    reveal_strlit(" HTTP/1.1\r\nHost: 169.254.169.254\r\nConnection: close\r\nX-aws-ec2-metadata-token: ");
    assert(ec2::get_request(path, None) =~= "GET "@ + path
        + " HTTP/1.1\r\nHost: 169.254.169.254\r\nConnection: close\r\n\r\n"@);
    assert(ec2::get_request(path, Some(token)) =~= "GET "@ + path
        + " HTTP/1.1\r\nHost: 169.254.169.254\r\nConnection: close\r\nX-aws-ec2-metadata-token: "@
        + token + "\r\n\r\n"@);
}

/// Whatever instance id the service names, unless it is blank, becomes the first
/// line of the meta-data, and the host name is asked for next; without one the
/// attempt is over. The token is kept.
pub proof fn the_instance_id_is_the_first_line(token: Option<Seq<char>>, t: Seq<char>)
    ensures
        ({
            let asking = AskingView::InstanceId { token };
            let id = text::trim(t);
            &&& ec2::attempt_next(asking, ReplyView::Refused) == AttemptView::Done(None)
            &&& ec2::attempt_next(asking, ReplyView::Unreachable) == AttemptView::Done(None)
            &&& id.len() == 0 ==> ec2::attempt_next(asking, ReplyView::Body(t))
                == AttemptView::Done(None)
            &&& id.len() > 0 ==> ec2::attempt_next(asking, ReplyView::Body(t)) == (
            AttemptView::Ask {
                asking: AskingView::Hostname {
                    token,
                    meta_data: "instance-id: "@ + id + "\n"@,
                },
                request: ec2::get_request("/latest/meta-data/local-hostname"@, token),
            })
        }),
{
}

/// Whatever host name the service gives, unless it is blank, becomes another line
/// of the meta-data; without one the meta-data stays. Either way the user-data is
/// asked for next, with the same token.
pub proof fn the_host_name_is_the_next_line(
    token: Option<Seq<char>>,
    meta_data: Seq<char>,
    reply: ReplyView,
)
    ensures
        ({
            let named = reply matches ReplyView::Body(t) && text::trim(t).len() > 0;
            &&& ec2::attempt_next(AskingView::Hostname { token, meta_data }, reply) == (
            AttemptView::Ask {
                asking: AskingView::UserData {
                    token,
                    meta_data: if named {
                        meta_data + ("local-hostname: "@ + text::trim(reply->Body_0) + "\n"@)
                    } else {
                        meta_data
                    },
                },
                request: ec2::get_request("/latest/user-data"@, token),
            })
        }),
{
    assert(meta_data + Seq::<char>::empty() =~= meta_data);
}

/// An attempt gives a seed exactly if the service answers the request for a
/// token, with one or without, and names an instance. The seed has the user-data
/// that the service answers, whatever it is, and none only if that request fails;
/// the host name makes no difference to that.
pub proof fn what_an_attempt_gives(
    token: ReplyView,
    id: ReplyView,
    hostname: ReplyView,
    user_data: ReplyView,
)
    ensures
        ({
            let r = ec2::attempt_result(token, id, hostname, user_data);
            &&& r is Some <==> !(token is Unreachable) && id is Body && text::trim(
                id->Body_0,
            ).len() > 0
            &&& r matches Some(seed) ==> {
                &&& user_data matches ReplyView::Body(t) ==> seed.user_data == Some(t)
                &&& !(user_data is Body) ==> seed.user_data is None
                &&& seed.source == if token is Body {
                    "ec2-imdsv2 (169.254.169.254)"@
                } else {
                    "ec2-imdsv1 (169.254.169.254)"@
                }
                &&& ("instance-id: "@ + text::trim(id->Body_0) + "\n"@).is_prefix_of(seed.meta_data)
                &&& seed.meta_data == ("instance-id: "@ + text::trim(id->Body_0) + "\n"@)
                    + if hostname is Body && text::trim(hostname->Body_0).len() > 0 {
                    "local-hostname: "@ + text::trim(hostname->Body_0) + "\n"@
                } else {
                    Seq::<char>::empty()
                }
            }
        }),
{
    if let Some(seed) = ec2::attempt_result(token, id, hostname, user_data) {
        let front = "instance-id: "@ + text::trim(id->Body_0) + "\n"@;
        assert(seed.meta_data.take(front.len() as int) =~= front);
    }
}

} // verus!
