//! JSON-RPC synchronization with the remote daemon: transport selection,
//! request envelope construction, and reply correlation.

use vstd::prelude::*;
use vstd::string::StrSliceExecFns;
use vstd::string::StringExecFns;
use crate::text::{views, spec_join};
use crate::trackers::TrackerCollection;

verus! {

/// How the sync request reaches the daemon, decided by the endpoint URL.
#[derive(Clone, Copy, Debug, PartialEq, Eq, Structural)]
pub enum Transport {
    Http,
    WebSocket,
}

/// An endpoint URL selects the HTTP transport exactly when it starts with
/// the four characters `http`; every other URL selects the WebSocket
/// transport.
pub open spec fn spec_uses_http(url: Seq<char>) -> bool {
    url.len() >= 4 && url.subrange(0, 4) == "http"@
}

/// Chooses the transport that a configured endpoint URL implies.
pub fn select_transport(url: &str) -> (t: Transport)
    ensures
        t == Transport::Http <==> spec_uses_http(url@),
{
    proof {
        reveal_strlit("http");
    }
    let n = url.unicode_len();
    if n < 4 {
        return Transport::WebSocket;
    }
    let mut i: usize = 0;
    while i < 4
        invariant
            i <= 4,
            4 <= url@.len(),
            "http"@.len() == 4,
            forall|k: int| 0 <= k < i ==> url@[k] == "http"@[k],
        decreases 4 - i,
    {
        if url.get_char(i) != "http".get_char(i) {
            assert(url@.subrange(0, 4) != "http"@) by {
                assert(url@.subrange(0, 4)[i as int] != "http"@[i as int]);
            }
            return Transport::WebSocket;
        }
        i = i + 1;
    }
    assert(url@.subrange(0, 4) =~= "http"@);
    Transport::Http
}

/// The lower-case hexadecimal digit for a value below sixteen.
pub open spec fn spec_hex_digit(n: int) -> char {
    if n == 0 {
        '0'
    } else if n == 1 {
        '1'
    } else if n == 2 {
        '2'
    } else if n == 3 {
        '3'
    } else if n == 4 {
        '4'
    } else if n == 5 {
        '5'
    } else if n == 6 {
        '6'
    } else if n == 7 {
        '7'
    } else if n == 8 {
        '8'
    } else if n == 9 {
        '9'
    } else if n == 10 {
        'a'
    } else if n == 11 {
        'b'
    } else if n == 12 {
        'c'
    } else if n == 13 {
        'd'
    } else if n == 14 {
        'e'
    } else {
        'f'
    }
}

/// How one character is written inside a JSON string literal: quote and
/// backslash get a backslash escape, control characters a `\u00` escape,
/// and every other character stands as itself.
pub open spec fn spec_escape_char(c: char) -> Seq<char> {
    if c == '"' {
        seq!['\\', '"']
    } else if c == '\\' {
        seq!['\\', '\\']
    } else if (c as u32) < 32 {
        seq!['\\', 'u', '0', '0', spec_hex_digit(c as u32 as int / 16), spec_hex_digit(
            c as u32 as int % 16,
        )]
    } else {
        seq![c]
    }
}

/// The body of a JSON string literal holding exactly the characters of `s`.
pub open spec fn spec_escape(s: Seq<char>) -> Seq<char>
    decreases s.len(),
{
    if s.len() == 0 {
        Seq::empty()
    } else {
        spec_escape(s.drop_last()) + spec_escape_char(s.last())
    }
}

fn hex_digit_str(n: u32) -> (r: &'static str)
    requires
        n < 16,
    ensures
        r@ == seq![spec_hex_digit(n as int)],
{
    proof {
        reveal_strlit("0");
        reveal_strlit("1");
        reveal_strlit("2");
        reveal_strlit("3");
        reveal_strlit("4");
        reveal_strlit("5");
        reveal_strlit("6");
        reveal_strlit("7");
        reveal_strlit("8");
        reveal_strlit("9");
        reveal_strlit("a");
        reveal_strlit("b");
        reveal_strlit("c");
        reveal_strlit("d");
        reveal_strlit("e");
        reveal_strlit("f");
    }
    if n == 0 {
        "0"
    } else if n == 1 {
        "1"
    } else if n == 2 {
        "2"
    } else if n == 3 {
        "3"
    } else if n == 4 {
        "4"
    } else if n == 5 {
        "5"
    } else if n == 6 {
        "6"
    } else if n == 7 {
        "7"
    } else if n == 8 {
        "8"
    } else if n == 9 {
        "9"
    } else if n == 10 {
        "a"
    } else if n == 11 {
        "b"
    } else if n == 12 {
        "c"
    } else if n == 13 {
        "d"
    } else if n == 14 {
        "e"
    } else {
        "f"
    }
}

/// Escapes `s` for embedding in a JSON string literal.
pub fn json_escape(s: &str) -> (r: String)
    ensures
        r@ == spec_escape(s@),
{
    proof {
        reveal_strlit("\\\"");
        reveal_strlit("\\\\");
        reveal_strlit("\\u00");
    }
    let n = s.unicode_len();
    let mut r = String::new();
    let mut i: usize = 0;
    assert(s@.take(0) =~= Seq::<char>::empty());
    while i < n
        invariant
            i <= n,
            n == s@.len(),
            r@ == spec_escape(s@.take(i as int)),
            "\\\""@ == seq!['\\', '"'],
            "\\\\"@ == seq!['\\', '\\'],
            "\\u00"@ == seq!['\\', 'u', '0', '0'],
        decreases n - i,
    {
        let c = s.get_char(i);
        proof {
            assert(s@.take(i + 1).drop_last() =~= s@.take(i as int));
            assert(s@.take(i + 1).last() == s@[i as int]);
        }
        if c == '"' {
            r.append("\\\"");
            assert(r@ =~= spec_escape(s@.take(i + 1)));
        } else if c == '\\' {
            r.append("\\\\");
            assert(r@ =~= spec_escape(s@.take(i + 1)));
        } else if (c as u32) < 32 {
            let code: u32 = c as u32;
            r.append("\\u00");
            r.append(hex_digit_str(code / 16));
            r.append(hex_digit_str(code % 16));
            assert(r@ =~= spec_escape(s@.take(i + 1)));
        } else {
            let piece = s.substring_char(i, i + 1);
            assert(piece@ =~= seq![c]);
            r.append(piece);
            assert(r@ =~= spec_escape(s@.take(i + 1)));
        }
        i = i + 1;
    }
    assert(s@.take(n as int) =~= s@);
    r
}

/// The serialized JSON-RPC envelope for one sync call: method
/// `aria2.changeGlobalOption`, correlation id `cron`, the daemon token as
/// `params[0]` and the comma-joined tracker list as the `bt-tracker`
/// option in `params[1]`.
pub open spec fn spec_envelope(key: Seq<char>, tracker_list: Seq<char>) -> Seq<char> {
    "{\"jsonrpc\":\"2.0\",\"method\":\"aria2.changeGlobalOption\",\"id\":\"cron\",\"params\":[\"token:"@
        + spec_escape(key) + "\",{\"bt-tracker\":\""@ + spec_escape(tracker_list) + "\"}]}"@
}

/// Builds the serialized JSON-RPC envelope from the daemon secret and the
/// comma-joined tracker list.
pub fn build_sync_request(secret_key: &str, tracker_list: &str) -> (r: String)
    ensures
        r@ == spec_envelope(secret_key@, tracker_list@),
{
    let mut r = String::from_str(
        "{\"jsonrpc\":\"2.0\",\"method\":\"aria2.changeGlobalOption\",\"id\":\"cron\",\"params\":[\"token:",
    );
    let key = json_escape(secret_key);
    r.append(key.as_str());
    r.append("\",{\"bt-tracker\":\"");
    let list = json_escape(tracker_list);
    r.append(list.as_str());
    r.append("\"}]}");
    r
}

/// How the daemon answered one sync call.
#[derive(Clone, Copy, Debug, PartialEq, Eq, Structural)]
pub enum RpcOutcome {
    /// The reply carries a `result` field: the option change was applied.
    Accepted,
    /// The reply carries no `result` field, so it reports an `error`: the
    /// exchange itself succeeded but the daemon refused the call.
    Rejected,
}

/// What a reply text contains: nothing when it is not one valid JSON
/// document; otherwise its string `id` field (if it has one) and whether
/// it carries a `result` field. The result depends on the text alone.
pub uninterp spec fn rpc_frame_fields(text: Seq<char>) -> Option<(Option<Seq<char>>, bool)>;

/// Relies on serde_json::from_str::<Value> to parse the reply as one JSON
/// document, and on Value::get / Value::as_str to read its string `id`
/// field and test for a `result` field.
#[verifier::external_body]
fn probe_frame(text: &str) -> (r: Option<(Option<String>, bool)>)
    ensures
        match r {
            None => rpc_frame_fields(text@) is None,
            Some(p) => rpc_frame_fields(text@) == Some(
                (
                    match p.0 {
                        Some(id) => Some(id@),
                        None => None::<Seq<char>>,
                    },
                    p.1,
                ),
            ),
        },
{
    let doc: serde_json::Value = match serde_json::from_str(text) {
        Ok(v) => v,
        Err(_) => return None,
    };
    let id = match doc.get("id") {
        Some(v) => match v.as_str() {
            Some(s) => Some(s.to_string()),
            None => None,
        },
        None => None,
    };
    Some((id, doc.get("result").is_some()))
}

/// Why a reply could not be interpreted.
#[derive(Clone, Copy, Debug, PartialEq, Eq, Structural)]
pub enum RpcError {
    /// The reply body is not one valid JSON document.
    MalformedReply,
}

/// The reply is not one valid JSON document.
pub open spec fn frame_malformed(f: Seq<char>) -> bool {
    rpc_frame_fields(f) is None
}

/// The reply is a JSON document whose `id` field is the correlation id
/// `cron`.
pub open spec fn frame_matches(f: Seq<char>) -> bool {
    rpc_frame_fields(f) matches Some(p) && p.0 == Some("cron"@)
}

/// The outcome a matching reply reports.
pub open spec fn frame_outcome(f: Seq<char>) -> RpcOutcome {
    match rpc_frame_fields(f) {
        Some(p) => if p.1 {
            RpcOutcome::Accepted
        } else {
            RpcOutcome::Rejected
        },
        None => RpcOutcome::Rejected,
    }
}

/// Interprets the body of an HTTP transport reply: any valid JSON document
/// answers the call, by its `result` or `error` key; anything else is a
/// malformed reply.
pub fn classify_http_response(text: &str) -> (r: Result<RpcOutcome, RpcError>)
    ensures
        match rpc_frame_fields(text@) {
            None => r == Err::<RpcOutcome, RpcError>(RpcError::MalformedReply),
            Some(p) => r == Ok::<RpcOutcome, RpcError>(
                if p.1 {
                    RpcOutcome::Accepted
                } else {
                    RpcOutcome::Rejected
                },
            ),
        },
{
    match probe_frame(text) {
        None => Err(RpcError::MalformedReply),
        Some((_, true)) => Ok(RpcOutcome::Accepted),
        Some((_, false)) => Ok(RpcOutcome::Rejected),
    }
}

/// What the WebSocket read loop does with one incoming text frame.
#[derive(Clone, Copy, Debug, PartialEq, Eq, Structural)]
pub enum WsStep {
    /// The frame belongs to someone else (wrong or missing id): discard it
    /// and keep reading.
    Ignore,
    /// The frame answers the sync call: stop reading.
    Reply(RpcOutcome),
    /// The frame is not one valid JSON document: the exchange fails.
    Malformed,
}

/// Decides what to do with one incoming WebSocket text frame: discard any
/// well-formed frame whose id is not the correlation id `cron`, answer on
/// the first frame whose id matches, fail on a frame that is not JSON.
pub fn ws_step(frame: &str) -> (r: WsStep)
    ensures
        frame_malformed(frame@) ==> r == WsStep::Malformed,
        frame_matches(frame@) ==> r == WsStep::Reply(frame_outcome(frame@)),
        !frame_malformed(frame@) && !frame_matches(frame@) ==> r == WsStep::Ignore,
{
    match probe_frame(frame) {
        None => WsStep::Malformed,
        Some((id_opt, has_result)) => {
            let matched: bool = match &id_opt {
                Some(id) => {
                    let cron = String::from_str("cron");
                    *id == cron
                },
                None => false,
            };
            if matched {
                if has_result {
                    WsStep::Reply(RpcOutcome::Accepted)
                } else {
                    WsStep::Reply(RpcOutcome::Rejected)
                }
            } else {
                WsStep::Ignore
            }
        },
    }
}

/// How a whole stream of frames resolves the sync call.
#[derive(Clone, Copy, Debug, PartialEq, Eq, Structural)]
pub enum Correlation {
    /// The first matching frame answered the call.
    Matched(RpcOutcome),
    /// Every frame was well-formed but none matched: the call is still
    /// unanswered when the stream ends.
    NoReply,
    /// A frame that is not valid JSON arrived before any matching frame.
    Malformed,
}

/// The resolution of a frame stream: frames are read in order, well-formed
/// non-matching frames are discarded, and the first matching frame decides.
pub open spec fn spec_correlate(frames: Seq<Seq<char>>) -> Correlation
    decreases frames.len(),
{
    if frames.len() == 0 {
        Correlation::NoReply
    } else if frame_malformed(frames[0]) {
        Correlation::Malformed
    } else if frame_matches(frames[0]) {
        Correlation::Matched(frame_outcome(frames[0]))
    } else {
        spec_correlate(frames.drop_first())
    }
}

/// Resolves a finite stream of received text frames against the sync call.
pub fn correlate_frames(frames: &Vec<String>) -> (r: Correlation)
    ensures
        r == spec_correlate(views(frames@)),
{
    let mut i: usize = 0;
    proof {
        assert(views(frames@).skip(0) =~= views(frames@));
    }
    while i < frames.len()
        invariant
            i <= frames@.len(),
            spec_correlate(views(frames@)) == spec_correlate(views(frames@).skip(i as int)),
        decreases frames@.len() - i,
    {
        let ghost vs = views(frames@);
        proof {
            assert(vs.skip(i as int).len() > 0);
            assert(vs.skip(i as int)[0] == vs[i as int]);
            assert(vs.skip(i as int).drop_first() =~= vs.skip(i + 1));
        }
        match ws_step(frames[i].as_str()) {
            WsStep::Malformed => {
                return Correlation::Malformed;
            },
            WsStep::Reply(o) => {
                return Correlation::Matched(o);
            },
            WsStep::Ignore => {},
        }
        i = i + 1;
    }
    proof {
        assert(views(frames@).skip(frames@.len() as int) =~= Seq::<Seq<char>>::empty());
    }
    Correlation::NoReply
}

/// The correlation reacts to the first frame whose id matches, however
/// many well-formed non-matching frames precede it.
pub proof fn lemma_correlation_skips_nonmatching(frames: Seq<Seq<char>>, i: int)
    requires
        0 <= i < frames.len(),
        frame_matches(frames[i]),
        forall|j: int| 0 <= j < i ==> !frame_malformed(#[trigger] frames[j]) && !frame_matches(
            frames[j],
        ),
    ensures
        spec_correlate(frames) == Correlation::Matched(frame_outcome(frames[i])),
    decreases i,
{
    if i == 0 {
    } else {
        let rest = frames.drop_first();
        assert(rest[i - 1] == frames[i]);
        assert forall|j: int| 0 <= j < i - 1 implies !frame_malformed(#[trigger] rest[j])
            && !frame_matches(rest[j]) by {
            assert(rest[j] == frames[j + 1]);
        }
        lemma_correlation_skips_nonmatching(rest, i - 1);
    }
}

/// One sync call, ready for delivery: the transport the endpoint implies
/// and the serialized JSON-RPC envelope to send.
pub struct SyncPlan {
    pub transport: Transport,
    pub body: String,
}

/// Prepares the sync call for a tracker collection: joins the entries with
/// commas, wraps them with the daemon secret in the JSON-RPC envelope, and
/// selects the transport that the endpoint URL implies.
pub fn plan_sync(aria2_url: &str, secret_key: &str, trackers: &TrackerCollection) -> (r: SyncPlan)
    ensures
        r.transport == Transport::Http <==> spec_uses_http(aria2_url@),
        r.body@ == spec_envelope(secret_key@, spec_join(trackers@, ","@)),
{
    proof {
        reveal_strlit(",");
    }
    let list = trackers.join(",");
    let body = build_sync_request(secret_key, list.as_str());
    let transport = select_transport(aria2_url);
    SyncPlan { transport, body }
}

} // verus!
