use vstd::prelude::*;
use crate::text::{same_text, has_prefix, chars_of, blank, is_blank, begins_with, decimal, push_decimal};

verus! {

/// A scene that the control API can switch to.
#[derive(Clone, Copy, PartialEq, Eq, Structural, Debug)]
pub enum ControlScene {
    Dashboard,
    Coding,
    Suit,
    Roam,
}

/// A command that the control API hands to the dashboard.
#[derive(Clone, Copy, PartialEq, Eq, Structural, Debug)]
pub enum ControlCommand {
    /// Back to the dashboard, with the mascot at its start.
    Reset,
    /// Switch to a scene.
    SetScene(ControlScene),
}

/// The scene that a path segment names, with its aliases.
pub open spec fn scene_named(name: Seq<char>) -> Option<ControlScene> {
    if name == "dashboard"@ || name == "walking"@ || name == "walk"@ {
        Some(ControlScene::Dashboard)
    } else if name == "coding"@ || name == "laptop"@ {
        Some(ControlScene::Coding)
    } else if name == "suit"@ || name == "suited"@ {
        Some(ControlScene::Suit)
    } else if name == "roam"@ || name == "roaming"@ {
        Some(ControlScene::Roam)
    } else {
        None
    }
}

impl ControlScene {
    /// The scene that the path segment `value` names (see `scene_named`).
    pub fn from_path(value: &str) -> (r: Option<Self>)
        ensures
            r == scene_named(value@),
    {
        if same_text(value, "dashboard") || same_text(value, "walking") || same_text(value, "walk") {
            Some(ControlScene::Dashboard)
        } else if same_text(value, "coding") || same_text(value, "laptop") {
            Some(ControlScene::Coding)
        } else if same_text(value, "suit") || same_text(value, "suited") {
            Some(ControlScene::Suit)
        } else if same_text(value, "roam") || same_text(value, "roaming") {
            Some(ControlScene::Roam)
        } else {
            None
        }
    }
}

// ---------------------------------------------------------------------------
// Requests
// ---------------------------------------------------------------------------

/// End of the first line of `s` from `i` on: the position of the next newline, or the end.
pub open spec fn line_end(s: Seq<char>, i: nat) -> nat
    decreases s.len() - i,
{
    if i >= s.len() {
        i
    } else if s[i as int] == '\n' {
        i
    } else {
        line_end(s, i + 1)
    }
}

/// First non-blank position of `s[i..e]`, or `e`.
pub open spec fn skip_blanks(s: Seq<char>, i: nat, e: nat) -> nat
    decreases e - i,
{
    if i >= e {
        e
    } else if is_blank(s[i as int]) {
        skip_blanks(s, i + 1, e)
    } else {
        i
    }
}

/// First blank position of `s[i..e]`, or `e`.
pub open spec fn skip_word(s: Seq<char>, i: nat, e: nat) -> nat
    decreases e - i,
{
    if i >= e {
        e
    } else if is_blank(s[i as int]) {
        i
    } else {
        skip_word(s, i + 1, e)
    }
}

/// The first two blank-separated words of the first line of `s` (the method and the
/// path of an HTTP request line), if it has two.
pub open spec fn request_words(s: Seq<char>) -> Option<(Seq<char>, Seq<char>)> {
    let e = line_end(s, 0);
    let a0 = skip_blanks(s, 0, e);
    let a1 = skip_word(s, a0, e);
    let b0 = skip_blanks(s, a1, e);
    let b1 = skip_word(s, b0, e);
    if a0 >= e || b0 >= e {
        None
    } else {
        Some((s.subrange(a0 as int, a1 as int), s.subrange(b0 as int, b1 as int)))
    }
}

proof fn lemma_skip_blanks_bounds(s: Seq<char>, i: nat, e: nat)
    requires
        i <= e,
    ensures
        i <= skip_blanks(s, i, e) <= e,
    decreases e - i,
{
    if i < e {
        lemma_skip_blanks_bounds(s, i + 1, e);
    }
}

proof fn lemma_skip_word_bounds(s: Seq<char>, i: nat, e: nat)
    requires
        i <= e,
    ensures
        i <= skip_word(s, i, e) <= e,
    decreases e - i,
{
    if i < e {
        lemma_skip_word_bounds(s, i + 1, e);
    }
}

proof fn lemma_line_end_bounds(s: Seq<char>, i: nat)
    requires
        i <= s.len(),
    ensures
        i <= line_end(s, i) <= s.len(),
    decreases s.len() - i,
{
    if i < s.len() {
        lemma_line_end_bounds(s, i + 1);
    }
}

/// Moves `i` forward over blank characters of `v[i..e]`.
fn skip_blanks_at(v: &Vec<char>, i: usize, e: usize) -> (r: usize)
    requires
        i <= e <= v.len(),
    ensures
        r == skip_blanks(v@, i as nat, e as nat),
{
    let mut k = i;
    while k < e && blank(v[k])
        invariant
            i <= k <= e <= v.len(),
            skip_blanks(v@, i as nat, e as nat) == skip_blanks(v@, k as nat, e as nat),
        decreases e - k,
    {
        k = k + 1;
    }
    k
}

/// Moves `i` forward over non-blank characters of `v[i..e]`.
fn skip_word_at(v: &Vec<char>, i: usize, e: usize) -> (r: usize)
    requires
        i <= e <= v.len(),
    ensures
        r == skip_word(v@, i as nat, e as nat),
{
    let mut k = i;
    while k < e && !blank(v[k])
        invariant
            i <= k <= e <= v.len(),
            skip_word(v@, i as nat, e as nat) == skip_word(v@, k as nat, e as nat),
        decreases e - k,
    {
        k = k + 1;
    }
    k
}

/// The method and path of an HTTP request: the first two words of its first line
/// (see `request_words`).
pub fn request_line(request: &str) -> (r: Option<(&str, &str)>)
    ensures
        match r {
            Some((method, path)) => request_words(request@) == Some((method@, path@)),
            None => request_words(request@) is None,
        },
{
    let v = chars_of(request);
    let n = v.len();
    let mut e: usize = 0;
    while e < n && v[e] != '\n'
        invariant
            e <= n == v@.len(),
            line_end(v@, 0) == line_end(v@, e as nat),
        decreases n - e,
    {
        e = e + 1;
    }
    let a0 = skip_blanks_at(&v, 0, e);
    proof {
        lemma_skip_blanks_bounds(v@, 0, e as nat);
    }
    let a1 = skip_word_at(&v, a0, e);
    proof {
        lemma_skip_word_bounds(v@, a0 as nat, e as nat);
    }
    let b0 = skip_blanks_at(&v, a1, e);
    proof {
        lemma_skip_blanks_bounds(v@, a1 as nat, e as nat);
    }
    let b1 = skip_word_at(&v, b0, e);
    proof {
        lemma_skip_word_bounds(v@, b0 as nat, e as nat);
    }
    if a0 >= e || b0 >= e {
        return None;
    }
    let method = request.substring_char(a0, a1);
    let path = request.substring_char(b0, b1);
    Some((method, path))
}

/// Body of the answer to a request that is not HTTP.
pub const BAD_REQUEST_BODY: &'static str = "{\"ok\":false,\"error\":\"bad request\"}";
/// Body of the answer to a request for an unknown endpoint.
pub const UNKNOWN_ENDPOINT_BODY: &'static str = "{\"ok\":false,\"error\":\"unknown endpoint\"}";
/// Body of a positive answer.
pub const OK_BODY: &'static str = "{\"ok\":true}";
/// Body of the answer to `GET /animations`.
pub const ANIMATIONS_BODY: &'static str = "{\"animations\":[\"dashboard\",\"walking\",\"coding\",\"suit\",\"roam\"]}";
/// Body of the answer when the dashboard no longer takes commands.
pub const UNAVAILABLE_BODY: &'static str = "{\"ok\":false,\"error\":\"dashboard unavailable\"}";

/// What to do with a request: answer it at once, or hand a command to the dashboard
/// (and answer according to whether it took it, see `command_response`).
#[derive(Clone, Copy, Debug)]
pub enum Reply {
    Respond { status: u16, body: &'static str },
    Dispatch(ControlCommand),
}

/// The scene that a `POST` path selects: `/scene/<name>` or `/animation/<name>`.
pub open spec fn scene_path(path: Seq<char>) -> Option<ControlScene> {
    if begins_with(path, "/scene/"@) {
        scene_named(path.skip(7))
    } else if begins_with(path, "/animation/"@) {
        scene_named(path.skip(11))
    } else {
        None
    }
}

/// The reply to a request whose first line holds `words` (see `request_words`):
/// `GET /health`, `GET /animations`, `POST /reset` and `POST` to a scene's path are
/// known; other requests are answered 404, and what is no request 400.
pub open spec fn reply_for(words: Option<(Seq<char>, Seq<char>)>) -> Reply {
    match words {
        None => Reply::Respond { status: 400, body: BAD_REQUEST_BODY },
        Some((method, path)) => if method == "GET"@ && path == "/health"@ {
            Reply::Respond { status: 200, body: OK_BODY }
        } else if method == "GET"@ && path == "/animations"@ {
            Reply::Respond { status: 200, body: ANIMATIONS_BODY }
        } else if method == "POST"@ && path == "/reset"@ {
            Reply::Dispatch(ControlCommand::Reset)
        } else if method == "POST"@ {
            match scene_path(path) {
                Some(scene) => Reply::Dispatch(ControlCommand::SetScene(scene)),
                None => Reply::Respond { status: 404, body: UNKNOWN_ENDPOINT_BODY },
            }
        } else {
            Reply::Respond { status: 404, body: UNKNOWN_ENDPOINT_BODY }
        },
    }
}

/// `POST /scene/<name>` and `POST /animation/<name>` both switch to the scene that
/// `<name>` names, and are refused with 404 when it names none.
pub proof fn lemma_scene_paths_agree(name: Seq<char>)
    ensures
        reply_for(Some(("POST"@, "/scene/"@ + name))) == match scene_named(name) {
            Some(scene) => Reply::Dispatch(ControlCommand::SetScene(scene)),
            None => Reply::Respond { status: 404, body: UNKNOWN_ENDPOINT_BODY },
        },
        reply_for(Some(("POST"@, "/animation/"@ + name))) == match scene_named(name) {
            Some(scene) => Reply::Dispatch(ControlCommand::SetScene(scene)),
            None => Reply::Respond { status: 404, body: UNKNOWN_ENDPOINT_BODY },
        },
{
    reveal_strlit("/scene/");
    reveal_strlit("/animation/");
    reveal_strlit("/reset");
    reveal_strlit("POST");
    reveal_strlit("GET");
    assert("POST"@ != "GET"@) by {
        assert("POST"@.len() != "GET"@.len());
    }
    let p1 = "/scene/"@ + name;
    let p2 = "/animation/"@ + name;
    assert(p1.subrange(0, 7) =~= "/scene/"@);
    assert(p1.skip(7) =~= name);
    assert(p1 != "/reset"@) by {
        assert(p1[1] != "/reset"@[1]);
    }
    assert(p2.subrange(0, 11) =~= "/animation/"@);
    assert(p2.skip(11) =~= name);
    assert(!begins_with(p2, "/scene/"@)) by {
        assert(p2[1] != "/scene/"@[1]);
    }
    assert(p2 != "/reset"@) by {
        assert(p2[1] != "/reset"@[1]);
    }
}

/// Only `POST` requests hand commands to the dashboard; every other request is
/// answered at once.
pub proof fn lemma_only_post_commands(words: Option<(Seq<char>, Seq<char>)>)
    ensures
        reply_for(words) is Dispatch ==> (words matches Some((method, _)) && method == "POST"@),
{
}

/// The part of `path` after its first `len` characters.
fn tail_of(path: &str, len: usize) -> (r: &str)
    requires
        len <= path@.len(),
    ensures
        r@ == path@.skip(len as int),
{
    let n = path.unicode_len();
    path.substring_char(len, n)
}

/// What to do with the request text `request` (see `reply_for`).
pub fn route_request(request: &str) -> (r: Reply)
    ensures
        r == reply_for(request_words(request@)),
{
    let (method, path) = match request_line(request) {
        Some(words) => words,
        None => return Reply::Respond { status: 400, body: BAD_REQUEST_BODY },
    };
    if same_text(method, "GET") && same_text(path, "/health") {
        Reply::Respond { status: 200, body: OK_BODY }
    } else if same_text(method, "GET") && same_text(path, "/animations") {
        Reply::Respond { status: 200, body: ANIMATIONS_BODY }
    } else if same_text(method, "POST") && same_text(path, "/reset") {
        Reply::Dispatch(ControlCommand::Reset)
    } else if same_text(method, "POST") {
        proof {
            reveal_strlit("/scene/");
            reveal_strlit("/animation/");
        }
        let scene = if has_prefix(path, "/scene/") {
            ControlScene::from_path(tail_of(path, 7))
        } else if has_prefix(path, "/animation/") {
            ControlScene::from_path(tail_of(path, 11))
        } else {
            None
        };
        match scene {
            Some(scene) => Reply::Dispatch(ControlCommand::SetScene(scene)),
            None => Reply::Respond { status: 404, body: UNKNOWN_ENDPOINT_BODY },
        }
    } else {
        Reply::Respond { status: 404, body: UNKNOWN_ENDPOINT_BODY }
    }
}

/// The answer once a command was handed on: 202 when the dashboard took it, 503 when
/// it no longer takes commands.
pub fn command_response(sent: bool) -> (r: (u16, &'static str))
    ensures
        r == (if sent { (202u16, OK_BODY) } else { (503u16, UNAVAILABLE_BODY) }),
{
    if sent {
        (202, OK_BODY)
    } else {
        (503, UNAVAILABLE_BODY)
    }
}

/// The reason phrase that goes with a status code (`OK` for codes the API does not use).
pub open spec fn reason_for(status: u16) -> &'static str {
    if status == 200 {
        "OK"
    } else if status == 202 {
        "Accepted"
    } else if status == 400 {
        "Bad Request"
    } else if status == 404 {
        "Not Found"
    } else if status == 503 {
        "Service Unavailable"
    } else {
        "OK"
    }
}

/// The reason phrase of `status` (see `reason_for`).
pub fn reason_phrase(status: u16) -> (r: &'static str)
    ensures
        r == reason_for(status),
{
    match status {
        200 => "OK",
        202 => "Accepted",
        400 => "Bad Request",
        404 => "Not Found",
        503 => "Service Unavailable",
        _ => "OK",
    }
}

/// The HTTP/1.1 response that carries the JSON `body` with `status`.
pub open spec fn response_text(status: u16, body: &str) -> Seq<char> {
    "HTTP/1.1 "@ + decimal(status as nat) + " "@ + reason_for(status)@
        + "\r\nContent-Type: application/json\r\nContent-Length: "@
        + decimal(body.len() as nat) + "\r\nConnection: close\r\n\r\n"@ + body@
}

/// The HTTP/1.1 response that carries the JSON `body` with `status`, its length given
/// in bytes, the connection to be closed after it.
pub fn http_response(status: u16, body: &str) -> (r: String)
    ensures
        r@ == response_text(status, body),
{
    let mut s = String::new();
    s.append("HTTP/1.1 ");
    push_decimal(&mut s, status as u64);
    s.append(" ");
    s.append(reason_phrase(status));
    s.append("\r\nContent-Type: application/json\r\nContent-Length: ");
    push_decimal(&mut s, body.len() as u64);
    s.append("\r\nConnection: close\r\n\r\n");
    s.append(body);
    assert(s@ =~= response_text(status, body));
    s
}

} // verus!
