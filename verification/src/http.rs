//! The server's side of HTTP: which request asks for what, and the bytes
//! of each answer.

use vstd::prelude::*;
use vstd::string::StringSliceAdditionalSpecFns;

verus! {

/// What a request asks for.
#[derive(Clone, Copy, PartialEq, Eq, Structural, Debug)]
pub enum Route {
    /// The home page.
    Home,
    /// The home page, after a pause.
    Sleep,
    /// The home page with a player added to it.
    HitStay,
    /// A fixed greeting in JSON.
    ServerEndpoint,
    /// A new round, answered with the state of the game in JSON.
    StartGame,
    /// Anything else.
    NotFound,
}

/// How long the server pauses before it answers a `Sleep` request.
pub const SLEEP_SECONDS: u64 = 5;

impl Route {
    /// The bytes with which a request for this route begins; no request
    /// line leads to `NotFound`.
    pub open spec fn request_line(self) -> Seq<u8> {
        match self {
            Route::Home => "GET / HTTP/1.1\r\n".spec_bytes(),
            Route::Sleep => "GET /sleep HTTP/1.1\r\n".spec_bytes(),
            Route::HitStay => "POST /hit-stay HTTP/1.1\r\n".spec_bytes(),
            Route::ServerEndpoint => "GET /server-endpoint HTTP/1.1\r\n".spec_bytes(),
            Route::StartGame => "GET /start-game HTTP/1.1\r\n".spec_bytes(),
            Route::NotFound => Seq::empty(),
        }
    }

    /// The route of a request: the first whose request line the request
    /// begins with, and `NotFound` if there is none.
    pub open spec fn of_request(request: Seq<u8>) -> Route {
        if Route::Home.request_line().is_prefix_of(request) {
            Route::Home
        } else if Route::Sleep.request_line().is_prefix_of(request) {
            Route::Sleep
        } else if Route::HitStay.request_line().is_prefix_of(request) {
            Route::HitStay
        } else if Route::ServerEndpoint.request_line().is_prefix_of(request) {
            Route::ServerEndpoint
        } else if Route::StartGame.request_line().is_prefix_of(request) {
            Route::StartGame
        } else {
            Route::NotFound
        }
    }

    /// The seconds to pause before answering.
    pub open spec fn spec_delay_seconds(self) -> u64 {
        if self is Sleep {
            SLEEP_SECONDS
        } else {
            0
        }
    }

    /// The file whose contents the answer is made of, if it is made of one.
    pub open spec fn spec_file(self) -> Option<Seq<char>> {
        match self {
            Route::Home | Route::Sleep | Route::HitStay => Some("index.html"@),
            Route::NotFound => Some("404.html"@),
            Route::ServerEndpoint | Route::StartGame => None,
        }
    }

    /// The seconds to pause before answering.
    #[verifier::when_used_as_spec(spec_delay_seconds)]
    pub fn delay_seconds(self) -> (seconds: u64)
        ensures
            seconds == self.spec_delay_seconds(),
    {
        match self {
            Route::Sleep => SLEEP_SECONDS,
            _ => 0,
        }
    }

    /// The name of the file whose contents the answer is made of.
    pub fn file(self) -> (name: Option<&'static str>)
        ensures
            name is Some <==> self.spec_file() is Some,
            name is Some ==> name->Some_0@ == self.spec_file()->Some_0,
    {
        match self {
            Route::Home | Route::Sleep | Route::HitStay => Some("index.html"),
            Route::NotFound => Some("404.html"),
            Route::ServerEndpoint | Route::StartGame => None,
        }
    }
}

/// Whether `bytes` begins with `prefix`.
pub fn starts_with(bytes: &[u8], prefix: &[u8]) -> (found: bool)
    ensures
        found == prefix@.is_prefix_of(bytes@),
{
    if prefix.len() > bytes.len() {
        return false;
    }
    let mut i: usize = 0;
    while i < prefix.len()
        invariant
            i <= prefix@.len() <= bytes@.len(),
            forall|j: int| 0 <= j < i ==> prefix@[j] == bytes@[j],
        decreases prefix@.len() - i,
    {
        if prefix[i] != bytes[i] {
            assert(bytes@.subrange(0, prefix@.len() as int)[i as int] != prefix@[i as int]);
            return false;
        }
        i = i + 1;
    }
    true
}

/// The route of a request.
pub fn route(request: &[u8]) -> (r: Route)
    ensures
        r == Route::of_request(request@),
{
    if starts_with(request, "GET / HTTP/1.1\r\n".as_bytes()) {
        Route::Home
    } else if starts_with(request, "GET /sleep HTTP/1.1\r\n".as_bytes()) {
        Route::Sleep
    } else if starts_with(request, "POST /hit-stay HTTP/1.1\r\n".as_bytes()) {
        Route::HitStay
    } else if starts_with(request, "GET /server-endpoint HTTP/1.1\r\n".as_bytes()) {
        Route::ServerEndpoint
    } else if starts_with(request, "GET /start-game HTTP/1.1\r\n".as_bytes()) {
        Route::StartGame
    } else {
        Route::NotFound
    }
}


// ----- the bytes of an answer -----

/// The digits of `n` in base ten, as ASCII, without leading zeros.
pub open spec fn decimal(n: nat) -> Seq<u8>
    decreases n,
{
    if n < 10 {
        seq![(48 + n) as u8]
    } else {
        decimal(n / 10).push((48 + n % 10) as u8)
    }
}

/// `text` with every occurrence of `from` replaced by `to`. Occurrences
/// are found from the left and do not overlap. An empty `from` occurs
/// nowhere.
pub open spec fn replace_all(text: Seq<u8>, from: Seq<u8>, to: Seq<u8>) -> Seq<u8>
    decreases text.len(),
{
    if from.len() == 0 || text.len() < from.len() {
        text
    } else if from.is_prefix_of(text) {
        to + replace_all(text.skip(from.len() as int), from, to)
    } else {
        seq![text[0]] + replace_all(text.skip(1), from, to)
    }
}

/// The status line of an answer that succeeds.
pub open spec fn ok_line() -> Seq<u8> {
    "HTTP/1.1 200 OK".spec_bytes()
}

/// The status line of the answer to a request that has no route.
pub open spec fn not_found_line() -> Seq<u8> {
    "HTTP/1.1 404 NOT FOUND".spec_bytes()
}

/// An answer that carries a page: the status line, the length of the page
/// in bytes, an empty line, the page.
pub open spec fn page_answer(status_line: Seq<u8>, page: Seq<u8>) -> Seq<u8> {
    status_line + "\r\nContent-Length: ".spec_bytes() + decimal(page.len()) + "\r\n\r\n".spec_bytes()
        + page
}

/// The page with the call that adds a player put before each `</body>`.
pub open spec fn with_player_script(page: Seq<u8>) -> Seq<u8> {
    replace_all(
        page,
        "</body>".spec_bytes(),
        "<script>addPlayer(1);</script>\n</body>".spec_bytes(),
    )
}

/// The page that is served in place of the home page when that cannot be
/// read.
pub open spec fn unreadable_page() -> Seq<u8> {
    "Error: Could not read index.html".spec_bytes()
}

/// The bytes of the answer on `route`, made of `body`: for a route with a
/// file, the contents of that file; for `StartGame`, the state of the game
/// in JSON; for `ServerEndpoint`, nothing that matters.
pub open spec fn answer(route: Route, body: Seq<u8>) -> Seq<u8> {
    match route {
        Route::Home | Route::Sleep => page_answer(ok_line(), body),
        Route::NotFound => page_answer(not_found_line(), body),
        Route::HitStay => "HTTP/1.1 200 OK\r\nContent-Type: text/html\r\n\r\n".spec_bytes()
            + with_player_script(body),
        Route::ServerEndpoint => "HTTP/1.1 200 OK\r\nContent-Type: application/json\r\n\r\n".spec_bytes()
            + "{\"message\": \"Hello, JSON!\"}".spec_bytes(),
        Route::StartGame => "HTTP/1.1 200 OK\r\nContent-Type: application/json\r\n\r\n".spec_bytes()
            + body,
    }
}

/// Puts `bytes` at the end of `out`.
fn append(out: &mut Vec<u8>, bytes: &[u8])
    ensures
        final(out)@ == old(out)@ + bytes@,
{
    let mut i: usize = 0;
    while i < bytes.len()
        invariant
            i <= bytes@.len(),
            out@ == old(out)@ + bytes@.take(i as int),
        decreases bytes@.len() - i,
    {
        out.push(bytes[i]);
        assert(bytes@.take(i + 1) =~= bytes@.take(i as int).push(bytes@[i as int]));
        i = i + 1;
    }
    assert(bytes@.take(i as int) =~= bytes@);
}

/// Puts the decimal digits of `n` at the end of `out`.
fn append_decimal(out: &mut Vec<u8>, n: usize)
    ensures
        final(out)@ == old(out)@ + decimal(n as nat),
    decreases n,
{
    if n >= 10 {
        append_decimal(out, n / 10);
    }
    let digit: u8 = 48 + (n % 10) as u8;
    out.push(digit);
    assert(out@ =~= old(out)@ + decimal(n as nat));
}

/// The page that is served in place of the home page when that cannot be
/// read.
pub fn unreadable_page_bytes() -> (page: Vec<u8>)
    ensures
        page@ == unreadable_page(),
{
    let mut page: Vec<u8> = Vec::new();
    append(&mut page, "Error: Could not read index.html".as_bytes());
    page
}

/// `text` with every occurrence of `from` replaced by `to`.
pub fn replace(text: &[u8], from: &[u8], to: &[u8]) -> (out: Vec<u8>)
    ensures
        out@ == replace_all(text@, from@, to@),
{
    let mut out: Vec<u8> = Vec::new();
    if from.len() == 0 {
        append(&mut out, text);
        return out;
    }
    let mut i: usize = 0;
    assert(text@.skip(0) =~= text@);
    assert(out@ + text@ =~= text@);
    while i < text.len()
        invariant
            i <= text@.len(),
            from@.len() > 0,
            out@ + replace_all(text@.skip(i as int), from@, to@) == replace_all(
                text@,
                from@,
                to@,
            ),
        decreases text@.len() - i,
    {
        let rest = vstd::slice::slice_subrange(text, i, text.len());
        assert(rest@ =~= text@.skip(i as int));
        if starts_with(rest, from) {
            append(&mut out, to);
            assert(text@.skip(i as int).skip(from@.len() as int) =~= text@.skip(i + from@.len()));
            i = i + from.len();
        } else if text.len() - i < from.len() {
            append(&mut out, rest);
            assert(text@.skip(text@.len() as int) =~= Seq::<u8>::empty());
            i = text.len();
        } else {
            out.push(text[i]);
            assert(text@.skip(i as int).skip(1) =~= text@.skip(i + 1));
            i = i + 1;
        }
    }
    assert(text@.skip(i as int) =~= Seq::<u8>::empty());
    out
}

/// An answer that carries a page.
fn page_answer_bytes(status_line: &[u8], page: &[u8]) -> (out: Vec<u8>)
    ensures
        out@ == page_answer(status_line@, page@),
{
    let mut out: Vec<u8> = Vec::new();
    append(&mut out, status_line);
    append(&mut out, "\r\nContent-Length: ".as_bytes());
    append_decimal(&mut out, page.len());
    append(&mut out, "\r\n\r\n".as_bytes());
    append(&mut out, page);
    out
}

/// The bytes of the answer on `route`, made of `body`.
pub fn respond(route: Route, body: &[u8]) -> (out: Vec<u8>)
    ensures
        out@ == answer(route, body@),
{
    match route {
        Route::Home | Route::Sleep => page_answer_bytes("HTTP/1.1 200 OK".as_bytes(), body),
        Route::NotFound => page_answer_bytes("HTTP/1.1 404 NOT FOUND".as_bytes(), body),
        Route::HitStay => {
            let mut out: Vec<u8> = Vec::new();
            append(&mut out, "HTTP/1.1 200 OK\r\nContent-Type: text/html\r\n\r\n".as_bytes());
            let page = replace(
                body,
                "</body>".as_bytes(),
                "<script>addPlayer(1);</script>\n</body>".as_bytes(),
            );
            append(&mut out, page.as_slice());
            out
        },
        Route::ServerEndpoint => {
            let mut out: Vec<u8> = Vec::new();
            append(
                &mut out,
                "HTTP/1.1 200 OK\r\nContent-Type: application/json\r\n\r\n".as_bytes(),
            );
            append(&mut out, "{\"message\": \"Hello, JSON!\"}".as_bytes());
            out
        },
        Route::StartGame => {
            let mut out: Vec<u8> = Vec::new();
            append(
                &mut out,
                "HTTP/1.1 200 OK\r\nContent-Type: application/json\r\n\r\n".as_bytes(),
            );
            append(&mut out, body);
            out
        },
    }
}

} // verus!
