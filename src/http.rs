use vstd::prelude::*;

verus! {

/// ASCII whitespace, as separates the words of a request line.
pub open spec fn is_space(b: u8) -> bool {
    b == 32 || b == 9 || b == 10 || b == 11 || b == 12 || b == 13
}

/// Number of non-space bytes of `s` from position `i` up to the next space.
pub open spec fn word_len(s: Seq<u8>, i: int) -> nat
    decreases s.len() - i,
{
    if 0 <= i < s.len() && !is_space(s[i]) {
        1 + word_len(s, i + 1)
    } else {
        0
    }
}

/// The whitespace-separated words of `s` from position `i` on.
pub open spec fn words_from(s: Seq<u8>, i: int) -> Seq<Seq<u8>>
    decreases if i < s.len() {
        s.len() - i
    } else {
        0
    },
{
    if i < 0 || i >= s.len() {
        Seq::empty()
    } else if is_space(s[i]) {
        words_from(s, i + 1)
    } else {
        let end = i + 1 + word_len(s, i + 1);
        seq![s.subrange(i, end)] + words_from(s, end)
    }
}

/// The whitespace-separated words of `s`.
pub open spec fn words(s: Seq<u8>) -> Seq<Seq<u8>> {
    words_from(s, 0)
}

fn is_space_byte(b: u8) -> (r: bool)
    ensures
        r == is_space(b),
{
    b == 32 || b == 9 || b == 10 || b == 11 || b == 12 || b == 13
}

/// Splits a request line into its whitespace-separated words.
pub fn split_words(line: &[u8]) -> (r: Vec<Vec<u8>>)
    ensures
        r.deep_view() == words(line@),
{
    let s = line;
    let mut r: Vec<Vec<u8>> = Vec::new();
    let mut i: usize = 0;
    while i < s.len()
        invariant
            i <= s@.len(),
            words(s@) == r.deep_view() + words_from(s@, i as int),
        decreases s@.len() - i,
    {
        if is_space_byte(s[i]) {
            i = i + 1;
        } else {
            let start = i;
            let mut w: Vec<u8> = Vec::new();
            while i < s.len() && !is_space_byte(s[i])
                invariant
                    start <= i <= s@.len(),
                    start < s@.len(),
                    !is_space(s@[start as int]),
                    w@ == s@.subrange(start as int, i as int),
                    word_len(s@, start as int) == (i - start) + word_len(s@, i as int),
                decreases s@.len() - i,
            {
                w.push(s[i]);
                i = i + 1;
                proof {
                    assert(w@ =~= s@.subrange(start as int, i as int));
                }
            }
            let ghost before = r.deep_view();
            let ghost wv = w@;
            proof {
                assert(w.deep_view() =~= wv);
            }
            r.push(w);
            proof {
                assert(r.deep_view() =~= before.push(wv));
                assert(word_len(s@, i as int) == 0);
                assert(word_len(s@, start as int) == 1 + word_len(s@, start + 1));
                assert(words_from(s@, start as int) == seq![wv] + words_from(s@, i as int));
                assert(before + words_from(s@, start as int) =~= r.deep_view() + words_from(
                    s@,
                    i as int,
                ));
            }
        }
    }
    proof {
        assert(r.deep_view() + words_from(s@, i as int) =~= r.deep_view());
    }
    r
}

/// Where a request is sent, by the target of its request line.
#[derive(PartialEq, Eq, Structural, Clone, Copy, Debug)]
pub enum Route {
    /// The root path: the index page.
    Index,
    /// The delay path: the index page, after a pause.
    Sleep,
    /// Any other path: the not-found page.
    NotFound,
    /// No request line, or one without a method and a target.
    BadRequest,
}

/// `/`
pub open spec fn root_path() -> Seq<u8> {
    seq![47u8]
}

/// `/sleep`
pub open spec fn sleep_path() -> Seq<u8> {
    seq![47u8, 115, 108, 101, 101, 112]
}

/// The route of a request line: its second word is the target.
pub open spec fn route_of_line(line: Seq<u8>) -> Route {
    let ws = words(line);
    if ws.len() < 2 {
        Route::BadRequest
    } else if ws[1] == root_path() {
        Route::Index
    } else if ws[1] == sleep_path() {
        Route::Sleep
    } else {
        Route::NotFound
    }
}

/// The route of a request given as its header lines, request line first.
pub open spec fn route_of(lines: Seq<Seq<u8>>) -> Route {
    if lines.len() == 0 {
        Route::BadRequest
    } else {
        route_of_line(lines[0])
    }
}

fn same_bytes(a: &[u8], b: &[u8]) -> (r: bool)
    ensures
        r == (a@ == b@),
{
    if a.len() != b.len() {
        return false;
    }
    let mut i: usize = 0;
    while i < a.len()
        invariant
            i <= a@.len(),
            a@.len() == b@.len(),
            a@.subrange(0, i as int) == b@.subrange(0, i as int),
        decreases a@.len() - i,
    {
        if a[i] != b[i] {
            assert(a@[i as int] != b@[i as int]);
            return false;
        }
        proof {
            assert(a@.subrange(0, i + 1) =~= a@.subrange(0, i as int).push(a@[i as int]));
            assert(b@.subrange(0, i + 1) =~= b@.subrange(0, i as int).push(b@[i as int]));
        }
        i = i + 1;
    }
    assert(a@ =~= a@.subrange(0, i as int));
    assert(b@ =~= b@.subrange(0, i as int));
    true
}

/// Routes a request line.
pub fn route_line(line: &[u8]) -> (r: Route)
    ensures
        r == route_of_line(line@),
{
    let ws = split_words(line);
    if ws.len() < 2 {
        return Route::BadRequest;
    }
    let root: Vec<u8> = vec![47u8];
    let sleep: Vec<u8> = vec![47u8, 115, 108, 101, 101, 112];
    assert(ws[1].deep_view() =~= ws[1]@);
    if same_bytes(ws[1].as_slice(), root.as_slice()) {
        assert(root@ =~= root_path());
        Route::Index
    } else if same_bytes(ws[1].as_slice(), sleep.as_slice()) {
        assert(sleep@ =~= sleep_path());
        Route::Sleep
    } else {
        assert(root@ =~= root_path());
        assert(sleep@ =~= sleep_path());
        Route::NotFound
    }
}

/// Routes a request given as its header lines, request line first.
pub fn route_request(lines: &[Vec<u8>]) -> (r: Route)
    ensures
        r == route_of(lines.deep_view()),
{
    if lines.len() == 0 {
        Route::BadRequest
    } else {
        assert(lines.deep_view()[0] =~= lines@[0]@);
        route_line(lines[0].as_slice())
    }
}

/// The status line that answers a route.
pub open spec fn status_of(route: Route) -> Seq<u8> {
    match route {
        Route::Index | Route::Sleep => seq![72u8, 84, 84, 80, 47, 49, 46, 49, 32, 50, 48, 48, 32, 79, 75],
        Route::NotFound => seq![72u8, 84, 84, 80, 47, 49, 46, 49, 32, 52, 48, 52, 32, 78, 79, 84, 32, 70, 79, 85, 78, 68],
        Route::BadRequest => seq![72u8, 84, 84, 80, 47, 49, 46, 49, 32, 52, 48, 48, 32, 66, 65, 68, 32, 82, 69, 81, 85, 69, 83, 84],
    }
}

/// The status line that answers `route`.
pub fn status_line(route: Route) -> (r: Vec<u8>)
    ensures
        r@ == status_of(route),
{
    let r: Vec<u8> = match route {
        Route::Index | Route::Sleep => vec![72u8, 84, 84, 80, 47, 49, 46, 49, 32, 50, 48, 48, 32, 79, 75],
        Route::NotFound => vec![72u8, 84, 84, 80, 47, 49, 46, 49, 32, 52, 48, 52, 32, 78, 79, 84, 32, 70, 79, 85, 78, 68],
        Route::BadRequest => vec![72u8, 84, 84, 80, 47, 49, 46, 49, 32, 52, 48, 48, 32, 66, 65, 68, 32, 82, 69, 81, 85, 69, 83, 84],
    };
    assert(r@ =~= status_of(route));
    r
}

/// The name of the page that answers a route.
pub open spec fn page_of(route: Route) -> Seq<char> {
    match route {
        Route::Index | Route::Sleep => "index.html"@,
        Route::NotFound => "404.html"@,
        Route::BadRequest => "400.html"@,
    }
}

/// The name of the page that answers `route`.
pub fn page_file(route: Route) -> (r: &'static str)
    ensures
        r@ == page_of(route),
{
    match route {
        Route::Index | Route::Sleep => "index.html",
        Route::NotFound => "404.html",
        Route::BadRequest => "400.html",
    }
}

/// How many seconds to wait before answering `route`.
pub fn delay_seconds(route: Route) -> (r: u64)
    ensures
        r == if route == Route::Sleep {
            5u64
        } else {
            0u64
        },
{
    match route {
        Route::Sleep => 5,
        _ => 0,
    }
}

/// The decimal digits of `n`, most significant first, in ASCII.
pub open spec fn decimal_of(n: nat) -> Seq<u8>
    decreases n,
{
    if n < 10 {
        seq![(48 + n) as u8]
    } else {
        decimal_of(n / 10).push((48 + n % 10) as u8)
    }
}

/// Writes `n` in decimal.
pub fn decimal(n: usize) -> (r: Vec<u8>)
    ensures
        r@ == decimal_of(n as nat),
    decreases n,
{
    if n < 10 {
        let r: Vec<u8> = vec![(48 + n) as u8];
        assert(r@ =~= decimal_of(n as nat));
        r
    } else {
        let mut r = decimal(n / 10);
        r.push((48 + n % 10) as u8);
        r
    }
}

/// The text between a status line and the length of the body.
pub open spec fn length_header() -> Seq<u8> {
    seq![13u8, 10, 67, 111, 110, 116, 101, 110, 116, 45, 76, 101, 110, 103, 116, 104, 58, 32]
}

/// The text between the length of the body and the body.
pub open spec fn header_end() -> Seq<u8> {
    seq![13u8, 10, 13, 10]
}

/// A response: the status line, a `Content-Length` header with the body's
/// length in bytes, a blank line, and the body.
pub open spec fn response_of(status: Seq<u8>, body: Seq<u8>) -> Seq<u8> {
    status + length_header() + decimal_of(body.len()) + header_end() + body
}

fn append_bytes(out: &mut Vec<u8>, b: &[u8])
    ensures
        final(out)@ == old(out)@ + b@,
{
    let mut i: usize = 0;
    while i < b.len()
        invariant
            i <= b@.len(),
            out@ == old(out)@ + b@.subrange(0, i as int),
        decreases b@.len() - i,
    {
        out.push(b[i]);
        i = i + 1;
        proof {
            assert(out@ =~= old(out)@ + b@.subrange(0, i as int));
        }
    }
    assert(b@ =~= b@.subrange(0, i as int));
}

/// Frames `body` as a response under `status`.
pub fn build_response(status: &[u8], body: &[u8]) -> (r: Vec<u8>)
    ensures
        r@ == response_of(status@, body@),
{
    let header: Vec<u8> = vec![13u8, 10, 67, 111, 110, 116, 101, 110, 116, 45, 76, 101, 110, 103, 116, 104, 58, 32];
    let end: Vec<u8> = vec![13u8, 10, 13, 10];
    let len = decimal(body.len());
    let mut r: Vec<u8> = Vec::new();
    append_bytes(&mut r, status);
    append_bytes(&mut r, header.as_slice());
    append_bytes(&mut r, len.as_slice());
    append_bytes(&mut r, end.as_slice());
    append_bytes(&mut r, body);
    assert(header@ =~= length_header());
    assert(end@ =~= header_end());
    assert(r@ =~= response_of(status@, body@));
    r
}

/// The response that answers `route` with the page `body`.
pub fn response_for(route: Route, body: &[u8]) -> (r: Vec<u8>)
    ensures
        r@ == response_of(status_of(route), body@),
{
    let status = status_line(route);
    build_response(status.as_slice(), body)
}

} // verus!
