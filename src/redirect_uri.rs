use vstd::prelude::*;
use vstd::utf8::{decode_utf8, valid_utf8};

use crate::string_views;

verus! {

/// The pair that the authorization callback carries.
pub struct RedirectCredentials {
    pub auth_code: String,
    pub csrf_token: String,
}

/// What to send back on the connection, and the credentials if the callback
/// was understood.
pub struct RedirectReply {
    pub response: String,
    pub credentials: Option<RedirectCredentials>,
}

/// The characters that split a request.
#[derive(Clone, Copy)]
pub enum Separator {
    /// Unicode White_Space, between the parts of the request line.
    Whitespace,
    /// `&`, between the `key=value` pairs of a query.
    Ampersand,
}

/// The characters with the Unicode White_Space property.
pub open spec fn is_white(c: char) -> bool {
    let n = c as u32;
    (0x9 <= n <= 0xd) || n == 0x20 || n == 0x85 || n == 0xa0 || n == 0x1680 || (0x2000 <= n
        <= 0x200a) || n == 0x2028 || n == 0x2029 || n == 0x202f || n == 0x205f || n == 0x3000
}

pub open spec fn is_separator(sep: Separator, c: char) -> bool {
    match sep {
        Separator::Whitespace => is_white(c),
        Separator::Ampersand => c == '&',
    }
}

/// `s` cut at every separator, empty pieces kept (one piece more than there
/// are separators).
pub open spec fn pieces(s: Seq<char>, sep: Separator) -> Seq<Seq<char>>
    decreases s.len(),
{
    if s.len() == 0 {
        seq![Seq::empty()]
    } else {
        let p = pieces(s.drop_last(), sep);
        if is_separator(sep, s.last()) {
            p.push(Seq::empty())
        } else {
            p.update(p.len() - 1, p.last().push(s.last()))
        }
    }
}

/// A piece that holds at least one character.
pub open spec fn is_word() -> spec_fn(Seq<char>) -> bool {
    |p: Seq<char>| p.len() > 0
}

/// The whitespace-separated words of a request.
pub open spec fn request_tokens(s: Seq<char>) -> Seq<Seq<char>> {
    pieces(s, Separator::Whitespace).filter(is_word())
}

/// Position of the first `c` in `s`; the length of `s` when there is none.
pub open spec fn first_index(s: Seq<char>, c: char) -> int
    decreases s.len(),
{
    if s.len() == 0 {
        0
    } else if s[0] == c {
        0
    } else {
        1 + first_index(s.drop_first(), c)
    }
}

/// The query of a request target: what follows its first `?`, if it has one.
pub open spec fn query_of(target: Seq<char>) -> Option<Seq<char>> {
    let k = first_index(target, '?');
    if k < target.len() {
        Some(target.skip(k + 1))
    } else {
        None
    }
}

/// The key of a `key=value` pair: what precedes its first `=`.
pub open spec fn pair_key(pair: Seq<char>) -> Seq<char> {
    pair.take(first_index(pair, '='))
}

/// The value of a `key=value` pair: what follows its first `=` (empty without one).
pub open spec fn pair_value(pair: Seq<char>) -> Seq<char> {
    let k = first_index(pair, '=');
    if k < pair.len() {
        pair.skip(k + 1)
    } else {
        Seq::empty()
    }
}

/// The value of the first pair whose key is `key`.
pub open spec fn lookup(pairs: Seq<Seq<char>>, key: Seq<char>) -> Option<Seq<char>>
    decreases pairs.len(),
{
    if pairs.len() == 0 {
        None
    } else if pair_key(pairs[0]) == key {
        Some(pair_value(pairs[0]))
    } else {
        lookup(pairs.drop_first(), key)
    }
}

/// The code and the state of a callback: the values of the `code` and `state`
/// keys of the query of its target (the second word), in any order and among
/// any other parameters.
pub open spec fn callback_values(s: Seq<char>) -> Option<(Seq<char>, Seq<char>)> {
    let t = request_tokens(s);
    if t.len() >= 2 {
        match query_of(t[1]) {
            Some(q) => {
                let pairs = pieces(q, Separator::Ampersand);
                match (lookup(pairs, "code"@), lookup(pairs, "state"@)) {
                    (Some(code), Some(state)) => Some((code, state)),
                    _ => None,
                }
            },
            None => None,
        }
    } else {
        None
    }
}

pub open spec fn success_response() -> Seq<char> {
    "HTTP/1.1 200 OK\r\n\r\n"@
        + "Client authorized. You can return to your terminal and close this window."@
}

pub open spec fn error_response(message: Seq<char>) -> Seq<char> {
    "HTTP/1.1 400 Bad Request\r\n\r\n400 - Bad Request - "@ + message
}

proof fn lemma_pieces_len(s: Seq<char>, sep: Separator)
    ensures
        pieces(s, sep).len() >= 1,
    decreases s.len(),
{
    if s.len() > 0 {
        lemma_pieces_len(s.drop_last(), sep);
    }
}

proof fn lemma_first_index_bound(s: Seq<char>, c: char)
    ensures
        0 <= first_index(s, c) <= s.len(),
    decreases s.len(),
{
    if s.len() > 0 {
        lemma_first_index_bound(s.drop_first(), c);
    }
}

/// Position of the first `c` in `s`, or its length when there is none.
fn find_char(s: &str, c: char) -> (r: usize)
    ensures
        r == first_index(s@, c),
{
    let n = s.unicode_len();
    let mut i: usize = 0;
    assert(s@.skip(0) =~= s@);
    while i < n
        invariant
            n == s@.len(),
            i <= n,
            first_index(s@, c) == i + first_index(s@.skip(i as int), c),
        decreases n - i,
    {
        assert(s@.skip(i as int)[0] == s@[i as int]);
        assert(s@.skip(i as int).drop_first() =~= s@.skip(i + 1));
        if s.get_char(i) == c {
            return i;
        }
        i = i + 1;
    }
    assert(s@.skip(n as int).len() == 0);
    i
}

/// The value of the first of `pairs` whose key is `key`.
fn lookup_value(pairs: &Vec<String>, key: &String) -> (r: Option<String>)
    ensures
        lookup(string_views(pairs@), key@) matches Some(v) ==> (r matches Some(x) && x@ == v),
        lookup(string_views(pairs@), key@) is None ==> r is None,
{
    let mut i: usize = 0;
    assert(string_views(pairs@).skip(0) =~= string_views(pairs@));
    while i < pairs.len()
        invariant
            i <= pairs@.len(),
            lookup(string_views(pairs@), key@) == lookup(string_views(pairs@).skip(i as int), key@),
        decreases pairs@.len() - i,
    {
        let p = pairs[i].as_str();
        assert(string_views(pairs@).skip(i as int)[0] == p@);
        assert(string_views(pairs@).skip(i as int).drop_first() =~= string_views(pairs@).skip(
            i + 1,
        ));
        let k = find_char(p, '=');
        let n = p.unicode_len();
        proof {
            lemma_first_index_bound(p@, '=');
        }
        let pk = p.substring_char(0, k).to_owned();
        assert(pk@ =~= pair_key(p@));
        if pk == *key {
            if k < n {
                let v = p.substring_char(k + 1, n).to_owned();
                assert(v@ =~= pair_value(p@));
                return Some(v);
            } else {
                let v = String::new();
                assert(v@ =~= pair_value(p@));
                return Some(v);
            }
        }
        i = i + 1;
    }
    assert(string_views(pairs@).skip(i as int).len() == 0);
    None
}

fn separates(sep: Separator, c: char) -> (r: bool)
    ensures
        r == is_separator(sep, c),
{
    match sep {
        Separator::Whitespace => {
            let n = c as u32;
            (0x9 <= n && n <= 0xd) || n == 0x20 || n == 0x85 || n == 0xa0 || n == 0x1680 || (0x2000
                <= n && n <= 0x200a) || n == 0x2028 || n == 0x2029 || n == 0x202f || n == 0x205f
                || n == 0x3000
        },
        Separator::Ampersand => c == '&',
    }
}

/// Cuts `s` at every separator, keeping empty pieces.
pub fn split_pieces(s: &str, sep: Separator) -> (r: Vec<String>)
    ensures
        string_views(r@) == pieces(s@, sep),
{
    let n = s.unicode_len();
    let mut out: Vec<String> = Vec::new();
    let mut start: usize = 0;
    let mut i: usize = 0;
    assert(s@.take(0) =~= Seq::<char>::empty());
    while i < n
        invariant
            n == s@.len(),
            start <= i <= n,
            string_views(out@).push(s@.subrange(start as int, i as int)) == pieces(
                s@.take(i as int),
                sep,
            ),
        decreases n - i,
    {
        let c = s.get_char(i);
        let ghost before = out@;
        assert(s@.take(i + 1).drop_last() =~= s@.take(i as int));
        assert(s@.take(i + 1).last() == c);
        proof {
            lemma_pieces_len(s@.take(i as int), sep);
        }
        if separates(sep, c) {
            let piece = s.substring_char(start, i).to_owned();
            out.push(piece);
            start = i + 1;
            assert(s@.subrange(start as int, i + 1) =~= Seq::<char>::empty());
            assert(string_views(out@) =~= string_views(before).push(piece@));
            assert(string_views(out@).push(s@.subrange(start as int, i + 1)) =~= pieces(
                s@.take(i + 1),
                sep,
            ));
        } else {
            assert(s@.subrange(start as int, i as int).push(c) =~= s@.subrange(start as int, i + 1));
            assert(string_views(out@).push(s@.subrange(start as int, i + 1)) =~= pieces(
                s@.take(i + 1),
                sep,
            ));
        }
        i = i + 1;
    }
    let last = s.substring_char(start, n).to_owned();
    let ghost before = out@;
    out.push(last);
    assert(string_views(out@) =~= string_views(before).push(last@));
    assert(s@.take(n as int) =~= s@);
    out
}

/// The whitespace-separated words of `request`.
pub fn split_request(request: &str) -> (r: Vec<String>)
    ensures
        string_views(r@) == request_tokens(request@),
{
    let all = split_pieces(request, Separator::Whitespace);
    let mut out: Vec<String> = Vec::new();
    let mut i: usize = 0;
    assert(string_views(all@).take(0) =~= Seq::<Seq<char>>::empty());
    proof {
        reveal(Seq::filter);
    }
    while i < all.len()
        invariant
            i <= all@.len(),
            string_views(out@) == string_views(all@).take(i as int).filter(is_word()),
        decreases all@.len() - i,
    {
        let piece = &all[i];
        let ghost before = out@;
        assert(string_views(all@).take(i + 1).drop_last() =~= string_views(all@).take(i as int));
        assert(string_views(all@).take(i + 1).last() == piece@);
        proof {
            reveal(Seq::filter);
        }
        if piece.as_str().unicode_len() > 0 {
            out.push(piece.clone());
            assert(string_views(out@) =~= string_views(before).push(piece@));
        }
        i = i + 1;
    }
    assert(string_views(all@).take(all@.len() as int) =~= string_views(all@));
    out
}

/// The credentials of a callback request: the `code` and `state` values of its
/// query, when both are there.
pub fn parse_redirect_request(request: &str) -> (r: Option<RedirectCredentials>)
    ensures
        r is Some <==> callback_values(request@) is Some,
        r matches Some(cr) ==> callback_values(request@) == Some((cr.auth_code@, cr.csrf_token@)),
{
    let split = split_request(request);
    if split.len() > 1 {
        assert(split@[1]@ == request_tokens(request@)[1]);
        let target = split[1].as_str();
        let q = find_char(target, '?');
        let n = target.unicode_len();
        proof {
            lemma_first_index_bound(target@, '?');
        }
        if q < n {
            let query = target.substring_char(q + 1, n);
            assert(query@ =~= target@.skip(q + 1));
            let pairs = split_pieces(query, Separator::Ampersand);
            let code = lookup_value(&pairs, &String::from_str("code"));
            let state = lookup_value(&pairs, &String::from_str("state"));
            match (code, state) {
                (Some(auth_code), Some(csrf_token)) => {
                    return Some(RedirectCredentials { auth_code, csrf_token });
                },
                _ => {},
            }
        }
    }
    None
}

pub fn respond_with_success() -> (r: String)
    ensures
        r@ == success_response(),
{
    let header = String::from_str("HTTP/1.1 200 OK\r\n\r\n");
    header.concat("Client authorized. You can return to your terminal and close this window.")
}

pub fn respond_with_error(error_message: &str) -> (r: String)
    ensures
        r@ == error_response(error_message@),
{
    let header = String::from_str("HTTP/1.1 400 Bad Request\r\n\r\n400 - Bad Request - ");
    header.concat(error_message)
}

/// Relies on std's `str::from_utf8`: it accepts exactly the valid UTF-8 byte
/// sequences and yields the characters they encode; the error is kept as its text.
#[verifier::external_body]
fn decode_request(bytes: &[u8]) -> (r: Result<String, String>)
    ensures
        r is Ok <==> valid_utf8(bytes@),
        r matches Ok(s) ==> s@ == decode_utf8(bytes@),
{
    match std::str::from_utf8(bytes) {
        Ok(s) => Ok(s.to_string()),
        Err(e) => Err(e.to_string()),
    }
}

/// Answers one request read from the redirect connection: `200` with the
/// credentials for a well-formed callback, `400` naming the fault otherwise.
pub fn handle_redirect_request(buffer: &[u8]) -> (r: RedirectReply)
    ensures
        !valid_utf8(buffer@) ==> {
            &&& r.credentials is None
            &&& error_response("Invalid UTF-8 sequence: "@).is_prefix_of(r.response@)
        },
        valid_utf8(buffer@) ==> match callback_values(decode_utf8(buffer@)) {
            Some((code, state)) => {
                &&& r.credentials matches Some(cr)
                &&& cr.auth_code@ == code
                &&& cr.csrf_token@ == state
                &&& r.response@ == success_response()
            },
            None => {
                &&& r.credentials is None
                &&& r.response@ == error_response("Malformed request"@)
            },
        },
{
    match decode_request(buffer) {
        Ok(request) => match parse_redirect_request(request.as_str()) {
            Some(credentials) => RedirectReply {
                response: respond_with_success(),
                credentials: Some(credentials),
            },
            None => RedirectReply {
                response: respond_with_error("Malformed request"),
                credentials: None,
            },
        },
        Err(e) => {
            let message = String::from_str("Invalid UTF-8 sequence: ").concat(e.as_str());
            let response = respond_with_error(message.as_str());
            assert(response@ =~= error_response("Invalid UTF-8 sequence: "@) + e@);
            assert(error_response("Invalid UTF-8 sequence: "@) =~= response@.take(
                error_response("Invalid UTF-8 sequence: "@).len() as int,
            ));
            RedirectReply { response, credentials: None }
        },
    }
}

} // verus!
