//! Requests and responses, as far as the server speaks HTTP.
use vstd::prelude::*;
use vstd::utf8::{decode_utf8, encode_utf8, valid_utf8};

use crate::decimal::{all_digits, digits_value, lemma_nat_text_value, nat_text, u64_text};
use crate::table::Table;
use crate::text::{
    chars_of, find_char, first_at, is_space, is_whitespace, join_texts, lemma_first_at,
    lemma_first_at_is, opt_view, skip_space, split, split_text, split_undoes_join, text_between,
    views, without_leading_space,
};

verus! {

/// The value of a hexadecimal digit.
pub open spec fn hex_value(digit: u8) -> Option<int> {
    if 0x30 <= digit <= 0x39 {
        Some(digit - 0x30)
    } else if 0x41 <= digit <= 0x46 {
        Some(digit - 0x41 + 10)
    } else if 0x61 <= digit <= 0x66 {
        Some(digit - 0x61 + 10)
    } else {
        None
    }
}

/// Bytes with each percent sign and the two hexadecimal digits after it replaced
/// by the byte that they name. A percent sign that no two such digits follow
/// stays.
pub open spec fn percent_decoded(bytes: Seq<u8>) -> Seq<u8>
    decreases bytes.len(),
{
    if bytes.len() == 0 {
        bytes
    } else if bytes.len() >= 3 && bytes[0] == 0x25 && hex_value(bytes[1]) is Some && hex_value(
        bytes[2],
    ) is Some {
        seq![(hex_value(bytes[1])->0 * 16 + hex_value(bytes[2])->0) as u8] + percent_decoded(
            bytes.skip(3),
        )
    } else {
        seq![bytes[0]] + percent_decoded(bytes.skip(1))
    }
}

/// `urlencoding::decode`: the text that the decoded bytes of a text are, unless
/// they are not UTF-8. A plus sign stays a plus sign.
#[verifier::external_body]
fn url_decode(text: &str) -> (r: Option<String>)
    ensures
        match r {
            Some(decoded) => {
                &&& valid_utf8(percent_decoded(encode_utf8(text@)))
                &&& decoded@ == decode_utf8(percent_decoded(encode_utf8(text@)))
            },
            None => !valid_utf8(percent_decoded(encode_utf8(text@))),
        },
{
    urlencoding::decode(text).ok().map(|decoded| decoded.into_owned())
}

/// The text that an encoded text stands for, or nothing where it stands for none.
pub open spec fn decoded(text: Seq<char>) -> Seq<char> {
    let bytes = percent_decoded(encode_utf8(text));
    if valid_utf8(bytes) {
        decode_utf8(bytes)
    } else {
        Seq::empty()
    }
}

fn decode_or_nothing(text: &str) -> (r: String)
    ensures
        r@ == decoded(text@),
{
    match url_decode(text) {
        Some(text) => text,
        None => {
            proof {
                reveal_strlit("");
            }
            let nothing = "".to_owned();
            assert(nothing@ =~= Seq::<char>::empty());
            nothing
        },
    }
}

/// What is before the first of a character, or all where there is none.
pub open spec fn before(s: Seq<char>, c: char) -> Seq<char> {
    s.take(first_at(s, c) as int)
}

/// What is after the first of a character, or nothing where there is none.
pub open spec fn after(s: Seq<char>, c: char) -> Seq<char> {
    if first_at(s, c) < s.len() {
        s.skip(first_at(s, c) as int + 1)
    } else {
        Seq::empty()
    }
}

fn split_once(s: &str, c: char) -> (r: (String, String))
    ensures
        r.0@ == before(s@, c),
        r.1@ == after(s@, c),
{
    let chars = chars_of(s);
    assert(chars@.skip(0) =~= chars@);
    proof {
        lemma_first_at(s@, c);
    }
    let at = find_char(&chars, c, 0);
    let first = text_between(&chars, 0, at);
    assert(first@ =~= before(s@, c));
    let rest_at: usize = if at < chars.len() {
        at + 1
    } else {
        at
    };
    let rest = text_between(&chars, rest_at, chars.len());
    assert(rest@ =~= after(s@, c));
    (first, rest)
}

/// The values that the parts of a query give to names. A name that is given
/// twice has the value given last.
pub open spec fn query_params(parts: Seq<Seq<char>>) -> Map<Seq<char>, Seq<char>>
    decreases parts.len(),
{
    if parts.len() == 0 {
        Map::empty()
    } else if parts.last().len() == 0 {
        query_params(parts.drop_last())
    } else {
        query_params(parts.drop_last()).insert(
            decoded(before(parts.last(), '=')),
            decoded(after(parts.last(), '=')),
        )
    }
}

/// The parameters of a URI.
pub open spec fn uri_params(uri: Seq<char>) -> Map<Seq<char>, Seq<char>> {
    query_params(split_text(after(uri, '?'), '&'))
}

/// What the values of names are.
pub open spec fn value_views(values: Map<Seq<char>, String>) -> Map<Seq<char>, Seq<char>> {
    values.map_values(|s: String| s@)
}

/// The path and the parameters of a URI.
pub fn parse_uri(uri: &str) -> (r: (String, Table<String>))
    ensures
        r.0@ == before(uri@, '?'),
        value_views(r.1@) == uri_params(uri@),
{
    let (path, query) = split_once(uri, '?');
    let parts = split(query.as_str(), '&');
    let mut params: Table<String> = Table::new();
    let ghost all = views(parts@);
    assert(value_views(params@) =~= query_params(all.take(0)));
    let mut i: usize = 0;
    while i < parts.len()
        invariant
            i <= parts@.len(),
            all == views(parts@),
            value_views(params@) == query_params(all.take(i as int)),
        decreases parts@.len() - i,
    {
        assert(all.take(i + 1).drop_last() =~= all.take(i as int));
        assert(all.take(i + 1).last() == parts@[i as int]@);
        if !parts[i].as_str().is_empty() {
            let (name, value) = split_once(parts[i].as_str(), '=');
            let ghost known = params@;
            let name = decode_or_nothing(name.as_str());
            let value = decode_or_nothing(value.as_str());
            params.insert(name, value);
            assert(value_views(params@) =~= value_views(known).insert(name@, value@));
        }
        i += 1;
    }
    assert(all.take(parts@.len() as int) =~= all);
    (path, params)
}

/// How many characters stand before the first white space.
pub open spec fn word_len(s: Seq<char>) -> nat
    decreases s.len(),
{
    if s.len() == 0 || is_space(s[0]) {
        0nat
    } else {
        1 + word_len(s.drop_first())
    }
}

/// The first word of a text.
pub open spec fn first_word(s: Seq<char>) -> Seq<char> {
    let rest = without_leading_space(s);
    rest.take(word_len(rest) as int)
}

/// What follows the first word of a text.
pub open spec fn after_word(s: Seq<char>) -> Seq<char> {
    let rest = without_leading_space(s);
    rest.skip(word_len(rest) as int)
}

fn word_end(chars: &Vec<char>, from: usize) -> (r: usize)
    requires
        from <= chars@.len(),
    ensures
        from <= r <= chars@.len(),
        r == from + word_len(chars@.skip(from as int)),
{
    let mut i: usize = from;
    while i < chars.len() && !is_whitespace(chars[i])
        invariant
            from <= i <= chars@.len(),
            word_len(chars@.skip(from as int)) == (i - from) + word_len(chars@.skip(i as int)),
        decreases chars@.len() - i,
    {
        assert(chars@.skip(i as int).drop_first() =~= chars@.skip(i + 1));
        i += 1;
    }
    i
}

/// The first line of a request. A carriage return at its end is white space to the
/// words of the line.
pub open spec fn request_line(request: Seq<char>) -> Seq<char> {
    before(request, '\n')
}

/// The URI of a request line: its second word, or the root.
pub open spec fn line_uri(line: Seq<char>) -> Seq<char> {
    if first_word(after_word(line)).len() == 0 {
        "/"@
    } else {
        first_word(after_word(line))
    }
}

/// Whether a text begins with the end of a line and a blank line.
pub open spec fn ends_head(s: Seq<char>) -> bool {
    s.len() >= 4 && s[0] == '\r' && s[1] == '\n' && s[2] == '\r' && s[3] == '\n'
}

/// What follows the first blank line, or nothing where there is none.
pub open spec fn after_head(s: Seq<char>) -> Seq<char>
    decreases s.len(),
{
    if s.len() == 0 {
        s
    } else if ends_head(s) {
        s.skip(4)
    } else {
        after_head(s.drop_first())
    }
}

/// The body of a request.
pub fn request_body(request: &str) -> (r: String)
    ensures
        r@ == after_head(request@),
{
    let chars = chars_of(request);
    let mut i: usize = 0;
    assert(chars@.skip(0) =~= chars@);
    while i < chars.len()
        invariant
            i <= chars@.len(),
            chars@ == request@,
            after_head(chars@.skip(i as int)) == after_head(request@),
        decreases chars@.len() - i,
    {
        if chars.len() - i >= 4 && chars[i] == '\r' && chars[i + 1] == '\n' && chars[i + 2] == '\r'
            && chars[i + 3] == '\n' {
            let body = text_between(&chars, i + 4, chars.len());
            assert(body@ =~= chars@.skip(i as int).skip(4));
            return body;
        }
        assert(chars@.skip(i as int).drop_first() =~= chars@.skip(i + 1));
        i += 1;
    }
    let body = text_between(&chars, i, chars.len());
    assert(body@ =~= chars@.skip(i as int));
    body
}

/// A request.
#[derive(Debug)]
pub struct Request {
    pub method: String,
    pub path: String,
    pub params: Table<String>,
    pub body: String,
}

/// What a request is.
pub struct RequestView {
    pub method: Seq<char>,
    pub path: Seq<char>,
    pub params: Map<Seq<char>, Seq<char>>,
    pub body: Seq<char>,
}

impl View for Request {
    type V = RequestView;

    open spec fn view(&self) -> RequestView {
        RequestView {
            method: self.method@,
            path: self.path@,
            params: value_views(self.params@),
            body: self.body@,
        }
    }
}

/// The request that a text is.
pub open spec fn request_of(text: Seq<char>) -> RequestView {
    let line = request_line(text);
    RequestView {
        method: first_word(line),
        path: before(line_uri(line), '?'),
        params: uri_params(line_uri(line)),
        body: after_head(text),
    }
}

/// Reads a request, unless there is none.
pub fn parse_request(text: &str) -> (r: Option<Request>)
    ensures
        match r {
            Some(request) => text@.len() > 0 && request@ == request_of(text@),
            None => text@.len() == 0,
        },
{
    if text.is_empty() {
        return None;
    }
    let (line, _) = split_once(text, '\n');
    let chars = chars_of(line.as_str());
    assert(chars@.skip(0) =~= chars@);
    let start = skip_space(&chars, 0);
    let end = word_end(&chars, start);
    let method = text_between(&chars, start, end);
    let ghost rest = chars@.skip(start as int);
    assert(method@ =~= first_word(line@));
    assert(chars@.skip(end as int) =~= after_word(line@));
    let uri_start = skip_space(&chars, end);
    let uri_end = word_end(&chars, uri_start);
    let word = text_between(&chars, uri_start, uri_end);
    assert(word@ =~= first_word(after_word(line@)));
    let uri = if word.as_str().is_empty() {
        "/".to_owned()
    } else {
        word
    };
    let (path, params) = parse_uri(uri.as_str());
    Some(Request { method, path, params, body: request_body(text) })
}

/// The text that `String::from_utf8_lossy` makes of bytes.
pub uninterp spec fn lossy_text(bytes: Seq<u8>) -> Seq<char>;

/// `String::from_utf8_lossy`: the text that bytes are. What is not UTF-8 becomes
/// replacement characters.
#[verifier::external_body]
fn decode_lossy(bytes: &[u8]) -> (r: String)
    ensures
        r@ == lossy_text(bytes@),
        valid_utf8(bytes@) ==> r@ == decode_utf8(bytes@),
{
    String::from_utf8_lossy(bytes).into_owned()
}

/// Reads the bytes of a request, unless there is none.
pub fn read_request(bytes: &[u8]) -> (r: Option<Request>)
    ensures
        match r {
            Some(request) => lossy_text(bytes@).len() > 0 && request@ == request_of(
                lossy_text(bytes@),
            ),
            None => lossy_text(bytes@).len() == 0,
        },
        valid_utf8(bytes@) ==> lossy_text(bytes@) == decode_utf8(bytes@),
{
    let text = decode_lossy(bytes);
    parse_request(text.as_str())
}

/// What a status is called.
pub open spec fn reason(status: u16) -> Seq<char> {
    match status {
        400 => "Bad Request"@,
        404 => "Not Found"@,
        500 => "Internal Server Error"@,
        _ => "OK"@,
    }
}

/// The lines of the head of a response.
pub open spec fn head_lines(
    status: u16,
    content_type: Seq<char>,
    content_length: nat,
    disposition: Option<Seq<char>>,
) -> Seq<Seq<char>> {
    let lines = seq![
        "HTTP/1.1 "@ + nat_text(status as nat) + " "@ + reason(status),
        "Content-Type: "@ + content_type,
        "Content-Length: "@ + nat_text(content_length),
        "Connection: close"@,
    ];
    match disposition {
        Some(disposition) => lines.push("Content-Disposition: "@ + disposition),
        None => lines,
    }
}

/// Lines, each with its end, and a blank line after them.
pub open spec fn head_text(lines: Seq<Seq<char>>) -> Seq<char>
    decreases lines.len(),
{
    if lines.len() == 0 {
        "\r\n"@
    } else {
        lines[0] + "\r\n"@ + head_text(lines.drop_first())
    }
}

/// The bytes of a response.
pub open spec fn response_bytes(
    status: u16,
    content_type: Seq<char>,
    body: Seq<u8>,
    disposition: Option<Seq<char>>,
) -> Seq<u8> {
    encode_utf8(head_text(head_lines(status, content_type, body.len(), disposition))) + body
}

fn write_head(lines: &Vec<String>) -> (r: String)
    ensures
        r@ == head_text(views(lines@)),
{
    let ghost all = views(lines@);
    let mut head = String::new();
    let mut i: usize = 0;
    assert(all.skip(0) =~= all);
    assert(head@ + head_text(all) =~= head_text(all));
    while i < lines.len()
        invariant
            i <= lines@.len(),
            all == views(lines@),
            head@ + head_text(all.skip(i as int)) == head_text(all),
        decreases lines@.len() - i,
    {
        let ghost before = head@;
        let ghost rest = all.skip(i as int);
        head.append(lines[i].as_str());
        head.append("\r\n");
        proof {
            assert(rest.drop_first() =~= all.skip(i + 1));
            assert(head@ + head_text(all.skip(i + 1)) =~= before + head_text(rest));
        }
        i += 1;
    }
    assert(all.skip(i as int).len() == 0);
    head.append("\r\n");
    head
}

/// Writes a response.
pub fn response(
    status: u16,
    content_type: &str,
    body: Vec<u8>,
    disposition: Option<String>,
) -> (r: Vec<u8>)
    ensures
        r@ == response_bytes(status, content_type@, body@, opt_view(disposition)),
{
    let reason_text: &'static str = match status {
        200 => "OK",
        400 => "Bad Request",
        404 => "Not Found",
        500 => "Internal Server Error",
        _ => "OK",
    };
    let mut first = "HTTP/1.1 ".to_owned();
    first.append(u64_text(status as u64).as_str());
    first.append(" ");
    first.append(reason_text);
    let mut kind = "Content-Type: ".to_owned();
    kind.append(content_type);
    let mut length = "Content-Length: ".to_owned();
    length.append(u64_text(body.len() as u64).as_str());
    let mut lines: Vec<String> = Vec::new();
    lines.push(first);
    lines.push(kind);
    lines.push(length);
    lines.push("Connection: close".to_owned());
    if let Some(disposition) = &disposition {
        let mut line = "Content-Disposition: ".to_owned();
        line.append(disposition.as_str());
        lines.push(line);
    }
    assert(views(lines@) =~= head_lines(status, content_type@, body@.len(), opt_view(disposition)));
    let head = write_head(&lines);
    let mut out = head.as_str().as_bytes_vec();
    let mut body = body;
    out.append(&mut body);
    out
}

/// The type of a JSON body.
pub const JSON_TYPE: &'static str = "application/json; charset=utf-8";

/// The type of a page.
pub const HTML_TYPE: &'static str = "text/html; charset=utf-8";

/// The type of a table.
pub const CSV_TYPE: &'static str = "text/csv; charset=utf-8";

/// Answers with JSON.
pub fn json_response(body: Vec<u8>) -> (r: Vec<u8>)
    ensures
        r@ == response_bytes(200, JSON_TYPE@, body@, None),
{
    response(200, JSON_TYPE, body, None)
}

/// Answers with a page.
pub fn html_response(body: &str) -> (r: Vec<u8>)
    ensures
        r@ == response_bytes(200, HTML_TYPE@, encode_utf8(body@), None),
{
    response(200, HTML_TYPE, body.as_bytes_vec(), None)
}

/// How a file is to be kept.
pub open spec fn attachment(filename: Seq<char>) -> Seq<char> {
    "attachment; filename=\""@ + filename + "\""@
}

/// Answers with a table to be kept as a file.
pub fn csv_response(filename: &str, body: Vec<u8>) -> (r: Vec<u8>)
    ensures
        r@ == response_bytes(200, CSV_TYPE@, body@, Some(attachment(filename@))),
{
    let mut disposition = "attachment; filename=\"".to_owned();
    disposition.append(filename);
    disposition.append("\"");
    response(200, CSV_TYPE, body, Some(disposition))
}

/// Whether JSON writes a text as it is.
pub open spec fn is_unescaped(s: Seq<char>) -> bool {
    forall|i: int|
        0 <= i < s.len() ==> 0x20 <= (#[trigger] s[i]) as u32 && (s[i] as u32) < 0x7F && s[i] != '"'
            && s[i] != '\\'
}

/// A JSON object with one member whose name and value are written as they are.
pub open spec fn plain_member(name: Seq<char>, value: Seq<char>) -> Seq<char> {
    "{\""@ + name + "\":\""@ + value + "\"}"@
}

/// The bytes that `serde_json::to_vec` writes of an object with one member, a
/// text.
pub uninterp spec fn member_bytes(name: Seq<char>, value: Seq<char>) -> Option<Seq<u8>>;

/// `serde_json::to_vec`, of an object with one member, a text: what it writes
/// depends on the name and the text alone. Printable ASCII is written as it is,
/// but for quotation marks and backslashes, and such an object is always written.
#[verifier::external_body]
fn write_member(name: &str, value: &str) -> (r: Option<Vec<u8>>)
    ensures
        match r {
            Some(bytes) => member_bytes(name@, value@) == Some(bytes@),
            None => member_bytes(name@, value@) is None,
        },
        is_unescaped(name@) && is_unescaped(value@) ==> r is Some && r->0@ == encode_utf8(
            plain_member(name@, value@),
        ),
{
    let mut members = serde_json::Map::new();
    members.insert(name.to_owned(), serde_json::Value::String(value.to_owned()));
    serde_json::to_vec(&serde_json::Value::Object(members)).ok()
}

/// The body of a refusal.
pub open spec fn error_body(message: Seq<char>) -> Seq<u8> {
    match member_bytes("error"@, message) {
        Some(bytes) => bytes,
        None => Seq::empty(),
    }
}

/// Answers with a refusal.
pub fn json_error(status: u16, message: &str) -> (r: Vec<u8>)
    ensures
        r@ == response_bytes(status, JSON_TYPE@, error_body(message@), None),
        is_unescaped(message@) ==> error_body(message@) == encode_utf8(
            plain_member("error"@, message@),
        ),
{
    let body = match write_member("error", message) {
        Some(bytes) => bytes,
        None => Vec::new(),
    };
    proof {
        reveal_strlit("error");
        assert(is_unescaped("error"@));
    }
    response(status, JSON_TYPE, body, None)
}

/// Whether a text has no carriage return.
pub open spec fn is_one_line(s: Seq<char>) -> bool {
    forall|i: int| 0 <= i < s.len() ==> #[trigger] s[i] != '\r'
}

proof fn lemma_head_goes_on(line: Seq<char>, rest: Seq<char>)
    requires
        is_one_line(line),
    ensures
        after_head(line + rest) == after_head(rest),
    decreases line.len(),
{
    if line.len() == 0 {
        assert(line + rest =~= rest);
    } else {
        assert((line + rest)[0] == line[0]);
        assert((line + rest).drop_first() =~= line.drop_first() + rest);
        lemma_head_goes_on(line.drop_first(), rest);
    }
}

proof fn lemma_head_ends(lines: Seq<Seq<char>>, body: Seq<char>)
    requires
        forall|i: int|
            0 <= i < lines.len() ==> (#[trigger] lines[i]).len() > 0 && is_one_line(lines[i]),
    ensures
        after_head("\r\n"@ + head_text(lines) + body) == body,
    decreases lines.len(),
{
    reveal_strlit("\r\n");
    let all = "\r\n"@ + head_text(lines) + body;
    if lines.len() == 0 {
        assert(ends_head(all));
        assert(all.skip(4) =~= body);
    } else {
        let rest = "\r\n"@ + head_text(lines.drop_first()) + body;
        let line = lines[0];
        let second = all.drop_first();
        assert(all =~= "\r\n"@ + line + rest);
        assert(all[2] == line[0]);
        assert(second[0] == '\n');
        assert(second.drop_first() =~= line + rest);
        assert(after_head(all) == after_head(second));
        assert(after_head(second) == after_head(line + rest));
        lemma_head_goes_on(line, rest);
        lemma_head_ends(lines.drop_first(), body);
    }
}

/// The head of a response ends where its body begins: what follows the first
/// blank line of a response is its body, whatever the body is.
pub proof fn body_follows_the_head(
    status: u16,
    content_type: Seq<char>,
    content_length: nat,
    disposition: Option<Seq<char>>,
    body: Seq<char>,
)
    requires
        is_one_line(content_type),
        disposition is Some ==> is_one_line(disposition->0),
    ensures
        after_head(
            head_text(head_lines(status, content_type, content_length, disposition)) + body,
        ) == body,
{
    let lines = head_lines(status, content_type, content_length, disposition);
    lemma_nat_text_value(status as nat);
    lemma_nat_text_value(content_length);
    reveal_strlit("HTTP/1.1 ");
    reveal_strlit(" ");
    reveal_strlit("OK");
    reveal_strlit("Bad Request");
    reveal_strlit("Not Found");
    reveal_strlit("Internal Server Error");
    reveal_strlit("Content-Type: ");
    reveal_strlit("Content-Length: ");
    reveal_strlit("Connection: close");
    reveal_strlit("Content-Disposition: ");
    assert(is_one_line(nat_text(status as nat)));
    assert(is_one_line(nat_text(content_length)));
    assert(is_one_line("HTTP/1.1 "@));
    assert(is_one_line(reason(status)));
    assert(is_one_line(lines[0]));
    assert(is_one_line(lines[1]));
    assert(is_one_line(lines[2]));
    assert(is_one_line(lines[3]));
    let rest = lines.drop_first();
    let after_first = "\r\n"@ + head_text(rest) + body;
    assert(head_text(lines) + body =~= lines[0] + after_first);
    lemma_head_goes_on(lines[0], after_first);
    lemma_head_ends(rest, body);
}

/// Whether a text is one word.
pub open spec fn is_word(s: Seq<char>) -> bool {
    s.len() > 0 && forall|i: int| 0 <= i < s.len() ==> !is_space(#[trigger] s[i])
}

proof fn lemma_word(word: Seq<char>, rest: Seq<char>)
    requires
        forall|i: int| 0 <= i < word.len() ==> !is_space(#[trigger] word[i]),
        rest.len() > 0 ==> is_space(rest[0]),
    ensures
        word_len(word + rest) == word.len(),
    decreases word.len(),
{
    if word.len() > 0 {
        assert((word + rest)[0] == word[0]);
        assert((word + rest).drop_first() =~= word.drop_first() + rest);
        lemma_word(word.drop_first(), rest);
    } else if rest.len() > 0 {
        assert((word + rest)[0] == rest[0]);
    }
}

/// A request is read as it was written: its method, what its URI names, and its
/// body.
pub proof fn requests_are_read_as_written(method: Seq<char>, uri: Seq<char>, body: Seq<char>)
    requires
        is_word(method),
        is_word(uri),
    ensures
        request_of(method + " "@ + uri + " HTTP/1.1\r\n\r\n"@ + body) == (RequestView {
            method,
            path: before(uri, '?'),
            params: uri_params(uri),
            body,
        }),
{
    reveal_strlit(" ");
    reveal_strlit(" HTTP/1.1\r\n\r\n");
    let tail = " HTTP/1.1\r\n\r\n"@;
    let version = tail.take(9);
    let text = method + " "@ + uri + tail + body;
    let line = method + " "@ + uri + tail.take(10);
    // The first line.
    assert(text =~= line + tail.skip(10) + body);
    assert(text[line.len() as int] == '\n');
    assert forall|i: int| 0 <= i < line.len() implies text[i] != '\n' by {
        assert(text[i] == line[i]);
    }
    lemma_first_at_is(text, '\n', line.len() as int);
    assert(request_line(text) =~= line);
    // Its words.
    let after_method = " "@ + uri + tail.take(10);
    assert(line =~= method + after_method);
    assert(line[0] == method[0]);
    lemma_word(method, after_method);
    assert(first_word(line) =~= method);
    assert(after_word(line) =~= after_method);
    assert(after_method[0] == ' ');
    assert(after_method.drop_first() =~= uri + tail.take(10));
    assert((uri + tail.take(10))[0] == uri[0]);
    assert(without_leading_space(after_method.drop_first()) == uri + tail.take(10));
    assert(without_leading_space(after_method) == uri + tail.take(10));
    lemma_word(uri, tail.take(10));
    assert(first_word(after_method) =~= uri);
    // Its body.
    let head = method + " "@ + uri + version;
    let rest = tail.skip(9) + body;
    assert(text =~= head + rest);
    assert forall|i: int| 0 <= i < head.len() implies #[trigger] head[i] != '\r' by {
        if i < method.len() {
            assert(head[i] == method[i]);
        } else if method.len() < i < method.len() + 1 + uri.len() {
            assert(head[i] == uri[i - method.len() - 1]);
        } else if i > method.len() {
            assert(head[i] == version[i - method.len() - 1 - uri.len()]);
        }
    }
    lemma_head_goes_on(head, rest);
    assert(ends_head(rest));
    assert(rest.skip(4) =~= body);
}

/// Whether bytes have no percent sign.
pub open spec fn has_no_percent(bytes: Seq<u8>) -> bool {
    forall|i: int| 0 <= i < bytes.len() ==> #[trigger] bytes[i] != 0x25
}

proof fn lemma_decoded_is_kept(bytes: Seq<u8>)
    requires
        has_no_percent(bytes),
    ensures
        percent_decoded(bytes) == bytes,
    decreases bytes.len(),
{
    if bytes.len() > 0 {
        lemma_decoded_is_kept(bytes.skip(1));
        assert(seq![bytes[0]] + bytes.skip(1) =~= bytes);
    }
}

proof fn lemma_scalar_has_no_percent(c: u32)
    requires
        c != 0x25,
    ensures
        has_no_percent(vstd::utf8::encode_scalar(c)),
{
    assert(c <= 0x7F && c != 0x25 ==> (c & 0x7F) as u8 != 0x25) by (bit_vector);
    assert(0xC0 | ((c >> 6) & 0x1F) as u8 != 0x25) by (bit_vector);
    assert(0xE0 | ((c >> 12) & 0x0F) as u8 != 0x25) by (bit_vector);
    assert(0xF0 | ((c >> 18) & 0x7) as u8 != 0x25) by (bit_vector);
    assert(0x80 | (c & 0x3F) as u8 != 0x25) by (bit_vector);
    assert(0x80 | ((c >> 6) & 0x3F) as u8 != 0x25) by (bit_vector);
    assert(0x80 | ((c >> 12) & 0x3F) as u8 != 0x25) by (bit_vector);
}

proof fn lemma_text_has_no_percent(text: Seq<char>)
    requires
        !text.contains('%'),
    ensures
        has_no_percent(encode_utf8(text)),
    decreases text.len(),
{
    if text.len() > 0 {
        let rest = text.drop_first();
        assert(text.contains(text[0]));
        assert(!rest.contains('%')) by {
            if rest.contains('%') {
                let k = choose|k: int| 0 <= k < rest.len() && rest[k] == '%';
                assert(text[k + 1] == '%');
            }
        }
        assert(text[0] as u32 != 0x25) by {
            vstd::utf8::char_u32_cast(text[0], text[0] as u32);
        }
        lemma_scalar_has_no_percent(text[0] as u32);
        lemma_text_has_no_percent(rest);
    }
}

/// A text without percent signs stands for itself.
pub proof fn plain_text_stands_for_itself(text: Seq<char>)
    requires
        !text.contains('%'),
    ensures
        decoded(text) == text,
{
    lemma_text_has_no_percent(text);
    lemma_decoded_is_kept(encode_utf8(text));
    vstd::utf8::encode_utf8_valid_utf8(text);
    vstd::utf8::encode_utf8_decode_utf8(text);
}

/// The hexadecimal digit of a value.
pub open spec fn hex_digit(value: int) -> u8 {
    if value < 10 {
        (0x30 + value) as u8
    } else {
        (0x41 + value - 10) as u8
    }
}

/// Bytes, each as a percent sign and the two digits that name it.
pub open spec fn percent_encoded(bytes: Seq<u8>) -> Seq<u8>
    decreases bytes.len(),
{
    if bytes.len() == 0 {
        bytes
    } else {
        seq![0x25u8, hex_digit(bytes[0] as int / 16), hex_digit(bytes[0] as int % 16)]
            + percent_encoded(bytes.skip(1))
    }
}

/// Decoding undoes encoding, whatever the bytes are.
pub proof fn decoding_undoes_encoding(bytes: Seq<u8>)
    ensures
        percent_decoded(percent_encoded(bytes)) == bytes,
    decreases bytes.len(),
{
    if bytes.len() > 0 {
        let all = percent_encoded(bytes);
        assert(all.skip(3) =~= percent_encoded(bytes.skip(1)));
        decoding_undoes_encoding(bytes.skip(1));
        assert(hex_value(all[1]) == Some(bytes[0] as int / 16));
        assert(hex_value(all[2]) == Some(bytes[0] as int % 16));
        assert(seq![bytes[0]] + bytes.skip(1) =~= bytes);
    }
}

/// Whether a text stands for itself in the parameters of a URI.
pub open spec fn is_plain_part(s: Seq<char>) -> bool {
    !s.contains('%') && !s.contains('&')
}

/// The parts of a query that give values to names.
pub open spec fn query_parts(names: Seq<Seq<char>>, values: Seq<Seq<char>>) -> Seq<Seq<char>> {
    Seq::new(names.len(), |i: int| names[i] + seq!['='] + values[i])
}

proof fn lemma_part(name: Seq<char>, value: Seq<char>)
    requires
        is_plain_part(name),
        is_plain_part(value),
        !name.contains('='),
    ensures
        ({
            let part = name + seq!['='] + value;
            &&& !part.contains('&')
            &&& part.len() > 0
            &&& decoded(before(part, '=')) == name
            &&& decoded(after(part, '=')) == value
        }),
{
    let part = name + seq!['='] + value;
    assert(part[name.len() as int] == '=');
    assert forall|i: int| 0 <= i < name.len() implies part[i] != '=' by {
        assert(part[i] == name[i]);
        assert(name.contains(name[i]));
    }
    lemma_first_at_is(part, '=', name.len() as int);
    assert(before(part, '=') =~= name);
    assert(after(part, '=') =~= value);
    plain_text_stands_for_itself(name);
    plain_text_stands_for_itself(value);
    if part.contains('&') {
        let k = choose|k: int| 0 <= k < part.len() && part[k] == '&';
        if k < name.len() {
            assert(name[k] == '&');
        } else {
            assert(k != name.len());
            assert(value[k - name.len() - 1] == '&');
        }
    }
}

proof fn lemma_query(names: Seq<Seq<char>>, values: Seq<Seq<char>>, n: int)
    requires
        names.len() == values.len(),
        0 <= n <= names.len(),
        forall|i: int|
            0 <= i < names.len() ==> is_plain_part(#[trigger] names[i]) && !names[i].contains('='),
        forall|i: int| 0 <= i < values.len() ==> is_plain_part(#[trigger] values[i]),
    ensures
        ({
            let params = query_params(query_parts(names, values).take(n));
            &&& forall|i: int|
                0 <= i < n && (forall|j: int| i < j < n ==> #[trigger] names[j] != names[i])
                    ==> params.contains_key(#[trigger] names[i]) && params[names[i]] == values[i]
            &&& forall|name: Seq<char>| #[trigger]
                params.contains_key(name) ==> exists|i: int|
                    0 <= i < n && #[trigger] names[i] == name
        }),
    decreases n,
{
    let parts = query_parts(names, values);
    if n > 0 {
        let last = n - 1;
        lemma_query(names, values, last);
        lemma_part(names[last], values[last]);
        assert(parts.take(n).drop_last() =~= parts.take(last));
        assert(parts.take(n).last() == names[last] + seq!['='] + values[last]);
        let earlier = query_params(parts.take(last));
        let params = query_params(parts.take(n));
        assert(params == earlier.insert(names[last], values[last]));
        assert forall|i: int|
            0 <= i < n && (forall|j: int|
                i < j < n ==> #[trigger] names[j] != names[i]) implies params.contains_key(
            #[trigger] names[i],
        ) && params[names[i]] == values[i] by {
            if i < last {
                assert(names[last] != names[i]);
                assert(forall|j: int| i < j < last ==> #[trigger] names[j] != names[i]);
            }
        }
        assert forall|name: Seq<char>| #[trigger] params.contains_key(name) implies exists|i: int|
            0 <= i < n && #[trigger] names[i] == name by {
            if name == names[last] {
                assert(names[last] == name);
            } else {
                assert(earlier.contains_key(name));
            }
        }
    }
}

/// The parameters of a URI are read as they are written behind its path: each name has
/// the value that was given to it last, and no other name has one.
pub proof fn parameters_are_read_as_written(
    path: Seq<char>,
    names: Seq<Seq<char>>,
    values: Seq<Seq<char>>,
)
    requires
        !path.contains('?'),
        names.len() == values.len(),
        names.len() > 0,
        forall|i: int|
            0 <= i < names.len() ==> is_plain_part(#[trigger] names[i]) && !names[i].contains('='),
        forall|i: int| 0 <= i < values.len() ==> is_plain_part(#[trigger] values[i]),
    ensures
        ({
            let uri = path + seq!['?'] + join_texts(query_parts(names, values), seq!['&']);
            let params = uri_params(uri);
            &&& before(uri, '?') == path
            &&& forall|i: int|
                0 <= i < names.len() && (forall|j: int|
                    i < j < names.len() ==> #[trigger] names[j] != names[i])
                    ==> params.contains_key(#[trigger] names[i]) && params[names[i]] == values[i]
            &&& forall|name: Seq<char>| #[trigger]
                params.contains_key(name) ==> exists|i: int|
                    0 <= i < names.len() && #[trigger] names[i] == name
        }),
{
    let parts = query_parts(names, values);
    let query = join_texts(parts, seq!['&']);
    let uri = path + seq!['?'] + query;
    assert(uri[path.len() as int] == '?');
    assert forall|i: int| 0 <= i < path.len() implies uri[i] != '?' by {
        assert(uri[i] == path[i]);
        assert(path.contains(path[i]));
    }
    lemma_first_at_is(uri, '?', path.len() as int);
    assert(before(uri, '?') =~= path);
    assert(after(uri, '?') =~= query);
    assert forall|i: int| 0 <= i < parts.len() implies !(#[trigger] parts[i]).contains('&') by {
        lemma_part(names[i], values[i]);
    }
    split_undoes_join(parts, '&');
    assert(parts.take(parts.len() as int) =~= parts);
    lemma_query(names, values, names.len() as int);
}

/// The head of a response says what it is: its status in figures and in words, the
/// type of its body, and how many bytes the body has. The body follows.
pub proof fn responses_say_what_they_are(
    status: u16,
    content_type: Seq<char>,
    body: Seq<u8>,
    disposition: Option<Seq<char>>,
)
    ensures
        exists|lines: Seq<Seq<char>>, figures: Seq<char>, words: Seq<char>, length: Seq<char>|
            {
                &&& response_bytes(status, content_type, body, disposition) == encode_utf8(
                    #[trigger] head_text(lines),
                ) + body
                &&& lines[0] == #[trigger] ("HTTP/1.1 "@ + figures + " "@ + words)
                &&& digits_value(figures) == status && all_digits(figures)
                &&& status == 200 ==> words == "OK"@
                &&& status == 400 ==> words == "Bad Request"@
                &&& status == 404 ==> words == "Not Found"@
                &&& status == 500 ==> words == "Internal Server Error"@
                &&& lines[1] == "Content-Type: "@ + content_type
                &&& lines[2] == #[trigger] ("Content-Length: "@ + length)
                &&& digits_value(length) == body.len() && all_digits(length)
                &&& lines[3] == "Connection: close"@
                &&& disposition is None ==> lines.len() == 4
                &&& disposition is Some ==> lines.len() == 5 && lines[4]
                    == "Content-Disposition: "@ + disposition->0
            },
{
    let lines = head_lines(status, content_type, body.len(), disposition);
    let figures = nat_text(status as nat);
    let words = reason(status);
    let length = nat_text(body.len());
    lemma_nat_text_value(status as nat);
    lemma_nat_text_value(body.len());
    assert(lines[0] == "HTTP/1.1 "@ + figures + " "@ + words);
    assert(lines[2] == "Content-Length: "@ + length);
    assert(response_bytes(status, content_type, body, disposition) == encode_utf8(
        head_text(lines),
    ) + body);
}

/// The lines of a head are its parts between one end of a line and the next, up to the
/// blank line.
pub proof fn heads_are_lines(lines: Seq<Seq<char>>, i: int)
    requires
        0 <= i < lines.len(),
    ensures
        head_text(lines.skip(i)) == lines[i] + seq!['\r', '\n'] + head_text(lines.skip(i + 1)),
        head_text(lines.skip(lines.len() as int)) == seq!['\r', '\n'],
        lines.skip(0) == lines,
{
    reveal_strlit("\r\n");
    assert("\r\n"@ =~= seq!['\r', '\n']);
    assert(lines.skip(i).drop_first() =~= lines.skip(i + 1));
    assert(lines.skip(0) =~= lines);
}

/// Each kind of body has its own type.
pub proof fn bodies_have_their_types()
    ensures
        JSON_TYPE@ == "application/json; charset=utf-8"@,
        HTML_TYPE@ == "text/html; charset=utf-8"@,
        CSV_TYPE@ == "text/csv; charset=utf-8"@,
{
}

/// An object with one member has the name and the value in quotation marks, and so has
/// the name of a file.
pub proof fn names_stand_in_quotation_marks(name: Seq<char>, value: Seq<char>)
    ensures
        plain_member(name, value) == seq!['{', '"'] + name + seq!['"', ':', '"'] + value + seq![
            '"',
            '}',
        ],
        attachment(name) == "attachment; filename="@ + seq!['"'] + name + seq!['"'],
{
    reveal_strlit("{\"");
    reveal_strlit("\":\"");
    reveal_strlit("\"}");
    reveal_strlit("\"");
    reveal_strlit("attachment; filename=\"");
    reveal_strlit("attachment; filename=");
    assert("{\""@ =~= seq!['{', '"']);
    assert("\":\""@ =~= seq!['"', ':', '"']);
    assert("\"}"@ =~= seq!['"', '}']);
    assert("\""@ =~= seq!['"']);
    assert("attachment; filename=\""@ =~= "attachment; filename="@ + seq!['"']);
}

} // verus!
