use crate::text::{
    crlf_at, is_line, is_token, join_lines, lemma_lines_of_join, lemma_tokens_are_tokens,
    lemma_tokens_cons, lemma_tokens_single, lines_of, split_lines, split_tokens, tokens_of,
};
use vstd::prelude::*;
use vstd::slice::slice_subrange;
use vstd::string::StringSliceAdditionalSpecFns;
use vstd::utf8::{decode_utf8, encode_utf8_decode_utf8, valid_utf8};

verus! {

/// Why a client request could not be read.
#[derive(Debug, Clone, Copy, PartialEq, Eq, Structural)]
pub enum ParseError {
    /// The request line holds no token at all.
    MissingMethod,
    /// The request line ends after the method name.
    MissingUri,
    /// The request line ends after the target.
    MissingVersion,
    /// No empty line follows the request line.
    MissingBlankLine,
    /// The first empty line is the last line of the input, so the blank line
    /// that ends the header was never completed.
    BlankLineLast,
    /// The bytes received are not UTF-8.
    NotUtf8,
}

impl ParseError {
    /// What the error says, in words.
    pub open spec fn message_spec(self) -> Seq<char> {
        match self {
            ParseError::MissingMethod => "No method in client request"@,
            ParseError::MissingUri => "No URI in client request"@,
            ParseError::MissingVersion => "No HTTP protocol version in client request"@,
            ParseError::MissingBlankLine => "Invalid request"@,
            ParseError::BlankLineLast => "Invalid request"@,
            ParseError::NotUtf8 => "Client request is not UTF-8"@,
        }
    }

    /// What the error says, in words.
    pub fn message(&self) -> (message: &'static str)
        ensures
            message@ == self.message_spec(),
    {
        match self {
            ParseError::MissingMethod => "No method in client request",
            ParseError::MissingUri => "No URI in client request",
            ParseError::MissingVersion => "No HTTP protocol version in client request",
            ParseError::MissingBlankLine => "Invalid request",
            ParseError::BlankLineLast => "Invalid request",
            ParseError::NotUtf8 => "Client request is not UTF-8",
        }
    }
}

/// What a request line states: the method, the target and the protocol
/// version, as character sequences.
pub struct MethodView {
    pub name: Seq<char>,
    pub uri: Seq<char>,
    pub version: Seq<char>,
}

/// What a client request states.
pub struct RequestView {
    pub method: MethodView,
    pub header: Seq<Seq<char>>,
    pub data_block: Seq<Seq<char>>,
}

/// The request line of a client request.
#[derive(Debug, PartialEq)]
pub struct ConnectMethod {
    pub name: String,
    pub uri: String,
    pub version: String,
}

/// A client request: its request line, its header lines and the lines that
/// follow the header.
#[derive(Debug, PartialEq)]
pub struct ClientRequest {
    pub method: ConnectMethod,
    pub header: Vec<String>,
    pub data_block: Vec<String>,
}

impl View for ConnectMethod {
    type V = MethodView;

    open spec fn view(&self) -> MethodView {
        MethodView { name: self.name@, uri: self.uri@, version: self.version@ }
    }
}

impl View for ClientRequest {
    type V = RequestView;

    open spec fn view(&self) -> RequestView {
        RequestView {
            method: self.method@,
            header: self.header.deep_view(),
            data_block: self.data_block.deep_view(),
        }
    }
}

impl MethodView {
    /// Holds of every request line that was parsed: each part is a token.
    pub open spec fn well_formed(self) -> bool {
        is_token(self.name) && is_token(self.uri) && is_token(self.version)
    }
}

impl ConnectMethod {
    pub fn new(name: &str, uri: &str, version: &str) -> (method: ConnectMethod)
        ensures
            method@ == (MethodView { name: name@, uri: uri@, version: version@ }),
    {
        ConnectMethod { name: name.to_owned(), uri: uri.to_owned(), version: version.to_owned() }
    }
}

/// What a request line states: its first three tokens. A line with fewer
/// tokens is refused, with the error that names the first one absent; tokens
/// after the third are ignored.
pub open spec fn method_of(line: Seq<char>) -> Result<MethodView, ParseError> {
    let tokens = tokens_of(line);
    if tokens.len() == 0 {
        Err(ParseError::MissingMethod)
    } else if tokens.len() == 1 {
        Err(ParseError::MissingUri)
    } else if tokens.len() == 2 {
        Err(ParseError::MissingVersion)
    } else {
        Ok(MethodView { name: tokens[0], uri: tokens[1], version: tokens[2] })
    }
}

/// The index of the first empty line at or after `from`, or the number of
/// lines when there is none.
pub open spec fn first_blank(lines: Seq<Seq<char>>, from: int) -> int
    decreases lines.len() - from,
{
    if from < 0 || from >= lines.len() {
        lines.len() as int
    } else if lines[from].len() == 0 {
        from
    } else {
        first_blank(lines, from + 1)
    }
}

/// The lines after the blank line at index `blank`, without the last line of
/// the input where that one is empty.
pub open spec fn data_block_of(lines: Seq<Seq<char>>, blank: int) -> Seq<Seq<char>>
    recommends
        0 <= blank < lines.len() - 1,
{
    if lines.last().len() == 0 {
        lines.subrange(blank + 1, lines.len() - 1)
    } else {
        lines.subrange(blank + 1, lines.len() as int)
    }
}

/// What a request states that was cut into `lines`. The first line is the
/// request line. The first empty line after it ends the header, and counts
/// only where another line follows it.
pub open spec fn request_of_lines(lines: Seq<Seq<char>>) -> Result<RequestView, ParseError>
    recommends
        lines.len() > 0,
{
    match method_of(lines[0]) {
        Err(e) => Err(e),
        Ok(method) => {
            let blank = first_blank(lines, 1);
            if blank >= lines.len() {
                Err(ParseError::MissingBlankLine)
            } else if blank == lines.len() - 1 {
                Err(ParseError::BlankLineLast)
            } else {
                Ok(
                    RequestView {
                        method,
                        header: lines.subrange(1, blank),
                        data_block: data_block_of(lines, blank),
                    },
                )
            }
        },
    }
}

/// What the request text `text` states.
pub open spec fn request_of(text: Seq<char>) -> Result<RequestView, ParseError> {
    request_of_lines(lines_of(text))
}

/// Parses a request line.
pub fn parse_method(line: &str) -> (parsed: Result<ConnectMethod, ParseError>)
    ensures
        match parsed {
            Ok(method) => method_of(line@) == Ok::<MethodView, ParseError>(method@),
            Err(e) => method_of(line@) == Err::<MethodView, ParseError>(e),
        },
        parsed matches Ok(method) ==> method@.well_formed(),
{
    let tokens = split_tokens(line);
    proof {
        lemma_tokens_are_tokens(line@, 0);
    }
    if tokens.len() == 0 {
        Err(ParseError::MissingMethod)
    } else if tokens.len() == 1 {
        Err(ParseError::MissingUri)
    } else if tokens.len() == 2 {
        Err(ParseError::MissingVersion)
    } else {
        Ok(ConnectMethod::new(tokens[0], tokens[1], tokens[2]))
    }
}

/// Where the parser stands between two lines.
#[derive(Clone, Copy, Debug, PartialEq, Eq, Structural)]
pub enum ParseState {
    /// The request line is expected.
    Method,
    /// Header lines are read, up to the blank line.
    Header,
    /// The blank line was passed: the remaining lines are kept as they are.
    DataBlock,
}

impl Default for ConnectMethod {
    fn default() -> (method: ConnectMethod)
        ensures
            method@ == (MethodView { name: Seq::empty(), uri: Seq::empty(), version: Seq::empty() }),
    {
        ConnectMethod { name: String::new(), uri: String::new(), version: String::new() }
    }
}

impl Default for ClientRequest {
    fn default() -> (request: ClientRequest)
        ensures
            request@ == (RequestView {
                method: MethodView {
                    name: Seq::empty(),
                    uri: Seq::empty(),
                    version: Seq::empty(),
                },
                header: Seq::empty(),
                data_block: Seq::empty(),
            }),
    {
        let request = ClientRequest {
            method: ConnectMethod::default(),
            header: Vec::new(),
            data_block: Vec::new(),
        };
        assert(request.header.deep_view() =~= Seq::<Seq<char>>::empty());
        assert(request.data_block.deep_view() =~= Seq::<Seq<char>>::empty());
        request
    }
}

/// What the parser has established when it stands in `state` before line `i`
/// of `lines`, with `request` built so far.
pub open spec fn parser_at(
    lines: Seq<Seq<char>>,
    i: int,
    state: ParseState,
    request: RequestView,
) -> bool {
    match state {
        ParseState::Method => {
            &&& i == 0
            &&& request.header == Seq::<Seq<char>>::empty()
            &&& request.data_block == Seq::<Seq<char>>::empty()
        },
        ParseState::Header => {
            &&& i >= 1
            &&& request.data_block == Seq::<Seq<char>>::empty()
            &&& method_of(lines[0]) == Ok::<MethodView, ParseError>(request.method)
            &&& first_blank(lines, 1) == first_blank(lines, i)
            &&& request.header == lines.subrange(1, i)
        },
        ParseState::DataBlock => {
            let blank = first_blank(lines, 1);
            &&& 1 <= blank < lines.len() - 1
            &&& blank < i
            &&& method_of(lines[0]) == Ok::<MethodView, ParseError>(request.method)
            &&& request.header == lines.subrange(1, blank)
            &&& request.data_block == if i == lines.len() {
                data_block_of(lines, blank)
            } else {
                lines.subrange(blank + 1, i)
            }
        },
    }
}

/// Parses a client request: the request line, the header lines up to the
/// blank line, and the lines after it.
pub fn parse_request(request: &str) -> (parsed: Result<ClientRequest, ParseError>)
    ensures
        match parsed {
            Ok(r) => request_of(request@) == Ok::<RequestView, ParseError>(r@),
            Err(e) => request_of(request@) == Err::<RequestView, ParseError>(e),
        },
        parsed matches Ok(r) ==> r@.method.well_formed(),
{
    let lines = split_lines(request);
    let n = lines.len();
    let ghost all = lines_of(request@);
    proof {
        lemma_parsed_is_well_formed(request@);
    }
    let mut parsed = ClientRequest::default();
    let mut state = ParseState::Method;
    let mut i: usize = 0;
    while i < n
        invariant
            n == lines.len(),
            i <= n,
            all == lines.deep_view(),
            all == lines_of(request@),
            parser_at(all, i as int, state, parsed@),
        decreases n - i,
    {
        match state {
            ParseState::Method => {
                match parse_method(lines[i]) {
                    Ok(method) => {
                        parsed.method = method;
                    },
                    Err(e) => {
                        return Err(e);
                    },
                }
                state = ParseState::Header;
                assert(parsed@.header =~= all.subrange(1, 1));
            },
            ParseState::Header => {
                if lines[i].is_empty() {
                    if i + 1 < n {
                        state = ParseState::DataBlock;
                        assert(parsed@.data_block =~= all.subrange(i + 1, i + 1));
                    } else {
                        return Err(ParseError::BlankLineLast);
                    }
                } else {
                    let ghost before = parsed@.header;
                    parsed.header.push(lines[i].to_owned());
                    assert(parsed@.header =~= before.push(all[i as int]));
                    assert(parsed@.header =~= all.subrange(1, i + 1));
                }
            },
            ParseState::DataBlock => {
                if !lines[i].is_empty() || i < n - 1 {
                    let ghost before = parsed@.data_block;
                    parsed.data_block.push(lines[i].to_owned());
                    assert(parsed@.data_block =~= before.push(all[i as int]));
                    assert(parsed@.data_block =~= all.subrange(first_blank(all, 1) + 1, i + 1));
                }
            },
        }
        i += 1;
    }
    match state {
        ParseState::DataBlock => Ok(parsed),
        ParseState::Header => Err(ParseError::MissingBlankLine),
        ParseState::Method => Err(ParseError::MissingMethod),
    }
}

/// Whatever parses is well formed: the method, the target and the version
/// of a request that was read are tokens, so none of them is empty.
pub proof fn lemma_parsed_is_well_formed(text: Seq<char>)
    ensures
        request_of(text) matches Ok(r) ==> r.method.well_formed(),
{
    lemma_tokens_are_tokens(lines_of(text)[0], 0);
}

/// Where no line in `from..end` is empty, the first empty line at or after
/// `from` is the first at or after `end`.
pub proof fn lemma_first_blank_skip(lines: Seq<Seq<char>>, from: int, end: int)
    requires
        0 <= from <= end <= lines.len(),
        forall|k: int| from <= k < end ==> lines[k].len() > 0,
    ensures
        first_blank(lines, from) == first_blank(lines, end),
    decreases end - from,
{
    if from < end {
        lemma_first_blank_skip(lines, from + 1, end);
    }
}

/// A request is refused for its request line alone where that line has
/// fewer than three tokens, and the error names the first token absent.
pub proof fn lemma_short_request_line_is_refused(text: Seq<char>)
    requires
        tokens_of(lines_of(text)[0]).len() < 3,
    ensures
        request_of(text) == Err::<RequestView, ParseError>(
            if tokens_of(lines_of(text)[0]).len() == 0 {
                ParseError::MissingMethod
            } else if tokens_of(lines_of(text)[0]).len() == 1 {
                ParseError::MissingUri
            } else {
                ParseError::MissingVersion
            },
        ),
{
}

/// A request without an empty line after the request line is refused: for
/// its request line where that is short of a token, and else for the blank
/// line that is absent.
pub proof fn lemma_missing_blank_line_is_refused(text: Seq<char>)
    requires
        forall|i: int| 1 <= i < lines_of(text).len() ==> lines_of(text)[i].len() > 0,
    ensures
        request_of(text) is Err,
        tokens_of(lines_of(text)[0]).len() >= 3 ==> request_of(text) == Err::<
            RequestView,
            ParseError,
        >(ParseError::MissingBlankLine),
{
    let lines = lines_of(text);
    lemma_first_blank_skip(lines, 1, lines.len() as int);
}

/// A request whose first empty line is the last line of the input is
/// refused: for its request line where that is short of a token, and else
/// because nothing follows the blank line.
pub proof fn lemma_blank_line_last_is_refused(text: Seq<char>)
    requires
        lines_of(text).len() >= 2,
        forall|i: int| 1 <= i < lines_of(text).len() - 1 ==> lines_of(text)[i].len() > 0,
        lines_of(text).last().len() == 0,
    ensures
        request_of(text) is Err,
        tokens_of(lines_of(text)[0]).len() >= 3 ==> request_of(text) == Err::<
            RequestView,
            ParseError,
        >(ParseError::BlankLineLast),
{
    let lines = lines_of(text);
    lemma_first_blank_skip(lines, 1, lines.len() - 1);
}

/// The request line that states `method`: its three parts with one space
/// between each two.
pub open spec fn request_line(method: MethodView) -> Seq<char> {
    method.name + seq![' '] + method.uri + seq![' '] + method.version
}

impl RequestView {
    /// Whether the request can be written as text: the parts of the request
    /// line are tokens, no header line is empty, and nothing holds a line
    /// break.
    pub open spec fn is_writable(self) -> bool {
        &&& self.method.well_formed()
        &&& is_line(self.method.name)
        &&& is_line(self.method.uri)
        &&& is_line(self.method.version)
        &&& forall|i: int|
            0 <= i < self.header.len() ==> (#[trigger] self.header[i]).len() > 0 && is_line(
                self.header[i],
            )
        &&& forall|i: int| 0 <= i < self.data_block.len() ==> is_line(#[trigger] self.data_block[i])
    }

    /// The lines of the request as text: the request line, the header lines,
    /// an empty line, the lines of the data block, and an empty last line, so
    /// that the text ends in a line break.
    pub open spec fn lines(self) -> Seq<Seq<char>> {
        seq![request_line(self.method)] + self.header + seq![Seq::<char>::empty()]
            + self.data_block + seq![Seq::<char>::empty()]
    }

    /// The request as text, every line ended by a line break.
    pub open spec fn text(self) -> Seq<char> {
        join_lines(self.lines())
    }
}

/// Two texts without a line break, put together with a space between them,
/// hold no line break.
pub proof fn lemma_spaced_is_line(a: Seq<char>, b: Seq<char>)
    requires
        is_line(a),
        is_line(b),
    ensures
        is_line(a + seq![' '] + b),
{
    let s = a + seq![' '] + b;
    let n = a.len() as int;
    assert forall|k: int| !crlf_at(s, k) by {
        if crlf_at(s, k) {
            if k + 1 < n {
                assert(s[k] == a[k] && s[k + 1] == a[k + 1]);
                assert(crlf_at(a, k));
            } else if k == n - 1 {
                assert(s[k + 1] == ' ');
            } else if k == n {
                assert(s[k] == ' ');
            } else {
                assert(s[k] == b[k - n - 1] && s[k + 1] == b[k - n]);
                assert(crlf_at(b, k - n - 1));
            }
        }
    }
}

/// The request line of a well-formed method reads back as that method.
pub proof fn lemma_method_of_request_line(method: MethodView)
    requires
        method.well_formed(),
    ensures
        method_of(request_line(method)) == Ok::<MethodView, ParseError>(method),
{
    let tail = method.uri + seq![' '] + method.version;
    lemma_tokens_single(method.version);
    lemma_tokens_cons(method.uri, method.version);
    lemma_tokens_cons(method.name, tail);
    assert(method.name + seq![' '] + tail =~= request_line(method));
}

/// Writing a request and reading it back gives the same request: the method,
/// the target, the version, the header lines and the lines of the data block,
/// each line as it was, in the same order and number.
pub proof fn lemma_parse_of_text(request: RequestView)
    requires
        request.is_writable(),
    ensures
        request_of(request.text()) == Ok::<RequestView, ParseError>(request),
{
    let method = request.method;
    let lines = request.lines();
    let n = request.header.len() as int;
    let m = request.data_block.len() as int;
    lemma_method_of_request_line(method);
    lemma_spaced_is_line(method.uri, method.version);
    lemma_spaced_is_line(method.name, method.uri + seq![' '] + method.version);
    assert(method.name + seq![' '] + (method.uri + seq![' '] + method.version) =~= request_line(
        method,
    ));
    assert(lines.len() == n + m + 3);
    assert(lines[0] == request_line(method));
    assert forall|i: int| 1 <= i < n + 1 implies lines[i] == request.header[i - 1] by {}
    assert(lines[n + 1] == Seq::<char>::empty());
    assert forall|i: int| n + 2 <= i < n + m + 2 implies lines[i] == request.data_block[i - n
        - 2] by {}
    assert(lines[n + m + 2] == Seq::<char>::empty());
    assert forall|i: int| 0 <= i < lines.len() implies is_line(#[trigger] lines[i]) by {
        if 1 <= i < n + 1 {
            assert(is_line(request.header[i - 1]));
        } else if n + 2 <= i < n + m + 2 {
            assert(is_line(request.data_block[i - n - 2]));
        }
    }
    lemma_lines_of_join(lines);
    assert forall|k: int| 1 <= k < n + 1 implies lines[k].len() > 0 by {
        assert(request.header[k - 1].len() > 0);
    }
    lemma_first_blank_skip(lines, 1, n + 1);
    assert(first_blank(lines, 1) == n + 1);
    assert(lines.subrange(1, n + 1) =~= request.header);
    assert(lines.subrange(n + 2, lines.len() - 1) =~= request.data_block);
}

/// The most bytes of a request that are read: a reasonable size for the
/// header of a `CONNECT` request.
pub const MAX_REQUEST_SIZE: usize = 1024;

/// `core::str::Utf8Error`, what `core::str::from_utf8` says of bytes that
/// are not UTF-8. Nothing of it is looked at.
#[verifier::external_type_specification]
#[verifier::external_body]
pub struct ExUtf8Error(core::str::Utf8Error);

/// `core::str::from_utf8` succeeds on the byte sequences that are UTF-8 and on
/// no others, and the string slice it then returns has the bytes it was given.
pub assume_specification[ core::str::from_utf8 ](v: &[u8]) -> (r: Result<
    &str,
    core::str::Utf8Error,
>)
    ensures
        r is Ok <==> valid_utf8(v@),
        r matches Ok(s) ==> s.spec_bytes() == v@,
;

/// What one read of at most `MAX_REQUEST_SIZE` bytes takes from `input`.
pub open spec fn first_read(input: Seq<u8>) -> Seq<u8> {
    if input.len() <= MAX_REQUEST_SIZE {
        input
    } else {
        input.take(MAX_REQUEST_SIZE as int)
    }
}

/// What the request bytes `bytes` state: they must be UTF-8, and are then
/// read as text.
pub open spec fn request_of_bytes(bytes: Seq<u8>) -> Result<RequestView, ParseError> {
    if valid_utf8(bytes) {
        request_of(decode_utf8(bytes))
    } else {
        Err(ParseError::NotUtf8)
    }
}

/// Reads a client request from `reader` in one read of at most
/// `MAX_REQUEST_SIZE` bytes. What lies beyond is not looked at, so a longer
/// request is parsed as far as it was read.
pub fn get_request(reader: &[u8]) -> (parsed: Result<ClientRequest, ParseError>)
    ensures
        match parsed {
            Ok(r) => request_of_bytes(first_read(reader@)) == Ok::<RequestView, ParseError>(r@),
            Err(e) => request_of_bytes(first_read(reader@)) == Err::<RequestView, ParseError>(e),
        },
        parsed matches Ok(r) ==> r@.method.well_formed(),
{
    let len = if reader.len() <= MAX_REQUEST_SIZE {
        reader.len()
    } else {
        MAX_REQUEST_SIZE
    };
    let buf = slice_subrange(reader, 0, len);
    assert(buf@ =~= first_read(reader@));
    match core::str::from_utf8(buf) {
        Ok(request) => {
            proof {
                encode_utf8_decode_utf8(request@);
            }
            parse_request(request)
        },
        Err(_) => Err(ParseError::NotUtf8),
    }
}

} // verus!
