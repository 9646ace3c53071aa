//! The modem's HTTP service.

use crate::at::exchange::{http_read_script, http_read_script_of, http_write_script, http_write_script_of, script_view, http_read_command, http_read_start_tag, http_write_command, Step};
use crate::at::tokenizer::{layout_of, scan, scanned, Token, TokenView};
use crate::at::{
    at_request, first_line_of, short_request, AtCommandRequest, AtCommandRequestView,
    AtCommandResponse, AtError, DEFAULT_TIMEOUT_MS, MAX_READ_BUFFER_SIZE,
};
use crate::bounded::{Text, AT_BUFFER_SIZE};
use crate::text::{parse_u32, push_bytes, whole_u32};
use vstd::prelude::*;
use vstd::string::StringSliceAdditionalSpecFns;

verus! {

/// What to do with the URL that was set.
#[derive(Debug, Clone, Copy, PartialEq, Eq)]
pub enum HttpAction {
    /// 0: GET.
    Get,
    /// 1: POST.
    Post,
    /// 2: HEAD.
    Head,
    /// 3: DELETE.
    Delete,
}

/// The status of an HTTP response.
#[derive(Debug, Clone, Copy, PartialEq, Eq)]
pub struct HttpStatusCode(pub u32);

impl HttpStatusCode {
    /// Whether the status is one of success, 200 to 299.
    pub fn is_ok(&self) -> (r: bool)
        ensures
            r == (200 <= self.0 < 300),
    {
        self.0 >= 200 && self.0 < 300
    }

    /// The status as a number.
    pub fn code(&self) -> (r: u32)
        ensures
            r == self.0,
    {
        self.0
    }
}

/// What the modem reports when an HTTP action is through.
#[derive(Debug, Clone, Copy, PartialEq, Eq)]
pub struct HttpActionResponse {
    /// The number of the action that was run.
    pub method: u32,
    /// The status of the response, from 100 to 599.
    pub status_code: HttpStatusCode,
    /// The length of the response body in bytes, below two to the power
    /// of 31.
    pub data_length: usize,
}

/// The text of the command that runs an action.
pub open spec fn action_command(action: HttpAction) -> Seq<u8> {
    match action {
        HttpAction::Get => "AT+HTTPACTION=0".spec_bytes(),
        HttpAction::Post => "AT+HTTPACTION=1".spec_bytes(),
        HttpAction::Head => "AT+HTTPACTION=2".spec_bytes(),
        HttpAction::Delete => "AT+HTTPACTION=3".spec_bytes(),
    }
}

/// The text of the command that sets the URL:
/// `AT+HTTPPARA="URL","<url>"`.
pub open spec fn set_url_command(url: Seq<u8>) -> Seq<u8> {
    "AT+HTTPPARA=\"URL\",\"".spec_bytes() + url + "\"".spec_bytes()
}

/// The text of the command that sets a request header:
/// `AT+HTTPPARA="USERDATA","<name>: <value>"`.
pub open spec fn set_header_command(name: Seq<u8>, value: Seq<u8>) -> Seq<u8> {
    "AT+HTTPPARA=\"USERDATA\",\"".spec_bytes() + name + ": ".spec_bytes() + value
        + "\"".spec_bytes()
}

/// The command that starts the HTTP service, `AT+HTTPINIT`.
pub fn init() -> (r: AtCommandRequest)
    ensures
        r@ == (AtCommandRequestView {
            command: "AT+HTTPINIT".spec_bytes(),
            timeout_ms: DEFAULT_TIMEOUT_MS,
            urc_prefix: None,
        }),
{
    proof {
        reveal_strlit("AT+HTTPINIT");
        crate::text::lemma_ascii_len("AT+HTTPINIT");
    }
    short_request("AT+HTTPINIT")
}

/// The command that stops the HTTP service, `AT+HTTPTERM`.
pub fn term() -> (r: AtCommandRequest)
    ensures
        r@ == (AtCommandRequestView {
            command: "AT+HTTPTERM".spec_bytes(),
            timeout_ms: DEFAULT_TIMEOUT_MS,
            urc_prefix: None,
        }),
{
    proof {
        reveal_strlit("AT+HTTPTERM");
        crate::text::lemma_ascii_len("AT+HTTPTERM");
    }
    short_request("AT+HTTPTERM")
}

/// A parameter of the next HTTP action, in specifications.
pub enum HttpParameterView {
    Url { url: Seq<u8> },
    ContentType { content_type: Seq<u8> },
    UserData { name: Seq<u8>, value: Seq<u8> },
}

/// A parameter of the next HTTP action.
#[derive(Debug, Clone, Copy, PartialEq, Eq)]
pub enum HttpParameter<'a> {
    /// The URL to act on.
    Url(&'a [u8]),
    /// The content type of the body.
    ContentType(&'a [u8]),
    /// A header of the request.
    UserData { name: &'a [u8], value: &'a [u8] },
}

impl<'a> View for HttpParameter<'a> {
    type V = HttpParameterView;

    open spec fn view(&self) -> HttpParameterView {
        match *self {
            HttpParameter::Url(url) => HttpParameterView::Url { url: url@ },
            HttpParameter::ContentType(content_type) => HttpParameterView::ContentType {
                content_type: content_type@,
            },
            HttpParameter::UserData { name, value } => HttpParameterView::UserData {
                name: name@,
                value: value@,
            },
        }
    }
}

/// The text of the command that sets the content type:
/// `AT+HTTPPARA="CONTENT","<type>"`.
pub open spec fn set_content_type_command(content_type: Seq<u8>) -> Seq<u8> {
    "AT+HTTPPARA=\"CONTENT\",\"".spec_bytes() + content_type + "\"".spec_bytes()
}

/// The text of the command that sets a parameter.
pub open spec fn set_parameter_command(parameter: HttpParameterView) -> Seq<u8> {
    match parameter {
        HttpParameterView::Url { url } => set_url_command(url),
        HttpParameterView::ContentType { content_type } => set_content_type_command(content_type),
        HttpParameterView::UserData { name, value } => set_header_command(name, value),
    }
}

/// The command that sets a parameter of the next HTTP action.
#[derive(Debug, Clone, Copy, PartialEq, Eq)]
pub struct SetHttpParameter<'a> {
    pub parameter: HttpParameter<'a>,
}

impl<'a> SetHttpParameter<'a> {
    /// The request that sends the command. Fails with a format error
    /// where the text does not fit its buffer.
    pub fn request(&self) -> (r: Result<AtCommandRequest, AtError>)
        ensures
            r.is_ok() == (set_parameter_command(self.parameter@).len() <= AT_BUFFER_SIZE),
            r matches Ok(request) ==> request@ == (AtCommandRequestView {
                command: set_parameter_command(self.parameter@),
                timeout_ms: DEFAULT_TIMEOUT_MS,
                urc_prefix: None,
            }),
            r matches Err(e) ==> e == AtError::FormatError,
    {
        let mut command: Vec<u8> = Vec::new();
        match self.parameter {
            HttpParameter::Url(url) => {
                push_bytes(&mut command, "AT+HTTPPARA=\"URL\",\"".as_bytes());
                push_bytes(&mut command, url);
                push_bytes(&mut command, "\"".as_bytes());
            },
            HttpParameter::ContentType(content_type) => {
                push_bytes(&mut command, "AT+HTTPPARA=\"CONTENT\",\"".as_bytes());
                push_bytes(&mut command, content_type);
                push_bytes(&mut command, "\"".as_bytes());
            },
            HttpParameter::UserData { name, value } => {
                push_bytes(&mut command, "AT+HTTPPARA=\"USERDATA\",\"".as_bytes());
                push_bytes(&mut command, name);
                push_bytes(&mut command, ": ".as_bytes());
                push_bytes(&mut command, value);
                push_bytes(&mut command, "\"".as_bytes());
            },
        }
        assert(command@ =~= set_parameter_command(self.parameter@));
        at_request(command.as_slice())
    }
}

/// The command that sets the URL of the next action. Fails with a format
/// error where the text does not fit its buffer.
pub fn set_url(url: &[u8]) -> (r: Result<AtCommandRequest, AtError>)
    ensures
        r.is_ok() == (set_url_command(url@).len() <= AT_BUFFER_SIZE),
        r matches Ok(request) ==> request@ == (AtCommandRequestView {
            command: set_url_command(url@),
            timeout_ms: DEFAULT_TIMEOUT_MS,
            urc_prefix: None,
        }),
        r matches Err(e) ==> e == AtError::FormatError,
{
    let command = SetHttpParameter { parameter: HttpParameter::Url(url) };
    command.request()
}

/// The command that sets a header of the next action. Fails with a format
/// error where the text does not fit its buffer.
pub fn set_header(name: &[u8], value: &[u8]) -> (r: Result<AtCommandRequest, AtError>)
    ensures
        r.is_ok() == (set_header_command(name@, value@).len() <= AT_BUFFER_SIZE),
        r matches Ok(request) ==> request@ == (AtCommandRequestView {
            command: set_header_command(name@, value@),
            timeout_ms: DEFAULT_TIMEOUT_MS,
            urc_prefix: None,
        }),
        r matches Err(e) ==> e == AtError::FormatError,
{
    let command = SetHttpParameter { parameter: HttpParameter::UserData { name, value } };
    command.request()
}

/// The command that runs an action, `AT+HTTPACTION=<n>`. Its result
/// arrives after the terminator, on a line that begins with
/// `+HTTPACTION: `.
pub fn action(method: HttpAction) -> (r: AtCommandRequest)
    ensures
        r@ == (AtCommandRequestView {
            command: action_command(method),
            timeout_ms: DEFAULT_TIMEOUT_MS,
            urc_prefix: Some("+HTTPACTION: ".spec_bytes()),
        }),
{
    proof {
        reveal_strlit("AT+HTTPACTION=0");
        reveal_strlit("AT+HTTPACTION=1");
        reveal_strlit("AT+HTTPACTION=2");
        reveal_strlit("AT+HTTPACTION=3");
        reveal_strlit("+HTTPACTION: ");
        crate::text::lemma_ascii_len("AT+HTTPACTION=0");
        crate::text::lemma_ascii_len("AT+HTTPACTION=1");
        crate::text::lemma_ascii_len("AT+HTTPACTION=2");
        crate::text::lemma_ascii_len("AT+HTTPACTION=3");
        crate::text::lemma_ascii_len("+HTTPACTION: ");
    }
    let request = match method {
        HttpAction::Get => short_request("AT+HTTPACTION=0"),
        HttpAction::Post => short_request("AT+HTTPACTION=1"),
        HttpAction::Head => short_request("AT+HTTPACTION=2"),
        HttpAction::Delete => short_request("AT+HTTPACTION=3"),
    };
    let prefix = match Text::from_bytes("+HTTPACTION: ".as_bytes()) {
        Some(t) => t,
        None => Text::new(),
    };
    request.with_urc_prefix(prefix)
}

/// The layout of an action result: `+HTTPACTION: <method>,<status>,<len>`.
pub open spec fn action_layout() -> Seq<TokenView> {
    seq![
        TokenView::Tag { text: "+HTTPACTION: ".spec_bytes() },
        TokenView::Unsigned { limit: 0xffff_ffff },
        TokenView::Tag { text: ",".spec_bytes() },
        TokenView::Unsigned { limit: 0xffff_ffff },
        TokenView::Tag { text: ",".spec_bytes() },
        TokenView::Unsigned { limit: 0xffff_ffff },
    ]
}

/// What an action result line says: a line of another shape is a parse
/// error; a status outside 100 to 599 is an enumeration error; so is,
/// looked at after the status, a length of two to the power of 31 or
/// more.
pub open spec fn action_result_of(line: Seq<u8>) -> Result<HttpActionResponse, AtError> {
    match scanned(line, action_layout()) {
        Some(values) => if !(100 <= values[3] < 600) {
            Err(AtError::EnumParseError(values[3] as i64))
        } else if !(values[5] < 0x8000_0000) {
            Err(AtError::EnumParseError(values[5] as i64))
        } else {
            Ok(
                HttpActionResponse {
                    method: values[1] as u32,
                    status_code: HttpStatusCode(values[3] as u32),
                    data_length: values[5] as usize,
                },
            )
        },
        None => Err(AtError::ParseError),
    }
}

/// What the response to an action says.
pub open spec fn action_response_of(response: Seq<Seq<u8>>) -> Result<HttpActionResponse, AtError> {
    match first_line_of(response) {
        Ok(line) => action_result_of(line),
        Err(e) => Err(e),
    }
}

/// Reads an action result line.
pub fn parse_action_result(line: &[u8]) -> (r: Result<HttpActionResponse, AtError>)
    ensures
        r == action_result_of(line@),
{
    let table = vec![
        Token::Tag { text: "+HTTPACTION: " },
        Token::Unsigned { limit: 0xffff_ffff },
        Token::Tag { text: "," },
        Token::Unsigned { limit: 0xffff_ffff },
        Token::Tag { text: "," },
        Token::Unsigned { limit: 0xffff_ffff },
    ];
    assert(layout_of(table@) =~= action_layout());
    match scan(line, table.as_slice()) {
        Some(values) => {
            let method = values[1];
            let status = values[3];
            let length = values[5];
            if status < 100 || status >= 600 {
                Err(AtError::EnumParseError(status))
            } else if length >= 0x8000_0000 {
                Err(AtError::EnumParseError(length))
            } else {
                Ok(
                    HttpActionResponse {
                        method: method as u32,
                        status_code: HttpStatusCode(status as u32),
                        data_length: length as usize,
                    },
                )
            }
        },
        None => Err(AtError::ParseError),
    }
}

/// Reads the response to an action.
pub fn parse_action(response: &AtCommandResponse) -> (r: Result<HttpActionResponse, AtError>)
    ensures
        r == action_response_of(response@),
{
    let line = response.line(0)?;
    parse_action_result(line)
}

/// A request to read part of the response body: `len` bytes from
/// `offset`.
#[derive(Debug, Clone, Copy, PartialEq, Eq)]
pub struct AtHttpReadRequest {
    pub offset: usize,
    pub len: usize,
}

impl AtHttpReadRequest {
    /// The request for `len` bytes from `offset`.
    pub fn new(offset: usize, len: usize) -> (r: Self)
        ensures
            r.offset == offset,
            r.len == len,
    {
        AtHttpReadRequest { offset, len }
    }

    /// The script that carries the request out. Fails with a format error
    /// where a text of the script does not fit its buffer.
    pub fn script(&self) -> (r: Result<Vec<Step>, AtError>)
        ensures
            r matches Ok(script) ==> script_view(script@) == http_read_script_of(
                self.offset,
                self.len,
            ),
            r matches Err(e) ==> e == AtError::FormatError,
            r.is_ok() == (http_read_command(self.offset, self.len).len() <= AT_BUFFER_SIZE
                && http_read_start_tag(self.len).len() <= AT_BUFFER_SIZE
                && "+HTTPREAD: 0".spec_bytes().len() <= AT_BUFFER_SIZE),
    {
        http_read_script(self.offset, self.len)
    }
}

/// A request to hand the modem the body of the next action.
pub struct AtHttpWriteRequest {
    data: Vec<u8>,
}

impl View for AtHttpWriteRequest {
    type V = Seq<u8>;

    closed spec fn view(&self) -> Seq<u8> {
        self.data@
    }
}

impl AtHttpWriteRequest {
    /// The request to write `data`. Fails with a capacity error where
    /// `data` is longer than [`MAX_READ_BUFFER_SIZE`].
    pub fn new(data: &[u8]) -> (r: Result<Self, AtError>)
        ensures
            r.is_ok() == (data@.len() <= MAX_READ_BUFFER_SIZE),
            r matches Ok(request) ==> request@ == data@,
            r matches Err(e) ==> e == AtError::CapacityError,
    {
        if data.len() > MAX_READ_BUFFER_SIZE {
            return Err(AtError::CapacityError);
        }
        let mut copy: Vec<u8> = Vec::new();
        push_bytes(&mut copy, data);
        assert(copy@ =~= data@);
        Ok(AtHttpWriteRequest { data: copy })
    }

    /// The body to write.
    pub fn data(&self) -> (r: &[u8])
        ensures
            r@ == self@,
    {
        self.data.as_slice()
    }

    /// The script that carries the request out. Fails with a format error
    /// where the command does not fit its buffer.
    pub fn script(&self) -> (r: Result<Vec<Step>, AtError>)
        ensures
            r matches Ok(script) ==> script_view(script@) == http_write_script_of(
                self@.len() as usize,
            ),
            r matches Err(e) ==> e == AtError::FormatError,
            r.is_ok() == (http_write_command(self@.len() as usize).len() <= AT_BUFFER_SIZE),
    {
        http_write_script(self.data.len())
    }
}

/// What a body write brings back: nothing but its success.
#[derive(Debug, Clone, Copy, PartialEq, Eq)]
pub struct AtHttpWriteResponse {}

/// What the modem reports when it is asked how much of a response body
/// is there to read.
#[derive(Debug, Clone, Copy, PartialEq, Eq)]
pub struct QueryHttpReadResponse {
    /// The length of the body in bytes.
    pub data_length: u32,
}

/// The query for the length of the response body, `AT+HTTPREAD?`.
pub fn query_http_read() -> (r: AtCommandRequest)
    ensures
        r@ == (AtCommandRequestView {
            command: "AT+HTTPREAD?".spec_bytes(),
            timeout_ms: DEFAULT_TIMEOUT_MS,
            urc_prefix: None,
        }),
{
    proof {
        reveal_strlit("AT+HTTPREAD?");
        crate::text::lemma_ascii_len("AT+HTTPREAD?");
    }
    short_request("AT+HTTPREAD?")
}

/// The position behind the last comma before position `end`; zero where
/// there is none.
pub open spec fn last_part_start(line: Seq<u8>, end: int) -> int
    decreases end,
{
    if end <= 0 {
        0
    } else if line[end - 1] == 44 {
        end
    } else {
        last_part_start(line, end - 1)
    }
}

/// What a line such as `+HTTPREAD: LEN,93` says: the number that the text
/// behind its last comma writes as a whole, or a parse error where that is
/// not an unsigned number of 32 bits. A line without a comma is such a
/// text as a whole.
pub open spec fn query_http_read_of(line: Seq<u8>) -> Result<QueryHttpReadResponse, AtError> {
    match whole_u32(line.subrange(last_part_start(line, line.len() as int), line.len() as int)) {
        Some(v) => Ok(QueryHttpReadResponse { data_length: v as u32 }),
        None => Err(AtError::ParseError),
    }
}

/// Reads the line that answers the query for the length of the body.
pub fn parse_query_http_read_response(line: &[u8]) -> (r: Result<QueryHttpReadResponse, AtError>)
    ensures
        r == query_http_read_of(line@),
{
    assert(line@.len() == line.len());
    let mut start: usize = line.len();
    while start > 0 && line[start - 1] != 44
        invariant
            start <= line.len(),
            line@.len() == line.len(),
            last_part_start(line@, line@.len() as int) == last_part_start(line@, start as int),
        decreases start,
    {
        start -= 1;
    }
    let part = vstd::slice::slice_subrange(line, start, line.len());
    match parse_u32(part) {
        Some(v) => Ok(QueryHttpReadResponse { data_length: v }),
        None => Err(AtError::ParseError),
    }
}

} // verus!
