use vstd::prelude::*;
use vstd::string::StringExecFns;
use vstd::utf8::encode_utf8;

verus! {

/// The status that the proxy answers a request with.
#[derive(Debug, Clone, Copy, PartialEq, Eq, Structural)]
pub enum ServerResponse {
    BadRequest,
    Forbidden,
    MethodNotAllowed,
    Okay,
}

/// The character that writes the digit `d`.
pub open spec fn digit_char(d: int) -> char
    recommends
        0 <= d < 10,
{
    if d == 0 {
        '0'
    } else if d == 1 {
        '1'
    } else if d == 2 {
        '2'
    } else if d == 3 {
        '3'
    } else if d == 4 {
        '4'
    } else if d == 5 {
        '5'
    } else if d == 6 {
        '6'
    } else if d == 7 {
        '7'
    } else if d == 8 {
        '8'
    } else {
        '9'
    }
}

/// The number `n` written in decimal, without leading zeros.
pub open spec fn decimal_text(n: nat) -> Seq<char>
    decreases n,
{
    if n < 10 {
        seq![digit_char(n as int)]
    } else {
        decimal_text(n / 10).push(digit_char((n % 10) as int))
    }
}

/// The digit `d` as text.
fn digit_text(d: u32) -> (text: &'static str)
    requires
        d < 10,
    ensures
        text@ == seq![digit_char(d as int)],
{
    proof {
        reveal_strlit("0");
        reveal_strlit("1");
        reveal_strlit("2");
        reveal_strlit("3");
        reveal_strlit("4");
        reveal_strlit("5");
        reveal_strlit("6");
        reveal_strlit("7");
        reveal_strlit("8");
        reveal_strlit("9");
    }
    let text = if d == 0 {
        "0"
    } else if d == 1 {
        "1"
    } else if d == 2 {
        "2"
    } else if d == 3 {
        "3"
    } else if d == 4 {
        "4"
    } else if d == 5 {
        "5"
    } else if d == 6 {
        "6"
    } else if d == 7 {
        "7"
    } else if d == 8 {
        "8"
    } else {
        "9"
    };
    assert(text@ =~= seq![digit_char(d as int)]);
    text
}

/// Writes `n` in decimal.
pub fn decimal(n: u32) -> (text: String)
    ensures
        text@ == decimal_text(n as nat),
    decreases n,
{
    if n < 10 {
        String::from_str(digit_text(n))
    } else {
        let mut text = decimal(n / 10);
        text.append(digit_text(n % 10));
        assert(text@ =~= decimal_text(n as nat));
        text
    }
}

impl ServerResponse {
    /// The status code.
    pub open spec fn code_spec(self) -> nat {
        match self {
            ServerResponse::BadRequest => 400,
            ServerResponse::Forbidden => 403,
            ServerResponse::MethodNotAllowed => 405,
            ServerResponse::Okay => 200,
        }
    }

    /// The reason phrase that goes with the status code.
    pub open spec fn reason_spec(self) -> Seq<char> {
        match self {
            ServerResponse::BadRequest => "Bad Request"@,
            ServerResponse::Forbidden => "Forbidden"@,
            ServerResponse::MethodNotAllowed => "Method Not Allowed"@,
            ServerResponse::Okay => "OK"@,
        }
    }

    /// The response as text: a status line and the empty line that ends the
    /// header. There are no header fields and there is no body.
    pub open spec fn text(self) -> Seq<char> {
        "HTTP/1.1 "@ + decimal_text(self.code_spec()) + " "@ + self.reason_spec() + "\r\n\r\n"@
    }

    /// The response as it goes over the wire: its text in UTF-8.
    pub open spec fn wire(self) -> Seq<u8> {
        encode_utf8(self.text())
    }

    /// The status code.
    pub fn code(&self) -> (code: u32)
        ensures
            code == self.code_spec(),
    {
        match self {
            ServerResponse::BadRequest => 400,
            ServerResponse::Forbidden => 403,
            ServerResponse::MethodNotAllowed => 405,
            ServerResponse::Okay => 200,
        }
    }

    /// The reason phrase.
    pub fn reason(&self) -> (reason: &'static str)
        ensures
            reason@ == self.reason_spec(),
    {
        match self {
            ServerResponse::BadRequest => "Bad Request",
            ServerResponse::Forbidden => "Forbidden",
            ServerResponse::MethodNotAllowed => "Method Not Allowed",
            ServerResponse::Okay => "OK",
        }
    }

    /// The response as text.
    pub fn status_line(&self) -> (line: String)
        ensures
            line@ == self.text(),
    {
        let mut line = String::from_str("HTTP/1.1 ");
        let code = decimal(self.code());
        line.append(code.as_str());
        line.append(" ");
        line.append(self.reason());
        line.append("\r\n\r\n");
        line
    }
}

/// Writes `response` to `writer`: its bytes are appended to what `writer`
/// holds already.
pub fn send_response(writer: &mut Vec<u8>, response: ServerResponse)
    ensures
        final(writer)@ == old(writer)@ + response.wire(),
{
    let line = response.status_line();
    writer.extend_from_slice(line.as_str().as_bytes());
}

} // verus!
