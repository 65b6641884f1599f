//! The wire serializer: a response, or a handler's error, as the text sent
//! back on the connection.
use vstd::prelude::*;
use vstd::string::StringExecFns;
use crate::message::{HttpError, Response};

verus! {

/// The decimal digit for `d`.
pub open spec fn digit_char(d: nat) -> char {
    if d == 0 { '0' }
    else if d == 1 { '1' }
    else if d == 2 { '2' }
    else if d == 3 { '3' }
    else if d == 4 { '4' }
    else if d == 5 { '5' }
    else if d == 6 { '6' }
    else if d == 7 { '7' }
    else if d == 8 { '8' }
    else { '9' }
}

/// `n` written in decimal, without leading zeros.
pub open spec fn decimal(n: nat) -> Seq<char>
    decreases n,
{
    if n < 10 {
        seq![digit_char(n)]
    } else {
        decimal(n / 10).push(digit_char(n % 10))
    }
}

fn digit_text(d: u16) -> (r: &'static str)
    requires
        d < 10,
    ensures
        r@ == seq![digit_char(d as nat)],
{
    proof {
        reveal_strlit("0");
        reveal_strlit("1");
        reveal_strlit("2");
        reveal_strlit("3");
        reveal_strlit("4");
        reveal_strlit("5");
        reveal_strlit("6");
        reveal_strlit("7");
        reveal_strlit("8");
        reveal_strlit("9");
    }
    match d {
        0 => "0",
        1 => "1",
        2 => "2",
        3 => "3",
        4 => "4",
        5 => "5",
        6 => "6",
        7 => "7",
        8 => "8",
        _ => "9",
    }
}

/// Appends `n` in decimal.
pub fn append_decimal(out: &mut String, n: u16)
    ensures
        final(out)@ == old(out)@ + decimal(n as nat),
    decreases n,
{
    if n >= 10 {
        append_decimal(out, n / 10);
    }
    out.append(digit_text(n % 10));
    proof {
        if n >= 10 {
            assert(decimal(n as nat) == decimal((n / 10) as nat).push(digit_char((n % 10) as nat)));
        }
    }
    assert(out@ =~= old(out)@ + decimal(n as nat));
}

/// One header line.
pub open spec fn header_line(p: (Seq<char>, Seq<char>)) -> Seq<char> {
    p.0 + ": "@ + p.1
}

/// The header lines joined by line breaks.
pub open spec fn header_block(s: Seq<(Seq<char>, Seq<char>)>) -> Seq<char>
    decreases s.len(),
{
    if s.len() == 0 {
        Seq::empty()
    } else if s.len() == 1 {
        header_line(s[0])
    } else {
        header_block(s.drop_last()) + "\r\n"@ + header_line(s.last())
    }
}

/// The body's text, empty when there is none.
pub open spec fn body_text(b: Option<String>) -> Seq<char> {
    match b {
        Some(t) => t@,
        None => Seq::empty(),
    }
}

/// The status line of a response, without its line break.
pub open spec fn status_line(r: Response) -> Seq<char> {
    r.version@ + " "@ + decimal(r.status_code as nat) + " "@ + r.status_message@
}

/// The text of a response on the wire: status line, header lines, an empty
/// line, then the body. No header is added.
pub open spec fn response_text(r: Response) -> Seq<char> {
    status_line(r) + "\r\n"@ + header_block(r.headers.pairs()) + "\r\n\r\n"@ + body_text(r.body)
}

/// The single line sent in place of a response when the handler failed.
pub open spec fn error_text(e: HttpError) -> Seq<char> {
    "HTTP/1.1 "@ + decimal(e.status_code as nat) + " "@ + e.message@
}

/// Writes a response as the text sent back on the connection.
pub fn serialize_response(r: &Response) -> (out: String)
    ensures
        out@ == response_text(*r),
{
    let mut out = r.version.clone();
    out.append(" ");
    append_decimal(&mut out, r.status_code);
    out.append(" ");
    out.append(r.status_message.as_str());
    assert(out@ =~= status_line(*r));
    out.append("\r\n");
    let ghost head = out@;
    let ghost hs = r.headers.pairs();
    let n = r.headers.len();
    let mut i: usize = 0;
    while i < n
        invariant
            n == hs.len(),
            hs == r.headers.pairs(),
            i <= n,
            out@ == head + header_block(hs.take(i as int)),
        decreases n - i,
    {
        let (name, value) = r.headers.entry(i);
        if i > 0 {
            out.append("\r\n");
        }
        out.append(name.as_str());
        out.append(": ");
        out.append(value.as_str());
        proof {
            let t = hs.take(i + 1);
            assert(t.drop_last() =~= hs.take(i as int));
            assert(t.last() == hs[i as int]);
            if i == 0 {
                assert(hs.take(0) =~= Seq::<(Seq<char>, Seq<char>)>::empty());
            }
            assert(out@ =~= head + header_block(t));
        }
        i = i + 1;
    }
    assert(hs.take(n as int) =~= hs);
    out.append("\r\n\r\n");
    match &r.body {
        Some(b) => out.append(b.as_str()),
        None => {},
    }
    assert(out@ =~= response_text(*r));
    out
}

/// Writes a handler's error as a single status line.
pub fn error_line(e: &HttpError) -> (out: String)
    ensures
        out@ == error_text(*e),
{
    let mut out = String::from_str("HTTP/1.1 ");
    append_decimal(&mut out, e.status_code);
    out.append(" ");
    out.append(e.message.as_str());
    assert(out@ =~= error_text(*e));
    out
}

} // verus!
