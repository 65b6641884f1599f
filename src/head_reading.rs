//! Reading a serialized response head back: the head's lines up to the
//! empty line, the three parts of the status line, and each header line's
//! name and value. Used to state what serialization keeps.
use vstd::prelude::*;
use crate::assoc::assoc_map;
use crate::message::Response;
use crate::serializer::{body_text, decimal, digit_char, header_block, header_line, response_text, status_line};

verus! {

/// The position of the first `c` in `t`, or `t.len()` when there is none.
pub open spec fn first_of(t: Seq<char>, c: char) -> nat
    decreases t.len(),
{
    if t.len() == 0 {
        0
    } else if t[0] == c {
        0
    } else {
        1 + first_of(t.drop_first(), c)
    }
}

/// `t` holds no `c`.
pub open spec fn lacks(t: Seq<char>, c: char) -> bool {
    forall|i: int| 0 <= i < t.len() ==> t[i] != c
}

/// The lines of a head, each ended by a line break, up to the first empty line.
pub open spec fn head_lines(t: Seq<char>) -> Seq<Seq<char>>
    decreases t.len(),
{
    let k = first_of(t, '\r');
    if k == 0 || k + 2 > t.len() {
        Seq::empty()
    } else {
        seq![t.subrange(0, k as int)] + head_lines(t.subrange(k + 2int, t.len() as int))
    }
}

/// The value of a digit character.
pub open spec fn digit_value(c: char) -> nat {
    if c == '1' { 1 }
    else if c == '2' { 2 }
    else if c == '3' { 3 }
    else if c == '4' { 4 }
    else if c == '5' { 5 }
    else if c == '6' { 6 }
    else if c == '7' { 7 }
    else if c == '8' { 8 }
    else if c == '9' { 9 }
    else { 0 }
}

/// The number that a string of decimal digits denotes.
pub open spec fn decimal_value(s: Seq<char>) -> nat
    decreases s.len(),
{
    if s.len() == 0 {
        0
    } else {
        decimal_value(s.drop_last()) * 10 + digit_value(s.last())
    }
}

/// The text before the first space of a status line: the version.
pub open spec fn status_version(line: Seq<char>) -> Seq<char> {
    line.subrange(0, first_of(line, ' ') as int)
}

/// The text after the first space of a status line.
pub open spec fn after_version(line: Seq<char>) -> Seq<char> {
    line.subrange(first_of(line, ' ') + 1int, line.len() as int)
}

/// The status code of a status line.
pub open spec fn status_code_of(line: Seq<char>) -> nat {
    let a = after_version(line);
    decimal_value(a.subrange(0, first_of(a, ' ') as int))
}

/// The reason text of a status line: all after the second space.
pub open spec fn status_message_of(line: Seq<char>) -> Seq<char> {
    let a = after_version(line);
    a.subrange(first_of(a, ' ') + 1int, a.len() as int)
}

/// The name and the value of a header line `name: value`.
pub open spec fn header_of(line: Seq<char>) -> (Seq<char>, Seq<char>) {
    let i = first_of(line, ':');
    (line.subrange(0, i as int), line.subrange(i + 2int, line.len() as int))
}

proof fn lemma_first_of_concat(x: Seq<char>, y: Seq<char>, c: char)
    requires
        lacks(x, c),
    ensures
        first_of(x + y, c) == x.len() + first_of(y, c),
    decreases x.len(),
{
    if x.len() > 0 {
        assert((x + y).drop_first() =~= x.drop_first() + y);
        lemma_first_of_concat(x.drop_first(), y, c);
    } else {
        assert(x + y =~= y);
    }
}

proof fn lemma_decimal_digits(n: nat)
    ensures
        lacks(decimal(n), ' '),
        lacks(decimal(n), '\r'),
        decimal_value(decimal(n)) == n,
    decreases n,
{
    let d = decimal(n);
    if n >= 10 {
        lemma_decimal_digits(n / 10);
        assert(d.drop_last() =~= decimal(n / 10));
        assert(digit_value(digit_char(n % 10)) == n % 10);
        assert(decimal_value(d) == (n / 10) * 10 + n % 10);
        assert((n / 10) * 10 + n % 10 == n) by (nonlinear_arith);
    } else {
        assert(d.drop_last() =~= Seq::<char>::empty());
        assert(digit_value(digit_char(n)) == n);
        assert(decimal_value(Seq::<char>::empty()) == 0);
        assert(d.last() == digit_char(n));
    }
}

/// A nonempty line without a carriage return, then a line break, is read
/// as that line followed by the lines of what comes after.
proof fn lemma_head_lines_step(line: Seq<char>, rest: Seq<char>)
    requires
        line.len() > 0,
        lacks(line, '\r'),
    ensures
        head_lines(line + "\r\n"@ + rest) == seq![line] + head_lines(rest),
{
    reveal_strlit("\r\n");
    let t = line + "\r\n"@ + rest;
    assert(t =~= line + ("\r\n"@ + rest));
    lemma_first_of_concat(line, "\r\n"@ + rest, '\r');
    assert(t.subrange(0, line.len() as int) =~= line);
    assert(t.subrange(line.len() + 2int, t.len() as int) =~= rest);
}

proof fn lemma_head_lines_end(rest: Seq<char>)
    ensures
        head_lines("\r\n"@ + rest) == Seq::<Seq<char>>::empty(),
{
    reveal_strlit("\r\n");
}

proof fn lemma_header_block_front(hs: Seq<(Seq<char>, Seq<char>)>)
    requires
        hs.len() >= 2,
    ensures
        header_block(hs) == header_line(hs[0]) + "\r\n"@ + header_block(hs.drop_first()),
    decreases hs.len(),
{
    let a = hs.drop_last();
    let b = hs.drop_first();
    assert(b.drop_last() =~= a.drop_first());
    assert(b.last() == hs.last());
    assert(header_block(hs) == header_block(a) + "\r\n"@ + header_line(hs.last()));
    if hs.len() == 2 {
        assert(a.len() == 1 && a[0] == hs[0]);
        assert(b.len() == 1 && b[0] == hs[1]);
        assert(header_block(a) == header_line(hs[0]));
        assert(header_block(b) == header_line(hs[1]));
    } else {
        lemma_header_block_front(a);
        assert(a[0] == hs[0]);
        assert(header_block(b) == header_block(a.drop_first()) + "\r\n"@ + header_line(hs.last()));
        assert(header_block(hs) =~= header_line(hs[0]) + "\r\n"@ + header_block(hs.drop_first()));
    }
}

/// Every header line is nonempty and free of carriage returns, and its
/// name holds no colon.
pub open spec fn plain_headers(hs: Seq<(Seq<char>, Seq<char>)>) -> bool {
    forall|i: int| 0 <= i < hs.len() ==> lacks(#[trigger] hs[i].0, '\r') && lacks(hs[i].0, ':')
        && lacks(hs[i].1, '\r')
}

proof fn lemma_header_line_plain(p: (Seq<char>, Seq<char>))
    requires
        lacks(p.0, '\r'),
        lacks(p.0, ':'),
        lacks(p.1, '\r'),
    ensures
        header_line(p).len() > 0,
        lacks(header_line(p), '\r'),
        header_of(header_line(p)) == p,
{
    reveal_strlit(": ");
    let l = header_line(p);
    assert(l =~= p.0 + (": "@ + p.1));
    lemma_first_of_concat(p.0, ": "@ + p.1, ':');
    assert(l.subrange(0, p.0.len() as int) =~= p.0);
    assert(l.subrange(p.0.len() + 2int, l.len() as int) =~= p.1);
}

proof fn lemma_block_lines(hs: Seq<(Seq<char>, Seq<char>)>, body: Seq<char>)
    requires
        plain_headers(hs),
    ensures
        head_lines(header_block(hs) + "\r\n\r\n"@ + body) =~= Seq::new(hs.len(), |i: int| header_line(hs[i])),
    decreases hs.len(),
{
    reveal_strlit("\r\n\r\n");
    reveal_strlit("\r\n");
    let crlf2: Seq<char> = "\r\n\r\n"@;
    assert(crlf2 =~= "\r\n"@ + "\r\n"@);
    if hs.len() == 0 {
        assert(header_block(hs) + crlf2 + body =~= "\r\n"@ + ("\r\n"@ + body));
        lemma_head_lines_end("\r\n"@ + body);
    } else {
        lemma_header_line_plain(hs[0]);
        let l0 = header_line(hs[0]);
        if hs.len() == 1 {
            assert(header_block(hs) + crlf2 + body =~= l0 + "\r\n"@ + ("\r\n"@ + body));
            lemma_head_lines_step(l0, "\r\n"@ + body);
            lemma_head_lines_end(body);
        } else {
            let tail = hs.drop_first();
            lemma_header_block_front(hs);
            assert(plain_headers(tail)) by {
                assert forall|i: int| 0 <= i < tail.len() implies lacks(#[trigger] tail[i].0, '\r')
                    && lacks(tail[i].0, ':') && lacks(tail[i].1, '\r') by {
                    assert(tail[i] == hs[i + 1]);
                }
            }
            lemma_block_lines(tail, body);
            assert(header_block(hs) + crlf2 + body =~= l0 + "\r\n"@ + (header_block(tail) + crlf2 + body));
            lemma_head_lines_step(l0, header_block(tail) + crlf2 + body);
        }
    }
}

/// A response whose version holds no space, and whose version, reason and
/// header lines hold no carriage return and whose header names hold no
/// colon, can be read back from its text on the wire.
pub open spec fn plain_response(r: Response) -> bool {
    &&& lacks(r.version@, ' ')
    &&& lacks(r.version@, '\r')
    &&& lacks(r.status_message@, '\r')
    &&& plain_headers(r.headers.pairs())
}

/// Serializing a response and reading its head back gives the same version,
/// status code and reason, and the same header lines, hence the same header
/// map whatever their order.
pub proof fn lemma_serialized_head_reads_back(r: Response)
    requires
        plain_response(r),
        r.headers.wf(),
    ensures
        ({
            let lines = head_lines(response_text(r));
            let hs = r.headers.pairs();
            &&& lines.len() == hs.len() + 1
            &&& status_version(lines[0]) == r.version@
            &&& status_code_of(lines[0]) == r.status_code as nat
            &&& status_message_of(lines[0]) == r.status_message@
            &&& forall|i: int| 1 <= i < lines.len() ==> header_of(#[trigger] lines[i]) == hs[i - 1]
            &&& assoc_map(lines.drop_first().map_values(|l: Seq<char>| header_of(l))) == r.headers@
        }),
{
    reveal_strlit(" ");
    reveal_strlit("\r\n");
    let hs = r.headers.pairs();
    let code = decimal(r.status_code as nat);
    lemma_decimal_digits(r.status_code as nat);
    let sl = status_line(r);
    let crlf2: Seq<char> = "\r\n\r\n"@;
    let rest = header_block(hs) + crlf2 + body_text(r.body);
    assert(response_text(r) =~= sl + "\r\n"@ + rest);
    assert(sl =~= r.version@ + (" "@ + (code + (" "@ + r.status_message@))));
    assert(lacks(sl, '\r'));
    lemma_head_lines_step(sl, rest);
    lemma_block_lines(hs, body_text(r.body));
    let lines = head_lines(response_text(r));
    assert(lines[0] == sl);
    lemma_first_of_concat(r.version@, " "@ + (code + (" "@ + r.status_message@)), ' ');
    let a = after_version(sl);
    assert(a =~= code + (" "@ + r.status_message@));
    assert(status_version(sl) =~= r.version@);
    lemma_first_of_concat(code, " "@ + r.status_message@, ' ');
    assert(a.subrange(0, code.len() as int) =~= code);
    assert(status_message_of(sl) =~= r.status_message@);
    assert forall|i: int| 1 <= i < lines.len() implies header_of(#[trigger] lines[i]) == hs[i - 1] by {
        lemma_header_line_plain(hs[i - 1]);
    }
    assert(lines.drop_first().map_values(|l: Seq<char>| header_of(l)) =~= hs);
}

} // verus!
