//! The text of a response on the wire, as a sequence of bytes, and the code
//! that writes it.

use crate::message::{Header, HeaderView, Response, ResponseView, headers_view};
use vstd::prelude::*;

verus! {

/// The decimal digits of `n`, most significant first, without padding.
pub open spec fn decimal(n: nat) -> Seq<u8>
    decreases n,
{
    if n < 10 {
        seq![(48 + n) as u8]
    } else {
        decimal(n / 10).push((48 + n % 10) as u8)
    }
}

/// `HTTP/1.1 `
pub open spec fn status_line_start() -> Seq<u8> {
    seq![72u8, 84, 84, 80, 47, 49, 46, 49, 32]
}

/// `Server: dirtio-http`, with its line end.
pub open spec fn server_line() -> Seq<u8> {
    seq![
        83u8, 101, 114, 118, 101, 114, 58, 32, 100, 105, 114, 116, 105, 111, 45, 104, 116, 116,
        112, 13, 10,
    ]
}

/// `Date: `
pub open spec fn date_start() -> Seq<u8> {
    seq![68u8, 97, 116, 101, 58, 32]
}

/// `Content-Length: `
pub open spec fn content_length_start() -> Seq<u8> {
    seq![67u8, 111, 110, 116, 101, 110, 116, 45, 76, 101, 110, 103, 116, 104, 58, 32]
}

/// Carriage return and line feed.
pub open spec fn crlf() -> Seq<u8> {
    seq![13u8, 10]
}

/// A colon and a space, between a header's name and its value.
pub open spec fn name_end() -> Seq<u8> {
    seq![58u8, 32]
}

/// A byte that may stand in a header value written as text: visible ASCII, a
/// space or a tab.
pub open spec fn visible(b: u8) -> bool {
    (32 <= b && b < 127) || b == 9
}

/// Whether every byte of a value is visible.
pub open spec fn printable(value: Seq<u8>) -> bool {
    forall|i: int| 0 <= i < value.len() ==> visible(#[trigger] value[i])
}

/// A header value as it is written: itself where it is printable, else
/// nothing.
pub open spec fn shown(value: Seq<u8>) -> Seq<u8> {
    if printable(value) {
        value
    } else {
        Seq::<u8>::empty()
    }
}

/// One header line with its line end.
pub open spec fn header_line(h: HeaderView) -> Seq<u8> {
    h.name + name_end() + shown(h.value) + crlf()
}

/// The header lines of a message, one after the other in their order.
pub open spec fn header_block(headers: Seq<HeaderView>) -> Seq<u8>
    decreases headers.len(),
{
    if headers.len() == 0 {
        Seq::<u8>::empty()
    } else {
        header_block(headers.drop_last()) + header_line(headers.last())
    }
}

/// What stands before a response's own headers: the status line, the server
/// line, the date line and the length line.
pub open spec fn response_head(status: u16, reason: Seq<u8>, date: Seq<u8>, body_len: nat) -> Seq<
    u8,
> {
    status_line_start() + decimal(status as nat) + seq![32u8] + reason + crlf() + server_line()
        + date_start() + date + crlf() + content_length_start() + decimal(body_len) + crlf()
}

/// A whole response on the wire, given the reason phrase of its status and
/// the text of the date.
pub open spec fn response_wire(resp: ResponseView, reason: Seq<u8>, date: Seq<u8>) -> Seq<u8> {
    response_head(resp.status, reason, date, resp.body.len()) + header_block(resp.headers)
        + crlf() + resp.body
}

/// Appends `bytes` to `out`.
pub fn push_all(out: &mut Vec<u8>, bytes: &Vec<u8>)
    ensures
        final(out)@ == old(out)@ + bytes@,
{
    let mut i: usize = 0;
    while i < bytes.len()
        invariant
            i <= bytes.len(),
            out@ == old(out)@ + bytes@.take(i as int),
        decreases bytes.len() - i,
    {
        out.push(bytes[i]);
        i += 1;
        assert(out@ =~= old(out)@ + bytes@.take(i as int));
    }
    assert(bytes@.take(i as int) =~= bytes@);
}

/// Appends the decimal digits of `n` to `out`.
pub fn push_decimal(out: &mut Vec<u8>, n: usize)
    ensures
        final(out)@ == old(out)@ + decimal(n as nat),
    decreases n,
{
    if n < 10 {
        out.push(48u8 + (n as u8));
        assert(out@ =~= old(out)@ + decimal(n as nat));
    } else {
        push_decimal(out, n / 10);
        out.push(48u8 + ((n % 10) as u8));
        assert(out@ =~= old(out)@ + decimal(n as nat));
    }
}

/// Whether every byte of `value` is visible.
pub fn is_printable(value: &Vec<u8>) -> (r: bool)
    ensures
        r == printable(value@),
{
    let mut i: usize = 0;
    while i < value.len()
        invariant
            i <= value.len(),
            forall|j: int| 0 <= j < i ==> visible(#[trigger] value@[j]),
        decreases value.len() - i,
    {
        let b: u8 = value[i];
        if !((32 <= b && b < 127) || b == 9) {
            return false;
        }
        i += 1;
    }
    true
}

/// Appends one header line to `out`.
pub fn push_header(out: &mut Vec<u8>, h: &Header)
    ensures
        final(out)@ == old(out)@ + header_line(h@),
{
    push_all(out, &h.name);
    out.push(58u8);
    out.push(32u8);
    if is_printable(&h.value) {
        push_all(out, &h.value);
    }
    out.push(13u8);
    out.push(10u8);
    assert(out@ =~= old(out)@ + header_line(h@));
}

/// Appends the header lines of `headers` to `out`, in their order.
pub fn push_headers(out: &mut Vec<u8>, headers: &Vec<Header>)
    ensures
        final(out)@ == old(out)@ + header_block(headers_view(headers@)),
{
    let ghost all = headers_view(headers@);
    let mut i: usize = 0;
    while i < headers.len()
        invariant
            i <= headers.len(),
            all == headers_view(headers@),
            out@ == old(out)@ + header_block(all.take(i as int)),
        decreases headers.len() - i,
    {
        let ghost before = out@;
        push_header(out, &headers[i]);
        i += 1;
        proof {
            let now = all.take(i as int);
            assert(now.drop_last() =~= all.take(i - 1));
            assert(now.last() == headers@[i - 1]@);
            assert(out@ =~= old(out)@ + header_block(now));
        }
    }
    assert(all.take(i as int) =~= all);
}

/// The bytes of a response, given the reason phrase of its status and the
/// text of the date.
pub fn render_response(resp: &Response, reason: &Vec<u8>, date: &Vec<u8>) -> (out: Vec<u8>)
    ensures
        out@ == response_wire(resp@, reason@, date@),
{
    let mut out: Vec<u8> = Vec::new();
    push_all(&mut out, &vec![72u8, 84, 84, 80, 47, 49, 46, 49, 32]);
    push_decimal(&mut out, resp.status as usize);
    out.push(32u8);
    push_all(&mut out, reason);
    push_all(&mut out, &vec![13u8, 10]);
    push_all(
        &mut out,
        &vec![
            83u8, 101, 114, 118, 101, 114, 58, 32, 100, 105, 114, 116, 105, 111, 45, 104, 116, 116,
            112, 13, 10,
        ],
    );
    push_all(&mut out, &vec![68u8, 97, 116, 101, 58, 32]);
    push_all(&mut out, date);
    push_all(&mut out, &vec![13u8, 10]);
    push_all(
        &mut out,
        &vec![67u8, 111, 110, 116, 101, 110, 116, 45, 76, 101, 110, 103, 116, 104, 58, 32],
    );
    push_decimal(&mut out, resp.body.len());
    push_all(&mut out, &vec![13u8, 10]);
    assert(out@ =~= response_head(resp.status, reason@, date@, resp.body@.len()));
    push_headers(&mut out, &resp.headers);
    push_all(&mut out, &vec![13u8, 10]);
    push_all(&mut out, &resp.body);
    assert(out@ =~= response_wire(resp@, reason@, date@));
    out
}

/// A response on the wire ends with its body, unchanged, after the blank
/// line, and its length line gives the body's length in decimal.
pub proof fn lemma_wire_carries_body(resp: ResponseView, reason: Seq<u8>, date: Seq<u8>)
    ensures
        ({
            let wire = response_wire(resp, reason, date);
            let n = resp.body.len();
            &&& wire.len() >= n + 2
            &&& wire.skip(wire.len() - n) == resp.body
            &&& wire.subrange(wire.len() - n - 2, wire.len() - n) == crlf()
            &&& response_head(resp.status, reason, date, n).is_prefix_of(wire)
            &&& (content_length_start() + decimal(n) + crlf()).is_suffix_of(
                response_head(resp.status, reason, date, n),
            )
        }),
{
    let wire = response_wire(resp, reason, date);
    let n = resp.body.len();
    let head = response_head(resp.status, reason, date, n);
    let line = content_length_start() + decimal(n) + crlf();
    assert(wire.skip(wire.len() - n) =~= resp.body);
    assert(wire.subrange(wire.len() - n - 2, wire.len() - n) =~= crlf());
    assert(head.subrange(0, head.len() - line.len()) + line =~= head);
    assert(head.skip(head.len() - line.len()) =~= line);
}

/// Whether no byte of `s` is a carriage return.
pub open spec fn no_cr(s: Seq<u8>) -> bool {
    forall|i: int| 0 <= i < s.len() ==> #[trigger] s[i] != 13
}

/// Whether `s` is made of lines that are not empty: it ends with a line
/// end, and no line end before the last is followed at once by another.
pub open spec fn lined(s: Seq<u8>) -> bool {
    &&& s.len() >= 2
    &&& s[s.len() - 2] == 13
    &&& s[s.len() - 1] == 10
    &&& forall|k: int| 0 <= k < s.len() - 2 && #[trigger] s[k] == 13 ==> s[k + 2] != 13
}

/// Whether a blank line ends at `k + 4` in `s`: a line end at `k` is followed
/// at once by another.
pub open spec fn blank_line_at(s: Seq<u8>, k: int) -> bool {
    &&& 0 <= k
    &&& k + 4 <= s.len()
    &&& s[k] == 13
    &&& s[k + 1] == 10
    &&& s[k + 2] == 13
    &&& s[k + 3] == 10
}

/// A line that is not empty and holds no carriage return, put after lines
/// of that kind, gives lines of that kind.
pub proof fn lemma_add_line(before: Seq<u8>, text: Seq<u8>)
    requires
        before.len() == 0 || lined(before),
        text.len() > 0,
        no_cr(text),
    ensures
        lined(before + text + crlf()),
{
    let all = before + text + crlf();
    assert(all.len() == before.len() + text.len() + 2);
    assert forall|k: int| 0 <= k < all.len() - 2 && #[trigger] all[k] == 13 implies all[k + 2]
        != 13 by {
        if k < before.len() {
            assert(all[k] == before[k]);
            if k < before.len() - 2 {
                assert(all[k + 2] == before[k + 2]);
            } else if k == before.len() - 2 {
                assert(all[k + 2] == text[0]);
            } else {
                assert(before[k] == 10);
            }
        } else {
            assert(all[k] == text[k - before.len()]);
        }
    }
}

/// The digits of a number hold no carriage return, and there is at least
/// one.
pub proof fn lemma_decimal_is_text(n: nat)
    ensures
        decimal(n).len() > 0,
        no_cr(decimal(n)),
    decreases n,
{
    if n >= 10 {
        lemma_decimal_is_text(n / 10);
    }
}

/// The fixed head of a response is made of lines that are not empty, where
/// the reason phrase and the date hold no carriage return.
pub proof fn lemma_head_is_lined(status: u16, reason: Seq<u8>, date: Seq<u8>, body_len: nat)
    requires
        no_cr(reason),
        no_cr(date),
    ensures
        lined(response_head(status, reason, date, body_len)),
{
    lemma_decimal_is_text(status as nat);
    lemma_decimal_is_text(body_len);
    let first = status_line_start() + decimal(status as nat) + seq![32u8] + reason;
    let second = server_line().take(19);
    let third = date_start() + date;
    let fourth = content_length_start() + decimal(body_len);
    assert(no_cr(status_line_start()));
    assert(no_cr(date_start()));
    assert(no_cr(content_length_start()));
    assert(no_cr(first));
    assert(no_cr(second));
    assert(no_cr(third));
    assert(no_cr(fourth));
    assert(second + crlf() =~= server_line());
    let one = Seq::<u8>::empty() + first + crlf();
    lemma_add_line(Seq::<u8>::empty(), first);
    lemma_add_line(one, second);
    let two = one + second + crlf();
    lemma_add_line(two, third);
    let three = two + third + crlf();
    lemma_add_line(three, fourth);
    assert(three + fourth + crlf() =~= response_head(status, reason, date, body_len));
}

/// Header lines whose names hold no carriage return, put after lines that
/// are not empty, give lines that are not empty.
pub proof fn lemma_block_is_lined(before: Seq<u8>, headers: Seq<HeaderView>)
    requires
        lined(before),
        forall|i: int| 0 <= i < headers.len() ==> no_cr(#[trigger] headers[i].name),
    ensures
        lined(before + header_block(headers)),
    decreases headers.len(),
{
    if headers.len() == 0 {
        assert(before + header_block(headers) =~= before);
    } else {
        let earlier = headers.drop_last();
        let last = headers.last();
        assert forall|i: int| 0 <= i < earlier.len() implies no_cr(#[trigger] earlier[i].name) by {
            assert(earlier[i] == headers[i]);
        }
        lemma_block_is_lined(before, earlier);
        let text = last.name + name_end() + shown(last.value);
        assert(no_cr(last.name));
        assert(no_cr(name_end()));
        assert(no_cr(shown(last.value)));
        assert(no_cr(text));
        lemma_add_line(before + header_block(earlier), text);
        assert(before + header_block(earlier) + text + crlf() =~= before + header_block(headers));
    }
}

/// Where the reason phrase, the date and the names of the headers hold no
/// carriage return, the first blank line of a response on the wire is the
/// one before its body: no blank line stands earlier, and what follows it
/// is the body, byte for byte, and nothing more.
pub proof fn lemma_body_follows_first_blank_line(
    resp: ResponseView,
    reason: Seq<u8>,
    date: Seq<u8>,
)
    requires
        no_cr(reason),
        no_cr(date),
        forall|i: int| 0 <= i < resp.headers.len() ==> no_cr(#[trigger] resp.headers[i].name),
    ensures
        ({
            let wire = response_wire(resp, reason, date);
            let at = wire.len() - resp.body.len() - 4;
            &&& blank_line_at(wire, at)
            &&& forall|k: int| 0 <= k < at ==> !blank_line_at(wire, k)
            &&& wire.skip(at + 4) == resp.body
        }),
{
    let head = response_head(resp.status, reason, date, resp.body.len());
    lemma_head_is_lined(resp.status, reason, date, resp.body.len());
    lemma_block_is_lined(head, resp.headers);
    let lines = head + header_block(resp.headers);
    let wire = response_wire(resp, reason, date);
    assert(wire =~= lines + crlf() + resp.body);
    let at = wire.len() - resp.body.len() - 4;
    assert(at == lines.len() - 2);
    assert(wire[at] == lines[at]);
    assert(wire[at + 1] == lines[at + 1]);
    assert(wire[at + 2] == crlf()[0]);
    assert(wire[at + 3] == crlf()[1]);
    assert forall|k: int| 0 <= k < at implies !blank_line_at(wire, k) by {
        assert(wire[k] == lines[k]);
        assert(wire[k + 2] == lines[k + 2]);
    }
    assert(wire.skip(at + 4) =~= resp.body);
}

} // verus!
