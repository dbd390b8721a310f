//! Rendering a response into wire bytes.
use vstd::prelude::*;
use crate::grammar::{header_name_ok, header_text_ok, same_name, is_valid_header_name, is_header_text, names_match};
use crate::message::{ConnError, Header, Response, header_pairs};
use crate::wire::{append, append_decimal, crlf, decimal};

verus! {

/// The reason phrase that the status code registry gives `code`, if any.
pub uninterp spec fn canonical_reason_of(code: u16) -> Option<Seq<u8>>;

/// The bytes of an optional byte vector.
pub open spec fn opt_bytes(o: Option<Vec<u8>>) -> Option<Seq<u8>> {
    match o {
        Some(v) => Some(v@),
        None => None,
    }
}

/// Relies on http::StatusCode::canonical_reason for the registered reason
/// phrase, each of which is printable ASCII; http::StatusCode::from_u16
/// refuses codes outside 100..=999, which have no phrase.
#[verifier::external_body]
fn canonical_reason(code: u16) -> (r: Option<Vec<u8>>)
    ensures
        opt_bytes(r) == canonical_reason_of(code),
        r matches Some(t) ==> header_text_ok(t@),
{
    match http::StatusCode::from_u16(code) {
        Ok(s) => s.canonical_reason().map(|t| t.as_bytes().to_vec()),
        Err(_) => None,
    }
}

/// `HTTP/1.1`
pub open spec fn version_token() -> Seq<u8> {
    seq![72u8, 84u8, 84u8, 80u8, 47u8, 49u8, 46u8, 49u8]
}

/// `unknown status`, the reason used for a code without a registered phrase.
pub open spec fn unknown_status() -> Seq<u8> {
    seq![117u8, 110u8, 107u8, 110u8, 111u8, 119u8, 110u8, 32u8, 115u8, 116u8, 97u8, 116u8, 117u8, 115u8]
}

/// `content-length`
pub open spec fn content_length_name() -> Seq<u8> {
    seq![99u8, 111u8, 110u8, 116u8, 101u8, 110u8, 116u8, 45u8, 108u8, 101u8, 110u8, 103u8, 116u8, 104u8]
}

/// `content-type`
pub open spec fn content_type_name() -> Seq<u8> {
    seq![99u8, 111u8, 110u8, 116u8, 101u8, 110u8, 116u8, 45u8, 116u8, 121u8, 112u8, 101u8]
}

/// `text/plain`, the default content type.
pub open spec fn text_plain() -> Seq<u8> {
    seq![116u8, 101u8, 120u8, 116u8, 47u8, 112u8, 108u8, 97u8, 105u8, 110u8]
}

/// The reason written on the status line.
pub open spec fn reason_text(r: Option<Seq<u8>>) -> Seq<u8> {
    match r {
        Some(t) => t,
        None => unknown_status(),
    }
}

/// `HTTP/1.1 <code> <reason>\r\n`
pub open spec fn status_line(code: u16, reason: Seq<u8>) -> Seq<u8> {
    version_token() + seq![32u8] + decimal(code as nat) + seq![32u8] + reason + crlf()
}

/// `<name>: <value>\r\n`
pub open spec fn header_line(h: (Seq<u8>, Seq<u8>)) -> Seq<u8> {
    h.0 + seq![58u8, 32u8] + h.1 + crlf()
}

/// The header lines of `hs`, in order.
pub open spec fn header_block(hs: Seq<(Seq<u8>, Seq<u8>)>) -> Seq<u8>
    decreases hs.len(),
{
    if hs.len() == 0 {
        Seq::empty()
    } else {
        header_block(hs.drop_last()) + header_line(hs.last())
    }
}

/// Whether some header of `hs` is named `name`, ignoring case.
pub open spec fn mentions(hs: Seq<(Seq<u8>, Seq<u8>)>, name: Seq<u8>) -> bool {
    exists|i: int| 0 <= i < hs.len() && same_name(#[trigger] hs[i].0, name)
}

/// The headers as written: the caller's, then `content-length` (the body
/// length) if absent, then `content-type: text/plain` if absent.
pub open spec fn completed_headers(hs: Seq<(Seq<u8>, Seq<u8>)>, body_len: nat) -> Seq<(Seq<u8>, Seq<u8>)> {
    let with_length = if mentions(hs, content_length_name()) {
        hs
    } else {
        hs.push((content_length_name(), decimal(body_len)))
    };
    if mentions(hs, content_type_name()) {
        with_length
    } else {
        with_length.push((content_type_name(), text_plain()))
    }
}

/// Every header has a valid name and a value that is header text.
pub open spec fn headers_writable(hs: Seq<(Seq<u8>, Seq<u8>)>) -> bool {
    forall|i: int| 0 <= i < hs.len() ==> header_name_ok(#[trigger] hs[i].0) && header_text_ok(hs[i].1)
}

/// The complete wire form of a response with the given reason phrase.
pub open spec fn response_wire(
    code: u16,
    reason: Seq<u8>,
    hs: Seq<(Seq<u8>, Seq<u8>)>,
    body: Seq<u8>,
) -> Seq<u8> {
    response_head(code, reason, completed_headers(hs, body.len())) + body
}

/// The head of a response: status line, header lines and the blank line.
pub open spec fn response_head(code: u16, reason: Seq<u8>, hs: Seq<(Seq<u8>, Seq<u8>)>) -> Seq<u8> {
    status_line(code, reason) + header_block(hs) + crlf()
}

/// Whether some header in `hs` is named `name`, ignoring case.
pub fn has_header(hs: &Vec<Header>, name: &[u8]) -> (r: bool)
    ensures
        r == mentions(header_pairs(hs@), name@),
{
    let ghost pairs = header_pairs(hs@);
    let mut i: usize = 0;
    while i < hs.len()
        invariant
            i <= hs@.len(),
            pairs == header_pairs(hs@),
            forall|j: int| 0 <= j < i ==> !same_name(#[trigger] pairs[j].0, name@),
        decreases hs@.len() - i,
    {
        if names_match(hs[i].name.as_slice(), name) {
            assert(same_name(pairs[i as int].0, name@));
            return true;
        }
        i = i + 1;
    }
    false
}

/// Appends `name: value\r\n` to `out`.
fn append_header_line(out: &mut Vec<u8>, name: &[u8], value: &[u8])
    ensures
        final(out)@ == old(out)@ + header_line((name@, value@)),
{
    append(out, name);
    append(out, &[58u8, 32u8]);
    append(out, value);
    append(out, &[13u8, 10u8]);
    assert(out@ =~= old(out)@ + header_line((name@, value@)));
}

/// Renders `resp` with the given reason phrase (`None`: the code has none).
/// Fails with `MalformedResponse`, before rendering anything, when a header
/// name is not a valid token or a header value is not printable header text.
pub fn serialize_with_reason(resp: &Response, reason: &Option<Vec<u8>>) -> (r: Result<Vec<u8>, ConnError>)
    ensures
        match r {
            Ok(w) => headers_writable(header_pairs(resp.headers@)) && w@ == response_wire(
                resp.status,
                reason_text(opt_bytes(*reason)),
                header_pairs(resp.headers@),
                resp.body@,
            ),
            Err(e) => !headers_writable(header_pairs(resp.headers@)) && e is MalformedResponse,
        },
{
    let ghost pairs = header_pairs(resp.headers@);
    let mut i: usize = 0;
    while i < resp.headers.len()
        invariant
            i <= resp.headers@.len(),
            pairs == header_pairs(resp.headers@),
            headers_writable(pairs.take(i as int)),
        decreases resp.headers@.len() - i,
    {
        let h = &resp.headers[i];
        assert(h.name@ == pairs[i as int].0 && h.value@ == pairs[i as int].1);
        let name_ok = is_valid_header_name(h.name.as_slice());
        let text_ok = is_header_text(h.value.as_slice());
        if !name_ok || !text_ok {
            return Err(ConnError::MalformedResponse);
        }
        assert(header_name_ok(pairs[i as int].0) && header_text_ok(pairs[i as int].1));
        assert(pairs.take(i + 1) =~= pairs.take(i as int).push(pairs[i as int]));
        i = i + 1;
    }
    assert(pairs.take(i as int) =~= pairs);
    let mut out: Vec<u8> = Vec::new();
    append(&mut out, &[72u8, 84u8, 84u8, 80u8, 47u8, 49u8, 46u8, 49u8, 32u8]);
    append_decimal(&mut out, resp.status as u64);
    append(&mut out, &[32u8]);
    match reason {
        Some(t) => append(&mut out, t.as_slice()),
        None => append(
            &mut out,
            &[117u8, 110u8, 107u8, 110u8, 111u8, 119u8, 110u8, 32u8, 115u8, 116u8, 97u8, 116u8, 117u8, 115u8],
        ),
    }
    append(&mut out, &[13u8, 10u8]);
    let ghost head = out@;
    assert(head =~= status_line(resp.status, reason_text(opt_bytes(*reason))));
    let mut k: usize = 0;
    while k < resp.headers.len()
        invariant
            k <= resp.headers@.len(),
            pairs == header_pairs(resp.headers@),
            out@ == head + header_block(pairs.take(k as int)),
        decreases resp.headers@.len() - k,
    {
        let h = &resp.headers[k];
        append_header_line(&mut out, h.name.as_slice(), h.value.as_slice());
        assert(pairs.take(k + 1).drop_last() =~= pairs.take(k as int));
        assert(out@ =~= head + header_block(pairs.take(k + 1)));
        k = k + 1;
    }
    assert(pairs.take(k as int) =~= pairs);
    let ghost len_name: Seq<u8> = content_length_name();
    let ghost ctype_name: Seq<u8> = content_type_name();
    let length_name: [u8; 14] = [99u8, 111u8, 110u8, 116u8, 101u8, 110u8, 116u8, 45u8, 108u8, 101u8, 110u8, 103u8, 116u8, 104u8];
    let ctype_bytes: [u8; 12] = [99u8, 111u8, 110u8, 116u8, 101u8, 110u8, 116u8, 45u8, 116u8, 121u8, 112u8, 101u8];
    let has_length = has_header(&resp.headers, length_name.as_slice());
    let has_type = has_header(&resp.headers, ctype_bytes.as_slice());
    assert(length_name@ == len_name);
    assert(ctype_bytes@ == ctype_name);
    if !has_length {
        let mut digits: Vec<u8> = Vec::new();
        append_decimal(&mut digits, resp.body.len() as u64);
        append_header_line(&mut out, length_name.as_slice(), digits.as_slice());
    }
    let ghost with_length = if has_length { pairs } else { pairs.push((len_name, decimal(resp.body@.len()))) };
    assert(header_block(with_length) == out@.subrange(head.len() as int, out@.len() as int)) by {
        if !has_length {
            assert(with_length.drop_last() =~= pairs);
        }
        assert(out@ =~= head + header_block(with_length));
    }
    assert(out@ =~= head + header_block(with_length));
    if !has_type {
        append_header_line(&mut out, ctype_bytes.as_slice(), &[116u8, 101u8, 120u8, 116u8, 47u8, 112u8, 108u8, 97u8, 105u8, 110u8]);
        assert(with_length.push((ctype_name, text_plain())).drop_last() =~= with_length);
    }
    let ghost all = completed_headers(pairs, resp.body@.len());
    assert(out@ =~= head + header_block(all));
    append(&mut out, &[13u8, 10u8]);
    append(&mut out, resp.body.as_slice());
    assert(out@ =~= response_wire(resp.status, reason_text(opt_bytes(*reason)), pairs, resp.body@));
    Ok(out)
}

/// Renders `resp` into wire bytes: the status line with the code's canonical
/// reason (or `unknown status`), the headers completed with the defaults, a
/// blank line and the body. Fails with `MalformedResponse` exactly when a
/// header cannot be written.
pub fn serialize(resp: &Response) -> (r: Result<Vec<u8>, ConnError>)
    ensures
        match r {
            Ok(w) => headers_writable(header_pairs(resp.headers@)) && w@ == response_wire(
                resp.status,
                reason_text(canonical_reason_of(resp.status)),
                header_pairs(resp.headers@),
                resp.body@,
            ),
            Err(e) => !headers_writable(header_pairs(resp.headers@)) && e is MalformedResponse,
        },
        header_text_ok(reason_text(canonical_reason_of(resp.status))),
{
    let reason = canonical_reason(resp.status);
    proof {
        assert(header_text_ok(unknown_status()));
    }
    serialize_with_reason(resp, &reason)
}

/// Without a caller-supplied `content-length`, the written headers carry
/// exactly one, right after the caller's, whose value is the body length in
/// decimal.
pub proof fn default_content_length(hs: Seq<(Seq<u8>, Seq<u8>)>, body_len: nat)
    requires
        !mentions(hs, content_length_name()),
    ensures
        completed_headers(hs, body_len)[hs.len() as int] == (content_length_name(), decimal(body_len)),
        forall|i: int|
            0 <= i < completed_headers(hs, body_len).len() && i != hs.len() ==> !same_name(
                #[trigger] completed_headers(hs, body_len)[i].0,
                content_length_name(),
            ),
{
    let all = completed_headers(hs, body_len);
    assert forall|i: int| 0 <= i < all.len() && i != hs.len() implies !same_name(#[trigger] all[i].0, content_length_name()) by {
        if i < hs.len() {
            assert(all[i] == hs[i]);
        } else {
            assert(all[i].0 == content_type_name());
        }
    }
}

/// A caller-supplied `content-length` is written unchanged: the caller's
/// headers are written first, in order and as given, and no other
/// `content-length` follows them.
pub proof fn caller_content_length_kept(hs: Seq<(Seq<u8>, Seq<u8>)>, body_len: nat)
    requires
        mentions(hs, content_length_name()),
    ensures
        completed_headers(hs, body_len).take(hs.len() as int) == hs,
        forall|i: int|
            hs.len() <= i < completed_headers(hs, body_len).len() ==> !same_name(
                #[trigger] completed_headers(hs, body_len)[i].0,
                content_length_name(),
            ),
{
    let all = completed_headers(hs, body_len);
    assert(all.take(hs.len() as int) =~= hs);
    assert forall|i: int| hs.len() <= i < all.len() implies !same_name(#[trigger] all[i].0, content_length_name()) by {
        assert(all[i].0 == content_type_name());
    }
}

} // verus!
