//! The written head of a response can be read back: its bytes determine the
//! status line and the header list.
use vstd::prelude::*;
use crate::grammar::{header_name_ok, header_text_ok, is_token_byte};
use crate::serialize::{
    completed_headers, mentions, content_length_name, content_type_name, header_block, header_line, headers_writable,
    response_head, text_plain, version_token,
};
use crate::wire::{crlf, decimal};

verus! {

/// No byte of `s` is `d`.
pub open spec fn lacks(s: Seq<u8>, d: u8) -> bool {
    forall|i: int| 0 <= i < s.len() ==> #[trigger] s[i] != d
}

/// Two splits of one sequence at the first occurrence of a delimiter agree.
proof fn lemma_split_at(x1: Seq<u8>, y1: Seq<u8>, x2: Seq<u8>, y2: Seq<u8>, d: u8)
    requires
        x1 + y1 == x2 + y2,
        lacks(x1, d),
        lacks(x2, d),
        y1.len() > 0 && y1[0] == d,
        y2.len() > 0 && y2[0] == d,
    ensures
        x1 == x2,
        y1 == y2,
{
    let s = x1 + y1;
    if x1.len() < x2.len() {
        assert(s[x1.len() as int] == d);
        assert((x2 + y2)[x1.len() as int] == x2[x1.len() as int]);
    } else if x2.len() < x1.len() {
        assert((x2 + y2)[x2.len() as int] == d);
        assert(s[x2.len() as int] == x1[x2.len() as int]);
    }
    assert(x1 =~= s.take(x1.len() as int));
    assert(x2 =~= (x2 + y2).take(x2.len() as int));
    assert(y1 =~= s.skip(x1.len() as int));
    assert(y2 =~= (x2 + y2).skip(x2.len() as int));
}

/// Equal sequences with a common prefix have equal remainders.
proof fn lemma_drop_prefix(p: Seq<u8>, a: Seq<u8>, b: Seq<u8>)
    requires
        p + a == p + b,
    ensures
        a == b,
{
    assert(a =~= (p + a).skip(p.len() as int));
    assert(b =~= (p + b).skip(p.len() as int));
}

/// The header block read from its first line.
proof fn lemma_block_front(hs: Seq<(Seq<u8>, Seq<u8>)>)
    requires
        hs.len() > 0,
    ensures
        header_block(hs) == header_line(hs[0]) + header_block(hs.skip(1)),
    decreases hs.len(),
{
    if hs.len() == 1 {
        assert(hs.drop_last().len() == 0);
        assert(hs.skip(1).len() == 0);
        assert(header_block(hs.drop_last()) == Seq::<u8>::empty());
        assert(header_block(hs.skip(1)) == Seq::<u8>::empty());
        assert(hs.last() == hs[0]);
        assert(header_block(hs) =~= header_line(hs[0]) + header_block(hs.skip(1)));
    } else {
        let init = hs.drop_last();
        lemma_block_front(init);
        assert(hs.skip(1).drop_last() =~= init.skip(1));
        assert(hs.skip(1).last() == hs.last());
        assert(init[0] == hs[0]);
        assert(header_block(hs) == header_block(init) + header_line(hs.last()));
        assert(header_block(hs.skip(1)) == header_block(hs.skip(1).drop_last()) + header_line(hs.skip(1).last()));
        assert(header_block(hs.skip(1)) == header_block(init.skip(1)) + header_line(hs.last()));
        assert(header_block(init) == header_line(hs[0]) + header_block(init.skip(1)));
        assert((header_line(hs[0]) + header_block(init.skip(1))) + header_line(hs.last()) =~= header_line(hs[0])
            + (header_block(init.skip(1)) + header_line(hs.last())));
    }
}

/// The digits of a decimal number.
proof fn lemma_decimal_digits(n: nat)
    ensures
        decimal(n).len() >= 1,
        n >= 10 ==> decimal(n).len() >= 2,
        forall|i: int| 0 <= i < decimal(n).len() ==> 48 <= #[trigger] decimal(n)[i] <= 57,
    decreases n,
{
    if n >= 10 {
        lemma_decimal_digits(n / 10);
    }
}

/// A number is determined by its decimal digits.
proof fn lemma_decimal_injective(a: nat, b: nat)
    requires
        decimal(a) == decimal(b),
    ensures
        a == b,
    decreases a,
{
    lemma_decimal_digits(a);
    lemma_decimal_digits(b);
    if a >= 10 && b >= 10 {
        assert(decimal(a).drop_last() =~= decimal(a / 10));
        assert(decimal(b).drop_last() =~= decimal(b / 10));
        lemma_decimal_injective(a / 10, b / 10);
        assert(decimal(a).last() == decimal(b).last());
        assert(decimal(a).last() == (48 + a % 10) as u8);
        assert(decimal(b).last() == (48 + b % 10) as u8);
        assert(a % 10 == b % 10);
        assert(a == 10 * (a / 10) + a % 10);
        assert(b == 10 * (b / 10) + b % 10);
    } else if a < 10 && b < 10 {
        assert(decimal(a)[0] == decimal(b)[0]);
        assert(decimal(a)[0] == (48 + a) as u8);
        assert(decimal(b)[0] == (48 + b) as u8);
    }
}

/// One header line, followed by anything, determines its name and value.
proof fn lemma_line_split(
    n1: Seq<u8>,
    v1: Seq<u8>,
    r1: Seq<u8>,
    n2: Seq<u8>,
    v2: Seq<u8>,
    r2: Seq<u8>,
)
    requires
        header_name_ok(n1) && header_text_ok(v1),
        header_name_ok(n2) && header_text_ok(v2),
        header_line((n1, v1)) + r1 == header_line((n2, v2)) + r2,
    ensures
        n1 == n2,
        v1 == v2,
        r1 == r2,
{
    assert(lacks(n1, 58u8)) by {
        assert(forall|i: int| 0 <= i < n1.len() ==> is_token_byte(#[trigger] n1[i]));
    }
    assert(lacks(n2, 58u8)) by {
        assert(forall|i: int| 0 <= i < n2.len() ==> is_token_byte(#[trigger] n2[i]));
    }
    let t1 = seq![58u8, 32u8] + (v1 + (crlf() + r1));
    let t2 = seq![58u8, 32u8] + (v2 + (crlf() + r2));
    assert(header_line((n1, v1)) + r1 =~= n1 + t1);
    assert(header_line((n2, v2)) + r2 =~= n2 + t2);
    lemma_split_at(n1, t1, n2, t2, 58u8);
    lemma_drop_prefix(seq![58u8, 32u8], v1 + (crlf() + r1), v2 + (crlf() + r2));
    lemma_split_at(v1, crlf() + r1, v2, crlf() + r2, 13u8);
    lemma_drop_prefix(crlf(), r1, r2);
}

/// The headers after the first of a writable list are writable.
proof fn lemma_rest_writable(hs: Seq<(Seq<u8>, Seq<u8>)>)
    requires
        headers_writable(hs),
        hs.len() > 0,
    ensures
        headers_writable(hs.skip(1)),
{
    assert forall|i: int| 0 <= i < hs.skip(1).len() implies header_name_ok(#[trigger] hs.skip(1)[i].0)
        && header_text_ok(hs.skip(1)[i].1) by {
        assert(hs.skip(1)[i] == hs[i + 1]);
        assert(header_name_ok(hs[i + 1].0) && header_text_ok(hs[i + 1].1));
    }
}

/// A non-empty writable header block does not start like the blank line.
proof fn lemma_block_not_blank(hs: Seq<(Seq<u8>, Seq<u8>)>)
    requires
        headers_writable(hs),
        hs.len() > 0,
    ensures
        header_block(hs) + crlf() != crlf(),
{
    lemma_block_front(hs);
    assert(header_name_ok(hs[0].0));
    assert(is_token_byte(hs[0].0[0]));
    assert((header_block(hs) + crlf())[0] == hs[0].0[0]);
}

/// The header block, followed by the blank line, determines the headers.
proof fn lemma_block_injective(h1: Seq<(Seq<u8>, Seq<u8>)>, h2: Seq<(Seq<u8>, Seq<u8>)>)
    requires
        headers_writable(h1),
        headers_writable(h2),
        header_block(h1) + crlf() == header_block(h2) + crlf(),
    ensures
        h1 == h2,
    decreases h1.len(),
{
    if h1.len() == 0 && h2.len() == 0 {
        assert(h1 =~= h2);
    } else if h1.len() == 0 {
        assert(header_block(h1) + crlf() =~= crlf());
        lemma_block_not_blank(h2);
    } else if h2.len() == 0 {
        assert(header_block(h2) + crlf() =~= crlf());
        lemma_block_not_blank(h1);
    } else {
        lemma_block_front(h1);
        lemma_block_front(h2);
        let r1 = header_block(h1.skip(1)) + crlf();
        let r2 = header_block(h2.skip(1)) + crlf();
        assert(header_block(h1) + crlf() =~= header_line(h1[0]) + r1);
        assert(header_block(h2) + crlf() =~= header_line(h2[0]) + r2);
        assert(header_name_ok(h1[0].0) && header_text_ok(h1[0].1));
        assert(header_name_ok(h2[0].0) && header_text_ok(h2[0].1));
        lemma_line_split(h1[0].0, h1[0].1, r1, h2[0].0, h2[0].1, r2);
        lemma_rest_writable(h1);
        lemma_rest_writable(h2);
        lemma_block_injective(h1.skip(1), h2.skip(1));
        assert(h1 =~= seq![h1[0]] + h1.skip(1));
        assert(h2 =~= seq![h2[0]] + h2.skip(1));
    }
}

proof fn lemma_literals_writable()
    ensures
        header_name_ok(content_length_name()),
        header_name_ok(content_type_name()),
        header_text_ok(text_plain()),
{
    assert(header_name_ok(content_length_name()));
    assert(header_name_ok(content_type_name()));
    assert(header_text_ok(text_plain()));
}

/// The headers that the serializer adds are themselves writable.
proof fn lemma_completed_writable(hs: Seq<(Seq<u8>, Seq<u8>)>, body_len: nat)
    requires
        headers_writable(hs),
    ensures
        headers_writable(completed_headers(hs, body_len)),
{
    lemma_decimal_digits(body_len);
    let all = completed_headers(hs, body_len);
    assert(header_text_ok(decimal(body_len)));
    lemma_literals_writable();
    assert forall|i: int| 0 <= i < all.len() implies header_name_ok(#[trigger] all[i].0) && header_text_ok(all[i].1) by {
        if i < hs.len() {
            assert(all[i] == hs[i]);
            assert(header_name_ok(hs[i].0) && header_text_ok(hs[i].1));
        } else if !mentions(hs, content_length_name()) && i == hs.len() {
            assert(all[i] == (content_length_name(), decimal(body_len)));
        } else {
            assert(all[i] == (content_type_name(), text_plain()));
        }
    }
    assert(headers_writable(all));
}

/// Reading back a written response head recovers what was written: two
/// responses whose heads are the same bytes have the same status code, the
/// same reason phrase and the same header list, defaulted headers included.
/// Header names are tokens and header values and reasons printable text, as
/// the serializer demands and the status registry gives.
pub proof fn head_round_trip(
    c1: u16,
    r1: Seq<u8>,
    h1: Seq<(Seq<u8>, Seq<u8>)>,
    n1: nat,
    c2: u16,
    r2: Seq<u8>,
    h2: Seq<(Seq<u8>, Seq<u8>)>,
    n2: nat,
)
    requires
        header_text_ok(r1),
        header_text_ok(r2),
        headers_writable(h1),
        headers_writable(h2),
        response_head(c1, r1, completed_headers(h1, n1)) == response_head(c2, r2, completed_headers(h2, n2)),
    ensures
        c1 == c2,
        r1 == r2,
        completed_headers(h1, n1) == completed_headers(h2, n2),
{
    let a1 = completed_headers(h1, n1);
    let a2 = completed_headers(h2, n2);
    lemma_completed_writable(h1, n1);
    lemma_completed_writable(h2, n2);
    let p = version_token() + seq![32u8];
    let rest1 = decimal(c1 as nat) + (seq![32u8] + (r1 + (crlf() + (header_block(a1) + crlf()))));
    let rest2 = decimal(c2 as nat) + (seq![32u8] + (r2 + (crlf() + (header_block(a2) + crlf()))));
    assert(response_head(c1, r1, a1) =~= p + rest1);
    assert(response_head(c2, r2, a2) =~= p + rest2);
    lemma_drop_prefix(p, rest1, rest2);
    lemma_decimal_digits(c1 as nat);
    lemma_decimal_digits(c2 as nat);
    assert(lacks(decimal(c1 as nat), 32u8));
    assert(lacks(decimal(c2 as nat), 32u8));
    lemma_split_at(
        decimal(c1 as nat),
        seq![32u8] + (r1 + (crlf() + (header_block(a1) + crlf()))),
        decimal(c2 as nat),
        seq![32u8] + (r2 + (crlf() + (header_block(a2) + crlf()))),
        32u8,
    );
    lemma_decimal_injective(c1 as nat, c2 as nat);
    lemma_drop_prefix(seq![32u8], r1 + (crlf() + (header_block(a1) + crlf())), r2 + (crlf() + (header_block(a2) + crlf())));
    assert(lacks(r1, 13u8));
    assert(lacks(r2, 13u8));
    lemma_split_at(r1, crlf() + (header_block(a1) + crlf()), r2, crlf() + (header_block(a2) + crlf()), 13u8);
    lemma_drop_prefix(crlf(), header_block(a1) + crlf(), header_block(a2) + crlf());
    lemma_block_injective(a1, a2);
}

} // verus!
