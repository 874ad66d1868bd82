//! Listing documents: which keys a listing selects, how a page is cut,
//! and the byte-exact JSON document a listing renders to.

use vstd::prelude::*;
use vstd::string::StrSliceExecFns;
use vstd::string::StringSliceAdditionalSpecFns;

use crate::keys::{starts_with, ObjectKey};
use crate::order::lex_lt;

verus! {

/// A key passes the filters: strictly greater than the cursor (if any)
/// and starting with the prefix (if any).
pub open spec fn selected(k: Seq<u8>, cursor: Option<Seq<u8>>, prefix: Option<Seq<u8>>) -> bool {
    &&& (cursor matches Some(c) ==> lex_lt(c, k))
    &&& (prefix matches Some(p) ==> starts_with(k, p))
}

/// The keys passing the filters, kept in their given order.
pub open spec fn filtered_keys(
    keys: Seq<Seq<u8>>,
    cursor: Option<Seq<u8>>,
    prefix: Option<Seq<u8>>,
) -> Seq<Seq<u8>>
    decreases keys.len(),
{
    if keys.len() == 0 {
        Seq::empty()
    } else {
        let rest = filtered_keys(keys.drop_last(), cursor, prefix);
        if selected(keys.last(), cursor, prefix) {
            rest.push(keys.last())
        } else {
            rest
        }
    }
}

/// The page a listing returns: the filtered keys, truncated to `limit`.
pub open spec fn page_data(
    keys: Seq<Seq<u8>>,
    cursor: Option<Seq<u8>>,
    prefix: Option<Seq<u8>>,
    limit: u32,
) -> Seq<Seq<u8>> {
    let f = filtered_keys(keys, cursor, prefix);
    if f.len() <= limit {
        f
    } else {
        f.take(limit as int)
    }
}

/// The key the next page resumes after: the last key emitted, present
/// exactly when truncation removed entries.
pub open spec fn page_next(
    keys: Seq<Seq<u8>>,
    cursor: Option<Seq<u8>>,
    prefix: Option<Seq<u8>>,
    limit: u32,
) -> Option<Seq<u8>> {
    let f = filtered_keys(keys, cursor, prefix);
    if f.len() > limit {
        Option::Some(f[limit as int - 1])
    } else {
        Option::None
    }
}

/// The digit pair of a byte, lowercase.
pub open spec fn hex_digit(n: u8) -> u8 {
    if n < 10 {
        (48 + n) as u8
    } else {
        (87 + n) as u8
    }
}

/// How one byte of a string appears inside a JSON string literal: quote
/// and backslash escaped, the five short control escapes, other control
/// bytes as a four-digit escape, everything else as itself.
pub open spec fn escaped_byte(b: u8) -> Seq<u8> {
    if b == 34 {
        seq![92u8, 34u8]
    } else if b == 92 {
        seq![92u8, 92u8]
    } else if b == 8 {
        seq![92u8, 98u8]
    } else if b == 9 {
        seq![92u8, 116u8]
    } else if b == 10 {
        seq![92u8, 110u8]
    } else if b == 12 {
        seq![92u8, 102u8]
    } else if b == 13 {
        seq![92u8, 114u8]
    } else if b < 32 {
        seq![92u8, 117u8, 48u8, 48u8, hex_digit(b / 16), hex_digit(b % 16)]
    } else {
        seq![b]
    }
}

/// A whole string escaped, byte for byte.
pub open spec fn escaped(s: Seq<u8>) -> Seq<u8>
    decreases s.len(),
{
    if s.len() == 0 {
        Seq::empty()
    } else {
        escaped(s.drop_last()) + escaped_byte(s.last())
    }
}

/// A JSON string literal: the escaped bytes between quotes.
pub open spec fn quoted(s: Seq<u8>) -> Seq<u8> {
    seq![34u8] + escaped(s) + seq![34u8]
}

/// A number in decimal, most significant digit first.
pub open spec fn dec_bytes(n: nat) -> Seq<u8>
    decreases n,
{
    if n < 10 {
        seq![(48 + n) as u8]
    } else {
        dec_bytes(n / 10).push((48 + n % 10) as u8)
    }
}

/// The listed keys as a comma-separated run of JSON strings.
pub open spec fn joined_keys(data: Seq<Seq<u8>>) -> Seq<u8>
    decreases data.len(),
{
    if data.len() == 0 {
        Seq::empty()
    } else if data.len() == 1 {
        quoted(data[0])
    } else {
        joined_keys(data.drop_last()) + seq![44u8] + quoted(data.last())
    }
}

/// The whole listing document: `data` first, then `meta` with `limit`
/// and, when present, `prefix` and `next_cursor`.  Field names, order and
/// escaping are part of the externally observable contract.
pub open spec fn rendered_doc(
    data: Seq<Seq<u8>>,
    limit: u32,
    prefix: Option<Seq<u8>>,
    next_cursor: Option<Seq<u8>>,
) -> Seq<u8> {
    "{\"data\":[".spec_bytes() + joined_keys(data) + "],\"meta\":{\"limit\":".spec_bytes()
        + dec_bytes(limit as nat) + (match prefix {
        Option::Some(p) => ",\"prefix\":".spec_bytes() + quoted(p),
        Option::None => Seq::empty(),
    }) + (match next_cursor {
        Option::Some(c) => ",\"next_cursor\":".spec_bytes() + quoted(c),
        Option::None => Seq::empty(),
    }) + "}}".spec_bytes()
}

/// The key bytes of a key sequence.
pub open spec fn keys_view(s: Seq<ObjectKey>) -> Seq<Seq<u8>> {
    Seq::new(s.len(), |i: int| s[i]@)
}

/// The bytes of an optional byte vector.
pub open spec fn opt_vec_bytes(v: Option<Vec<u8>>) -> Option<Seq<u8>> {
    match v {
        Option::Some(c) => Option::Some(c@),
        Option::None => Option::None,
    }
}

/// The bytes of an optional string.
pub open spec fn opt_str_bytes(s: Option<String>) -> Option<Seq<u8>> {
    match s {
        Option::Some(p) => Option::Some(vstd::utf8::encode_utf8(p@)),
        Option::None => Option::None,
    }
}

/// A key sequence in strictly ascending byte-lexicographic order.
pub open spec fn strictly_sorted(s: Seq<Seq<u8>>) -> bool {
    forall|i: int, j: int| 0 <= i < j < s.len() ==> lex_lt(#[trigger] s[i], #[trigger] s[j])
}

/// Every filtered key comes from the underlying sequence and passes the
/// filters.
pub proof fn lemma_filtered_sub(keys: Seq<Seq<u8>>, c: Option<Seq<u8>>, p: Option<Seq<u8>>)
    ensures
        forall|i: int|
            0 <= i < filtered_keys(keys, c, p).len() ==> selected(
                #[trigger] filtered_keys(keys, c, p)[i],
                c,
                p,
            ) && keys.contains(filtered_keys(keys, c, p)[i]),
    decreases keys.len(),
{
    if keys.len() > 0 {
        lemma_filtered_sub(keys.drop_last(), c, p);
        assert(forall|i: int|
            0 <= i < keys.drop_last().len() ==> keys.contains(#[trigger] keys.drop_last()[i]));
        assert forall|i: int| 0 <= i < filtered_keys(keys, c, p).len() implies selected(
            #[trigger] filtered_keys(keys, c, p)[i],
            c,
            p,
        ) && keys.contains(filtered_keys(keys, c, p)[i]) by {
            let f = filtered_keys(keys, c, p);
            let rest = filtered_keys(keys.drop_last(), c, p);
            if i < rest.len() {
                assert(f[i] == rest[i]);
                let j = choose|j: int|
                    0 <= j < keys.drop_last().len() && keys.drop_last()[j] == rest[i];
                assert(keys[j] == rest[i]);
            } else {
                assert(f[i] == keys.last());
            }
        }
    }
}

/// Filtering a strictly sorted key sequence keeps it strictly sorted.
pub proof fn lemma_filtered_sorted(keys: Seq<Seq<u8>>, c: Option<Seq<u8>>, p: Option<Seq<u8>>)
    requires
        strictly_sorted(keys),
    ensures
        strictly_sorted(filtered_keys(keys, c, p)),
    decreases keys.len(),
{
    if keys.len() > 0 {
        assert(strictly_sorted(keys.drop_last()));
        lemma_filtered_sorted(keys.drop_last(), c, p);
        if selected(keys.last(), c, p) {
            lemma_filtered_sub(keys.drop_last(), c, p);
            let f = filtered_keys(keys, c, p);
            let rest = filtered_keys(keys.drop_last(), c, p);
            assert forall|i: int, j: int| 0 <= i < j < f.len() implies lex_lt(
                #[trigger] f[i],
                #[trigger] f[j],
            ) by {
                if j < rest.len() {
                } else {
                    assert(f[j] == keys.last());
                    if i < rest.len() {
                        let a = choose|a: int|
                            0 <= a < keys.drop_last().len() && keys.drop_last()[a] == rest[i];
                        assert(keys[a] == rest[i]);
                        assert(lex_lt(keys[a], keys.last()));
                    }
                }
            }
        }
    }
}

/// No key of `s` is above `x`: the cursor filter with `x` selects none.
proof fn lemma_filter_above_empty(s: Seq<Seq<u8>>, x: Seq<u8>)
    requires
        forall|i: int| 0 <= i < s.len() ==> !lex_lt(x, #[trigger] s[i]),
    ensures
        filtered_keys(s, Option::Some(x), Option::None) =~= Seq::<Seq<u8>>::empty(),
    decreases s.len(),
{
    if s.len() > 0 {
        lemma_filter_above_empty(s.drop_last(), x);
    }
}

/// Resuming at the key at position `j` of a strictly sorted sequence
/// selects exactly what comes after it.
proof fn lemma_filter_skip(s: Seq<Seq<u8>>, j: int)
    requires
        strictly_sorted(s),
        0 <= j < s.len(),
    ensures
        filtered_keys(s, Option::Some(s[j]), Option::None) =~= s.skip(j + 1),
    decreases s.len(),
{
    let x = s[j];
    if j == s.len() - 1 {
        crate::order::lemma_lex_irrefl(x);
        assert forall|i: int| 0 <= i < s.drop_last().len() implies !lex_lt(
            x,
            #[trigger] s.drop_last()[i],
        ) by {
            assert(s.drop_last()[i] == s[i]);
            crate::order::lemma_lex_asym(s[i], x);
        }
        lemma_filter_above_empty(s.drop_last(), x);
        assert(s.skip(j + 1) =~= Seq::<Seq<u8>>::empty());
    } else {
        assert(strictly_sorted(s.drop_last()));
        assert(s.drop_last()[j] == s[j]);
        lemma_filter_skip(s.drop_last(), j);
        assert(lex_lt(x, s.last()));
        assert(filtered_keys(s, Option::Some(x), Option::None) =~= filtered_keys(
            s.drop_last(),
            Option::Some(x),
            Option::None,
        ).push(s.last()));
        assert(s.skip(j + 1) =~= s.drop_last().skip(j + 1).push(s.last()));
    }
}

/// With a resume key that itself passes the filters, filtering from the
/// resume key is the cursor filter applied to the already filtered keys.
proof fn lemma_filter_compose(
    keys: Seq<Seq<u8>>,
    c: Option<Seq<u8>>,
    p: Option<Seq<u8>>,
    x: Seq<u8>,
)
    requires
        selected(x, c, p),
    ensures
        filtered_keys(keys, Option::Some(x), p) =~= filtered_keys(
            filtered_keys(keys, c, p),
            Option::Some(x),
            Option::None,
        ),
    decreases keys.len(),
{
    if keys.len() > 0 {
        lemma_filter_compose(keys.drop_last(), c, p, x);
        let last = keys.last();
        match c {
            Option::Some(c0) => {
                if lex_lt(x, last) {
                    crate::order::lemma_lex_trans(c0, x, last);
                }
            },
            Option::None => {},
        }
        let inner = filtered_keys(keys.drop_last(), c, p);
        if selected(last, c, p) {
            assert(filtered_keys(keys, c, p) == inner.push(last));
            assert(inner.push(last).drop_last() =~= inner);
            assert(inner.push(last).last() == last);
        } else {
            assert(!selected(last, Option::Some(x), p));
        }
    }
}

/// Cutting one page off the filtered selection: when nothing was
/// truncated the page is the whole selection, and when a next-page key
/// was handed out, the page's data followed by the keys selected when
/// resuming from it is exactly the whole selection.  Concatenating pages
/// therefore loses nothing and repeats nothing.
pub proof fn lemma_page_concat(
    keys: Seq<Seq<u8>>,
    c: Option<Seq<u8>>,
    p: Option<Seq<u8>>,
    limit: u32,
)
    requires
        strictly_sorted(keys),
        limit >= 1,
    ensures
        page_next(keys, c, p, limit) is None ==> page_data(keys, c, p, limit) == filtered_keys(
            keys,
            c,
            p,
        ),
        page_next(keys, c, p, limit) matches Some(nc) ==> page_data(keys, c, p, limit)
            + filtered_keys(keys, Option::Some(nc), p) =~= filtered_keys(keys, c, p)
            && filtered_keys(keys, Option::Some(nc), p).len() < filtered_keys(keys, c, p).len(),
{
    let f = filtered_keys(keys, c, p);
    lemma_filtered_sorted(keys, c, p);
    lemma_filtered_sub(keys, c, p);
    if f.len() > limit {
        let nc = f[limit as int - 1];
        assert(selected(nc, c, p));
        lemma_filter_compose(keys, c, p, nc);
        lemma_filter_skip(f, limit as int - 1);
        assert(f.take(limit as int) + f.skip(limit as int) =~= f);
    }
}

/// The pages a listing walk produces, starting from a cursor and always
/// following the next-page key: each page's data in order.
pub open spec fn pages(
    keys: Seq<Seq<u8>>,
    cursor: Option<Seq<u8>>,
    prefix: Option<Seq<u8>>,
    limit: u32,
) -> Seq<Seq<u8>>
    decreases filtered_keys(keys, cursor, prefix).len(),
        when limit >= 1 && strictly_sorted(keys)
    via pages_decreases
{
    match page_next(keys, cursor, prefix, limit) {
        Option::Some(nc) => page_data(keys, cursor, prefix, limit) + pages(
            keys,
            Option::Some(nc),
            prefix,
            limit,
        ),
        Option::None => page_data(keys, cursor, prefix, limit),
    }
}

#[via_fn]
proof fn pages_decreases(
    keys: Seq<Seq<u8>>,
    cursor: Option<Seq<u8>>,
    prefix: Option<Seq<u8>>,
    limit: u32,
) {
    lemma_page_concat(keys, cursor, prefix, limit);
}

/// The paging property: concatenating `data` across successive pages,
/// following each page's next cursor until it is absent, reproduces the
/// full filtered, sorted key selection — no duplicates, no omissions.
pub proof fn lemma_paging(
    keys: Seq<Seq<u8>>,
    cursor: Option<Seq<u8>>,
    prefix: Option<Seq<u8>>,
    limit: u32,
)
    requires
        strictly_sorted(keys),
        limit >= 1,
    ensures
        pages(keys, cursor, prefix, limit) =~= filtered_keys(keys, cursor, prefix),
    decreases filtered_keys(keys, cursor, prefix).len(),
{
    lemma_page_concat(keys, cursor, prefix, limit);
    match page_next(keys, cursor, prefix, limit) {
        Option::Some(nc) => {
            lemma_paging(keys, Option::Some(nc), prefix, limit);
        },
        Option::None => {},
    }
}

/// Listing is deterministic: two documents produced from the same keys
/// and the same cursor, prefix and limit are identical, so repeated
/// listings of an unchanged store agree.
pub proof fn lemma_list_idempotent(
    d1: Seq<u8>,
    d2: Seq<u8>,
    data: Seq<Seq<u8>>,
    limit: u32,
    prefix: Option<Seq<u8>>,
    next_cursor: Option<Seq<u8>>,
)
    requires
        d1 == rendered_doc(data, limit, prefix, next_cursor),
        d2 == rendered_doc(data, limit, prefix, next_cursor),
    ensures
        d1 == d2,
{
}

/// Appends the bytes of a literal.
fn push_literal(out: &mut Vec<u8>, s: &str)
    ensures
        final(out)@ == old(out)@ + s.spec_bytes(),
{
    let mut v = s.as_bytes_vec();
    out.append(&mut v);
}

/// Appends one string escaped for a JSON literal.
fn push_escaped(out: &mut Vec<u8>, s: &[u8])
    ensures
        final(out)@ == old(out)@ + escaped(s@),
{
    let n: usize = s.len();
    let mut i: usize = 0;
    while i < n
        invariant
            n == s@.len(),
            0 <= i <= n,
            out@ == old(out)@ + escaped(s@.take(i as int)),
        decreases n - i,
    {
        let b = s[i];
        if b == 34 {
            out.push(92);
            out.push(34);
        } else if b == 92 {
            out.push(92);
            out.push(92);
        } else if b == 8 {
            out.push(92);
            out.push(98);
        } else if b == 9 {
            out.push(92);
            out.push(116);
        } else if b == 10 {
            out.push(92);
            out.push(110);
        } else if b == 12 {
            out.push(92);
            out.push(102);
        } else if b == 13 {
            out.push(92);
            out.push(114);
        } else if b < 32 {
            out.push(92);
            out.push(117);
            out.push(48);
            out.push(48);
            let hi = b / 16;
            let lo = b % 16;
            out.push(if hi < 10 { 48 + hi } else { 87 + hi });
            out.push(if lo < 10 { 48 + lo } else { 87 + lo });
        } else {
            out.push(b);
        }
        proof {
            assert(s@.take(i + 1 as int).drop_last() =~= s@.take(i as int));
            assert(s@.take(i + 1 as int).last() == s@[i as int]);
            assert(escaped(s@.take(i + 1 as int)) == escaped(s@.take(i as int)) + escaped_byte(
                s@[i as int],
            ));
            assert(out@ =~= old(out)@ + escaped(s@.take(i + 1 as int)));
        }
        i += 1;
    }
    proof {
        assert(s@.take(n as int) =~= s@);
    }
}

/// Appends a JSON string literal.
fn push_quoted(out: &mut Vec<u8>, s: &[u8])
    ensures
        final(out)@ == old(out)@ + quoted(s@),
{
    out.push(34);
    push_escaped(out, s);
    out.push(34);
    proof {
        assert(final(out)@ =~= old(out)@ + quoted(s@));
    }
}

/// Appends a number in decimal.
fn push_dec(out: &mut Vec<u8>, n: u32)
    ensures
        final(out)@ == old(out)@ + dec_bytes(n as nat),
    decreases n,
{
    if n < 10 {
        out.push(48 + n as u8);
    } else {
        push_dec(out, n / 10);
        out.push(48 + (n % 10) as u8);
    }
}

/// Renders the listing document for the given page.
pub fn render_listing(
    data: &Vec<ObjectKey>,
    limit: u32,
    prefix: &Option<String>,
    next_cursor: &Option<String>,
) -> (r: Vec<u8>)
    ensures
        r@ == rendered_doc(
            keys_view(data@),
            limit,
            opt_str_bytes(*prefix),
            opt_str_bytes(*next_cursor),
        ),
{
    let mut out: Vec<u8> = Vec::new();
    push_literal(&mut out, "{\"data\":[");
    let ghost head = "{\"data\":[".spec_bytes();
    let n: usize = data.len();
    let mut i: usize = 0;
    while i < n
        invariant
            n == data@.len(),
            0 <= i <= n,
            out@ == head + joined_keys(keys_view(data@).take(i as int)),
        decreases n - i,
    {
        if i > 0 {
            out.push(44);
        }
        let k = &data[i];
        push_quoted(&mut out, k.bytes());
        proof {
            let kv = keys_view(data@);
            assert(kv.take(i + 1 as int).drop_last() =~= kv.take(i as int));
            assert(kv.take(i + 1 as int).last() == kv[i as int]);
            if i == 0 {
                assert(joined_keys(kv.take(1)) == quoted(kv[0]));
                assert(out@ =~= head + joined_keys(kv.take(i + 1 as int)));
            } else {
                assert(joined_keys(kv.take(i + 1 as int)) == joined_keys(kv.take(i as int))
                    + seq![44u8] + quoted(kv[i as int]));
                assert(out@ =~= head + joined_keys(kv.take(i + 1 as int)));
            }
        }
        i += 1;
    }
    proof {
        assert(keys_view(data@).take(n as int) =~= keys_view(data@));
    }
    push_literal(&mut out, "],\"meta\":{\"limit\":");
    push_dec(&mut out, limit);
    match prefix {
        Some(p) => {
            push_literal(&mut out, ",\"prefix\":");
            push_quoted(&mut out, p.as_str().as_bytes());
        },
        None => {},
    }
    match next_cursor {
        Some(c) => {
            push_literal(&mut out, ",\"next_cursor\":");
            push_quoted(&mut out, c.as_str().as_bytes());
        },
        None => {},
    }
    push_literal(&mut out, "}}");
    proof {
        assert(out@ =~= rendered_doc(
            keys_view(data@),
            limit,
            opt_str_bytes(*prefix),
            opt_str_bytes(*next_cursor),
        ));
    }
    out
}

} // verus!
