use vstd::prelude::*;

use crate::json::{
    decimal_digits, digit_char, escape_all, escape_char, optional_price_json, price_data_json,
    price_json, quote_json, quoted, quotes_json,
};
use crate::relay::{error_text, outcome_text, RelayError};
use crate::types::{AssetOptionalPrice, Price, PriceData};
use near_sdk::PromiseError;

verus! {

/// Two quotes name the same asset with the same price.
pub open spec fn same_quote(a: AssetOptionalPrice, b: AssetOptionalPrice) -> bool {
    a.asset_id@ == b.asset_id@ && a.price == b.price
}

/// Two quote lists agree entry by entry, in order.
pub open spec fn same_quotes(a: Seq<AssetOptionalPrice>, b: Seq<AssetOptionalPrice>) -> bool {
    a.len() == b.len() && forall|i: int| 0 <= i < a.len() ==> #[trigger] same_quote(a[i], b[i])
}

/// Two snapshots agree field for field.
pub open spec fn same_snapshot(a: PriceData, b: PriceData) -> bool {
    a.timestamp == b.timestamp && a.recency_duration_sec == b.recency_duration_sec
        && same_quotes(a.prices@, b.prices@)
}

proof fn lemma_same_quotes_same_text(a: Seq<AssetOptionalPrice>, b: Seq<AssetOptionalPrice>)
    requires
        same_quotes(a, b),
    ensures
        quotes_json(a) == quotes_json(b),
    decreases a.len(),
{
    if a.len() > 1 {
        assert(same_quote(a[a.len() - 1], b[b.len() - 1]));
        assert(same_quotes(a.drop_last(), b.drop_last())) by {
            assert forall|i: int| 0 <= i < a.drop_last().len() implies #[trigger] same_quote(
                a.drop_last()[i],
                b.drop_last()[i],
            ) by {
                assert(same_quote(a[i], b[i]));
            }
        }
        lemma_same_quotes_same_text(a.drop_last(), b.drop_last());
    } else if a.len() == 1 {
        assert(same_quote(a[0], b[0]));
    }
}

/// Encoding is a function of the snapshot's contents: two snapshots that agree
/// field for field, and so one snapshot encoded twice, give identical text.
pub proof fn lemma_encoding_deterministic(a: PriceData, b: PriceData)
    requires
        same_snapshot(a, b),
    ensures
        price_data_json(a) == price_data_json(b),
{
    lemma_same_quotes_same_text(a.prices@, b.prices@);
}


/// A decimal digit character.
pub open spec fn is_dec_char(c: char) -> bool {
    48 <= (c as u32) <= 57
}

proof fn lemma_strip(p: Seq<char>, x: Seq<char>, y: Seq<char>)
    requires
        p + x == p + y,
    ensures
        x == y,
{
    assert(x =~= (p + x).subrange(p.len() as int, (p + x).len() as int));
    assert(y =~= (p + y).subrange(p.len() as int, (p + y).len() as int));
}

proof fn lemma_digit_char_injective(d1: int, d2: int)
    requires
        0 <= d1 < 16,
        0 <= d2 < 16,
        digit_char(d1) == digit_char(d2),
    ensures
        d1 == d2,
{
}

proof fn lemma_digits_shape(n: nat)
    ensures
        decimal_digits(n).len() >= 1,
        forall|i: int| 0 <= i < decimal_digits(n).len() ==> is_dec_char(#[trigger] decimal_digits(n)[i]),
    decreases n,
{
    if n >= 10 {
        lemma_digits_shape(n / 10);
    }
}

proof fn lemma_digits_injective(m: nat, n: nat)
    requires
        decimal_digits(m) == decimal_digits(n),
    ensures
        m == n,
    decreases m,
{
    if m < 10 && n < 10 {
        assert(decimal_digits(m)[0] == digit_char(m as int));
        assert(decimal_digits(n)[0] == digit_char(n as int));
        lemma_digit_char_injective(m as int, n as int);
    } else if m < 10 {
        lemma_digits_shape(n / 10);
        assert(decimal_digits(n).len() >= 2);
        assert(decimal_digits(m).len() == 1);
    } else if n < 10 {
        lemma_digits_shape(m / 10);
        assert(decimal_digits(m).len() >= 2);
        assert(decimal_digits(n).len() == 1);
    } else {
        let a = decimal_digits(m);
        assert(a.drop_last() =~= decimal_digits(m / 10));
        assert(decimal_digits(n).drop_last() =~= decimal_digits(n / 10));
        lemma_digits_injective(m / 10, n / 10);
        assert(a.last() == digit_char((m % 10) as int));
        assert(decimal_digits(n).last() == digit_char((n % 10) as int));
        lemma_digit_char_injective((m % 10) as int, (n % 10) as int);
        assert(m == (m / 10) * 10 + m % 10);
        assert(n == (n / 10) * 10 + n % 10);
    }
}

/// Digits followed by a non-digit are read back whole.
proof fn lemma_digits_prefix(m: nat, n: nat, r1: Seq<char>, r2: Seq<char>)
    requires
        decimal_digits(m) + r1 == decimal_digits(n) + r2,
        r1.len() > 0,
        r2.len() > 0,
        !is_dec_char(r1[0]),
        !is_dec_char(r2[0]),
    ensures
        m == n,
        r1 == r2,
{
    let a = decimal_digits(m);
    let b = decimal_digits(n);
    lemma_digits_shape(m);
    lemma_digits_shape(n);
    if a.len() < b.len() {
        assert((a + r1)[a.len() as int] == r1[0]);
        assert((b + r2)[a.len() as int] == b[a.len() as int]);
    } else if b.len() < a.len() {
        assert((b + r2)[b.len() as int] == r2[0]);
        assert((a + r1)[b.len() as int] == a[b.len() as int]);
    } else {
        assert(a =~= (a + r1).subrange(0, a.len() as int));
        assert(b =~= (b + r2).subrange(0, b.len() as int));
        lemma_digits_injective(m, n);
        lemma_strip(a, r1, r2);
    }
}

proof fn lemma_escape_all_front(s: Seq<char>)
    requires
        s.len() > 0,
    ensures
        escape_all(s) == escape_char(s[0]) + escape_all(s.drop_first()),
    decreases s.len(),
{
    if s.len() == 1 {
        assert(s.drop_last() =~= Seq::<char>::empty());
        assert(s.drop_first() =~= Seq::<char>::empty());
        assert(escape_all(s) =~= escape_char(s[0]) + escape_all(s.drop_first()));
    } else {
        let t = s.drop_last();
        lemma_escape_all_front(t);
        assert(t.drop_first() =~= s.drop_first().drop_last());
        assert(s.drop_first().last() == s.last());
        assert(escape_all(s) =~= escape_char(s[0]) + escape_all(s.drop_first()));
    }
}

proof fn lemma_escape_char_shape(c: char)
    ensures
        escape_char(c).len() >= 1,
        escape_char(c)[0] != '"',
        escape_char(c)[0] == '\\' || (escape_char(c) == seq![c] && c != '\\' && c != '"'),
{
}

/// One escaped character is read back from the front of a text.
proof fn lemma_escape_char_prefix(c1: char, c2: char, x: Seq<char>, y: Seq<char>)
    requires
        escape_char(c1) + x == escape_char(c2) + y,
    ensures
        c1 == c2,
        x == y,
{
    let e1 = escape_char(c1);
    let e2 = escape_char(c2);
    lemma_escape_char_shape(c1);
    lemma_escape_char_shape(c2);
    assert((e1 + x)[0] == e1[0]);
    assert((e2 + y)[0] == e2[0]);
    if e1[0] == '\\' {
        assert(e1.len() >= 2 && e2.len() >= 2);
        assert((e1 + x)[1] == e1[1]);
        assert((e2 + y)[1] == e2[1]);
        if e1[1] == 'u' {
            assert((e1 + x)[4] == e1[4]);
            assert((e2 + y)[4] == e2[4]);
            assert((e1 + x)[5] == e1[5]);
            assert((e2 + y)[5] == e2[5]);
            lemma_digit_char_injective(((c1 as u32) / 16) as int, ((c2 as u32) / 16) as int);
            lemma_digit_char_injective(((c1 as u32) % 16) as int, ((c2 as u32) % 16) as int);
            assert(c1 as u32 == c2 as u32);
        }
    }
    assert(c1 == c2);
    lemma_strip(e1, x, y);
}

/// An escaped body followed by its closing quote is read back whole.
proof fn lemma_escaped_body_prefix(s1: Seq<char>, s2: Seq<char>, r1: Seq<char>, r2: Seq<char>)
    requires
        escape_all(s1) + (seq!['"'] + r1) == escape_all(s2) + (seq!['"'] + r2),
    ensures
        s1 == s2,
        r1 == r2,
    decreases s1.len(),
{
    if s1.len() == 0 && s2.len() == 0 {
        assert(escape_all(s1) =~= Seq::<char>::empty());
        assert(escape_all(s2) =~= Seq::<char>::empty());
        assert(s1 =~= s2);
        lemma_strip(seq!['"'], r1, r2);
    } else if s1.len() == 0 {
        lemma_escape_all_front(s2);
        lemma_escape_char_shape(s2[0]);
        let t = escape_all(s2) + (seq!['"'] + r2);
        assert(escape_all(s1) =~= Seq::<char>::empty());
        assert(t[0] == escape_char(s2[0])[0]);
    } else if s2.len() == 0 {
        lemma_escape_all_front(s1);
        lemma_escape_char_shape(s1[0]);
        let t = escape_all(s1) + (seq!['"'] + r1);
        assert(escape_all(s2) =~= Seq::<char>::empty());
        assert(t[0] == escape_char(s1[0])[0]);
    } else {
        lemma_escape_all_front(s1);
        lemma_escape_all_front(s2);
        let x = escape_all(s1.drop_first()) + (seq!['"'] + r1);
        let y = escape_all(s2.drop_first()) + (seq!['"'] + r2);
        assert(escape_all(s1) + (seq!['"'] + r1) =~= escape_char(s1[0]) + x);
        assert(escape_all(s2) + (seq!['"'] + r2) =~= escape_char(s2[0]) + y);
        lemma_escape_char_prefix(s1[0], s2[0], x, y);
        lemma_escaped_body_prefix(s1.drop_first(), s2.drop_first(), r1, r2);
        assert(s1 =~= seq![s1[0]] + s1.drop_first());
        assert(s2 =~= seq![s2[0]] + s2.drop_first());
    }
}

/// A JSON string literal is read back from the front of a text.
proof fn lemma_quoted_prefix(s1: Seq<char>, s2: Seq<char>, r1: Seq<char>, r2: Seq<char>)
    requires
        quoted(s1) + r1 == quoted(s2) + r2,
    ensures
        s1 == s2,
        r1 == r2,
{
    let q = seq!['"'];
    assert(quoted(s1) + r1 =~= q + (escape_all(s1) + (q + r1)));
    assert(quoted(s2) + r2 =~= q + (escape_all(s2) + (q + r2)));
    lemma_strip(q, escape_all(s1) + (q + r1), escape_all(s2) + (q + r2));
    lemma_escaped_body_prefix(s1, s2, r1, r2);
}


/// A price object is read back from the front of a text.
proof fn lemma_price_prefix(p1: Price, p2: Price, r1: Seq<char>, r2: Seq<char>)
    requires
        price_json(p1) + r1 == price_json(p2) + r2,
    ensures
        p1 == p2,
        r1 == r2,
{
    let l1 = "{\"multiplier\":\""@;
    let l2 = "\",\"decimals\":"@;
    let l3 = "}"@;
    reveal_strlit("{\"multiplier\":\"");
    reveal_strlit("\",\"decimals\":");
    reveal_strlit("}");
    let m1 = decimal_digits(p1.multiplier as nat);
    let m2 = decimal_digits(p2.multiplier as nat);
    let d1 = decimal_digits(p1.decimals as nat);
    let d2 = decimal_digits(p2.decimals as nat);
    let x1 = m1 + (l2 + (d1 + (l3 + r1)));
    let x2 = m2 + (l2 + (d2 + (l3 + r2)));
    assert(price_json(p1) + r1 =~= l1 + x1);
    assert(price_json(p2) + r2 =~= l1 + x2);
    lemma_strip(l1, x1, x2);
    assert((l2 + (d1 + (l3 + r1)))[0] == '"');
    assert((l2 + (d2 + (l3 + r2)))[0] == '"');
    lemma_digits_prefix(
        p1.multiplier as nat,
        p2.multiplier as nat,
        l2 + (d1 + (l3 + r1)),
        l2 + (d2 + (l3 + r2)),
    );
    lemma_strip(l2, d1 + (l3 + r1), d2 + (l3 + r2));
    assert((l3 + r1)[0] == '}');
    assert((l3 + r2)[0] == '}');
    lemma_digits_prefix(p1.decimals as nat, p2.decimals as nat, l3 + r1, l3 + r2);
    lemma_strip(l3, r1, r2);
}

/// A price or `null` is read back from the front of a text.
proof fn lemma_optional_price_prefix(o1: Option<Price>, o2: Option<Price>, r1: Seq<char>, r2: Seq<char>)
    requires
        optional_price_json(o1) + r1 == optional_price_json(o2) + r2,
    ensures
        o1 == o2,
        r1 == r2,
{
    reveal_strlit("{\"multiplier\":\"");
    reveal_strlit("null");
    let t1 = optional_price_json(o1) + r1;
    let t2 = optional_price_json(o2) + r2;
    match (o1, o2) {
        (Some(p1), Some(p2)) => {
            lemma_price_prefix(p1, p2, r1, r2);
        },
        (None, None) => {
            lemma_strip("null"@, r1, r2);
        },
        (Some(p1), None) => {
            assert(t1[0] == '{');
            assert(t2[0] == 'n');
        },
        (None, Some(p2)) => {
            assert(t1[0] == 'n');
            assert(t2[0] == '{');
        },
    }
}

/// A quote object is read back from the front of a text.
proof fn lemma_quote_prefix(a: AssetOptionalPrice, b: AssetOptionalPrice, r1: Seq<char>, r2: Seq<char>)
    requires
        quote_json(a) + r1 == quote_json(b) + r2,
    ensures
        same_quote(a, b),
        r1 == r2,
{
    let q1 = "{\"asset_id\":"@;
    let q2 = ",\"price\":"@;
    let q3 = "}"@;
    let y1 = q2 + (optional_price_json(a.price) + (q3 + r1));
    let y2 = q2 + (optional_price_json(b.price) + (q3 + r2));
    assert(quote_json(a) + r1 =~= q1 + (quoted(a.asset_id@) + y1));
    assert(quote_json(b) + r2 =~= q1 + (quoted(b.asset_id@) + y2));
    lemma_strip(q1, quoted(a.asset_id@) + y1, quoted(b.asset_id@) + y2);
    lemma_quoted_prefix(a.asset_id@, b.asset_id@, y1, y2);
    lemma_strip(q2, optional_price_json(a.price) + (q3 + r1), optional_price_json(b.price) + (q3 + r2));
    lemma_optional_price_prefix(a.price, b.price, q3 + r1, q3 + r2);
    lemma_strip(q3, r1, r2);
}

proof fn lemma_quotes_front(qs: Seq<AssetOptionalPrice>)
    requires
        qs.len() > 1,
    ensures
        quotes_json(qs) == quote_json(qs[0]) + ","@ + quotes_json(qs.drop_first()),
    decreases qs.len(),
{
    let t = qs.drop_last();
    assert(t.drop_first() =~= qs.drop_first().drop_last());
    assert(qs.drop_first().last() == qs.last());
    if qs.len() == 2 {
        assert(quotes_json(t) == quote_json(qs[0]));
        assert(qs.drop_first().len() == 1);
        assert(quotes_json(qs.drop_first()) == quote_json(qs[1]));
    } else {
        lemma_quotes_front(t);
        assert(quotes_json(qs) =~= quote_json(qs[0]) + ","@ + quotes_json(qs.drop_first()));
    }
}

/// A comma-separated list of quotes closed by `]` is read back whole.
proof fn lemma_quotes_prefix(
    a: Seq<AssetOptionalPrice>,
    b: Seq<AssetOptionalPrice>,
    r1: Seq<char>,
    r2: Seq<char>,
)
    requires
        quotes_json(a) + (seq![']'] + r1) == quotes_json(b) + (seq![']'] + r2),
    ensures
        same_quotes(a, b),
        r1 == r2,
    decreases a.len(),
{
    reveal_strlit("{\"asset_id\":");
    reveal_strlit(",");
    let c = ","@;
    let e1 = seq![']'] + r1;
    let e2 = seq![']'] + r2;
    if a.len() == 0 || b.len() == 0 {
        if a.len() == 0 && b.len() == 0 {
            lemma_strip(seq![']'], r1, r2);
        } else if a.len() == 0 {
            if b.len() > 1 {
                lemma_quotes_front(b);
            }
            assert((quotes_json(b) + e2)[0] == '{');
            assert((quotes_json(a) + e1)[0] == ']');
        } else {
            if a.len() > 1 {
                lemma_quotes_front(a);
            }
            assert((quotes_json(a) + e1)[0] == '{');
            assert((quotes_json(b) + e2)[0] == ']');
        }
    } else {
        let f1 = if a.len() > 1 { c + (quotes_json(a.drop_first()) + e1) } else { e1 };
        let f2 = if b.len() > 1 { c + (quotes_json(b.drop_first()) + e2) } else { e2 };
        if a.len() > 1 {
            lemma_quotes_front(a);
        }
        if b.len() > 1 {
            lemma_quotes_front(b);
        }
        assert(quotes_json(a) + e1 =~= quote_json(a[0]) + f1);
        assert(quotes_json(b) + e2 =~= quote_json(b[0]) + f2);
        lemma_quote_prefix(a[0], b[0], f1, f2);
        if a.len() > 1 && b.len() > 1 {
            lemma_strip(c, quotes_json(a.drop_first()) + e1, quotes_json(b.drop_first()) + e2);
            lemma_quotes_prefix(a.drop_first(), b.drop_first(), r1, r2);
            assert forall|i: int| 0 <= i < a.len() implies #[trigger] same_quote(a[i], b[i]) by {
                if i > 0 {
                    assert(same_quote(a.drop_first()[i - 1], b.drop_first()[i - 1]));
                }
            }
        } else if a.len() > 1 {
            assert(f1[0] == ',');
            assert(f2[0] == ']');
        } else if b.len() > 1 {
            assert(f2[0] == ',');
            assert(f1[0] == ']');
        } else {
            lemma_strip(seq![']'], r1, r2);
        }
    }
}

/// The canonical text determines the snapshot: two snapshots with the same
/// text agree field for field, quotes in the same order, every timestamp and
/// mantissa digit for digit. So reading a text back gives the snapshot it was
/// made from.
pub proof fn lemma_encoding_injective(a: PriceData, b: PriceData)
    requires
        price_data_json(a) == price_data_json(b),
    ensures
        same_snapshot(a, b),
{
    let t1 = "{\"timestamp\":\""@;
    let t2 = "\",\"recency_duration_sec\":"@;
    let t3 = ",\"prices\":["@;
    let t4 = "]}"@;
    reveal_strlit("\",\"recency_duration_sec\":");
    reveal_strlit(",\"prices\":[");
    reveal_strlit("]}");
    let tail = seq!['}'];
    assert(t4 =~= seq![']'] + tail);
    let ta = decimal_digits(a.timestamp as nat);
    let tb = decimal_digits(b.timestamp as nat);
    let ra = decimal_digits(a.recency_duration_sec as nat);
    let rb = decimal_digits(b.recency_duration_sec as nat);
    let qa = quotes_json(a.prices@) + (seq![']'] + tail);
    let qb = quotes_json(b.prices@) + (seq![']'] + tail);
    assert(price_data_json(a) =~= t1 + (ta + (t2 + (ra + (t3 + qa)))));
    assert(price_data_json(b) =~= t1 + (tb + (t2 + (rb + (t3 + qb)))));
    lemma_strip(t1, ta + (t2 + (ra + (t3 + qa))), tb + (t2 + (rb + (t3 + qb))));
    assert((t2 + (ra + (t3 + qa)))[0] == '"');
    assert((t2 + (rb + (t3 + qb)))[0] == '"');
    lemma_digits_prefix(
        a.timestamp as nat,
        b.timestamp as nat,
        t2 + (ra + (t3 + qa)),
        t2 + (rb + (t3 + qb)),
    );
    lemma_strip(t2, ra + (t3 + qa), rb + (t3 + qb));
    assert((t3 + qa)[0] == ',');
    assert((t3 + qb)[0] == ',');
    lemma_digits_prefix(a.recency_duration_sec as nat, b.recency_duration_sec as nat, t3 + qa, t3 + qb);
    lemma_strip(t3, qa, qb);
    lemma_quotes_prefix(a.prices@, b.prices@, tail, tail);
}


/// What the continuation returns for a received snapshot can be told apart
/// from both sentinels, and reads back as that snapshot: two snapshots that
/// give the same text agree field for field.
pub proof fn lemma_success_text_reads_back(a: PriceData, b: PriceData, e: RelayError)
    ensures
        outcome_text(Ok::<PriceData, PromiseError>(a)) == outcome_text(Ok::<PriceData, PromiseError>(b))
            ==> same_snapshot(a, b),
        outcome_text(Ok::<PriceData, PromiseError>(a)) != error_text(e),
{
    if price_data_json(a) == price_data_json(b) {
        lemma_encoding_injective(a, b);
    }
    reveal_strlit("{\"timestamp\":\"");
    reveal_strlit("Error fetching price data");
    reveal_strlit("Error serializing price data");
    let t = price_data_json(a);
    assert(t[0] == '{');
    assert(error_text(e)[0] == 'E');
}

} // verus!
