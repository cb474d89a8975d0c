use vstd::prelude::*;

use crate::types::{AssetOptionalPrice, Price, PriceData};

verus! {

/// The character for a digit below sixteen (lower-case for ten and up).
pub open spec fn digit_char(d: int) -> char {
    if d == 0 { '0' }
    else if d == 1 { '1' }
    else if d == 2 { '2' }
    else if d == 3 { '3' }
    else if d == 4 { '4' }
    else if d == 5 { '5' }
    else if d == 6 { '6' }
    else if d == 7 { '7' }
    else if d == 8 { '8' }
    else if d == 9 { '9' }
    else if d == 10 { 'a' }
    else if d == 11 { 'b' }
    else if d == 12 { 'c' }
    else if d == 13 { 'd' }
    else if d == 14 { 'e' }
    else { 'f' }
}

/// The decimal digits of `n`, most significant first, without leading zeros.
pub open spec fn decimal_digits(n: nat) -> Seq<char>
    decreases n,
{
    if n < 10 {
        seq![digit_char(n as int)]
    } else {
        decimal_digits(n / 10).push(digit_char((n % 10) as int))
    }
}

fn push_digit(out: &mut String, d: u32)
    requires
        d < 16,
    ensures
        final(out)@ == old(out)@.push(digit_char(d as int)),
{
    let lit: &str = if d == 0 { "0" }
        else if d == 1 { "1" }
        else if d == 2 { "2" }
        else if d == 3 { "3" }
        else if d == 4 { "4" }
        else if d == 5 { "5" }
        else if d == 6 { "6" }
        else if d == 7 { "7" }
        else if d == 8 { "8" }
        else if d == 9 { "9" }
        else if d == 10 { "a" }
        else if d == 11 { "b" }
        else if d == 12 { "c" }
        else if d == 13 { "d" }
        else if d == 14 { "e" }
        else { "f" };
    proof {
        reveal_strlit("0"); reveal_strlit("1"); reveal_strlit("2"); reveal_strlit("3");
        reveal_strlit("4"); reveal_strlit("5"); reveal_strlit("6"); reveal_strlit("7");
        reveal_strlit("8"); reveal_strlit("9"); reveal_strlit("a"); reveal_strlit("b");
        reveal_strlit("c"); reveal_strlit("d"); reveal_strlit("e"); reveal_strlit("f");
    }
    assert(lit@ =~= seq![digit_char(d as int)]);
    out.append(lit);
}

/// Appends the decimal digits of `n`.
pub fn push_decimal(out: &mut String, n: u128)
    ensures
        final(out)@ == old(out)@ + decimal_digits(n as nat),
    decreases n,
{
    if n >= 10 {
        push_decimal(out, n / 10);
    }
    push_digit(out, (n % 10) as u32);
    assert(final(out)@ =~= old(out)@ + decimal_digits(n as nat));
}


/// How one character of a string stands inside a JSON string literal:
/// quote and backslash get a backslash, the five common controls their short
/// escapes, other controls `\u00XX` in lower-case hex, all else itself.
pub open spec fn escape_char(c: char) -> Seq<char> {
    if c == '"' {
        seq!['\\', '"']
    } else if c == '\\' {
        seq!['\\', '\\']
    } else if c == '\x08' {
        seq!['\\', 'b']
    } else if c == '\t' {
        seq!['\\', 't']
    } else if c == '\n' {
        seq!['\\', 'n']
    } else if c == '\x0c' {
        seq!['\\', 'f']
    } else if c == '\r' {
        seq!['\\', 'r']
    } else if (c as u32) < 0x20 {
        seq!['\\', 'u', '0', '0', digit_char(((c as u32) / 16) as int), digit_char(((c as u32) % 16) as int)]
    } else {
        seq![c]
    }
}

/// The escaped body of a string, character by character.
pub open spec fn escape_all(s: Seq<char>) -> Seq<char>
    decreases s.len(),
{
    if s.len() == 0 {
        Seq::empty()
    } else {
        escape_all(s.drop_last()) + escape_char(s.last())
    }
}

/// A JSON string literal holding `s`.
pub open spec fn quoted(s: Seq<char>) -> Seq<char> {
    seq!['"'] + escape_all(s) + seq!['"']
}

/// Appends a literal piece of text.
fn push_lit(out: &mut String, lit: &str)
    ensures
        final(out)@ == old(out)@ + lit@,
{
    out.append(lit);
}

fn push_escaped_char(out: &mut String, s: &str, i: usize)
    requires
        i < s@.len() <= usize::MAX,
    ensures
        final(out)@ == old(out)@ + escape_char(s@[i as int]),
{
    let c = s.get_char(i);
    if c == '"' {
        push_lit(out, "\\\"");
        proof { reveal_strlit("\\\""); }
        assert("\\\""@ =~= seq!['\\', '"']);
    } else if c == '\\' {
        push_lit(out, "\\\\");
        proof { reveal_strlit("\\\\"); }
        assert("\\\\"@ =~= seq!['\\', '\\']);
    } else if c == '\x08' {
        push_lit(out, "\\b");
        proof { reveal_strlit("\\b"); }
        assert("\\b"@ =~= seq!['\\', 'b']);
    } else if c == '\t' {
        push_lit(out, "\\t");
        proof { reveal_strlit("\\t"); }
        assert("\\t"@ =~= seq!['\\', 't']);
    } else if c == '\n' {
        push_lit(out, "\\n");
        proof { reveal_strlit("\\n"); }
        assert("\\n"@ =~= seq!['\\', 'n']);
    } else if c == '\x0c' {
        push_lit(out, "\\f");
        proof { reveal_strlit("\\f"); }
        assert("\\f"@ =~= seq!['\\', 'f']);
    } else if c == '\r' {
        push_lit(out, "\\r");
        proof { reveal_strlit("\\r"); }
        assert("\\r"@ =~= seq!['\\', 'r']);
    } else if (c as u32) < 0x20 {
        push_lit(out, "\\u00");
        proof { reveal_strlit("\\u00"); }
        assert("\\u00"@ =~= seq!['\\', 'u', '0', '0']);
        push_digit(out, (c as u32) / 16);
        push_digit(out, (c as u32) % 16);
        assert(out@ =~= old(out)@ + escape_char(c));
    } else {
        let one = s.substring_char(i, i + 1);
        push_lit(out, one);
        assert(one@ =~= seq![c]);
    }
}

/// Appends `s` as a JSON string literal, quotes included.
pub fn push_quoted(out: &mut String, s: &str)
    ensures
        final(out)@ == old(out)@ + quoted(s@),
{
    push_lit(out, "\"");
    proof { reveal_strlit("\""); }
    assert("\""@ =~= seq!['"']);
    let n = s.unicode_len();
    let mut i: usize = 0;
    while i < n
        invariant
            n == s@.len(),
            i <= n,
            out@ == old(out)@ + seq!['"'] + escape_all(s@.subrange(0, i as int)),
        decreases n - i,
    {
        proof {
            assert(s@.subrange(0, i + 1).drop_last() =~= s@.subrange(0, i as int));
        }
        push_escaped_char(out, s, i);
        i = i + 1;
    }
    assert(s@.subrange(0, n as int) =~= s@);
    push_lit(out, "\"");
    assert(out@ =~= old(out)@ + quoted(s@));
}


/// A price as an object; the mantissa is written as a decimal string so
/// that no reader loses precision.
pub open spec fn price_json(p: Price) -> Seq<char> {
    "{\"multiplier\":\""@ + decimal_digits(p.multiplier as nat) + "\",\"decimals\":"@
        + decimal_digits(p.decimals as nat) + "}"@
}

/// A price, or `null` where there is none.
pub open spec fn optional_price_json(p: Option<Price>) -> Seq<char> {
    match p {
        Some(q) => price_json(q),
        None => "null"@,
    }
}

/// One quote as an object.
pub open spec fn quote_json(a: AssetOptionalPrice) -> Seq<char> {
    "{\"asset_id\":"@ + quoted(a.asset_id@) + ",\"price\":"@ + optional_price_json(a.price)
        + "}"@
}

/// The quotes in order, separated by commas.
pub open spec fn quotes_json(qs: Seq<AssetOptionalPrice>) -> Seq<char>
    decreases qs.len(),
{
    if qs.len() == 0 {
        Seq::empty()
    } else if qs.len() == 1 {
        quote_json(qs[0])
    } else {
        quotes_json(qs.drop_last()) + ","@ + quote_json(qs.last())
    }
}

/// The canonical text of a snapshot: fields in a fixed order, no whitespace,
/// the timestamp as a decimal string, the quotes as an array in their order.
pub open spec fn price_data_json(d: PriceData) -> Seq<char> {
    "{\"timestamp\":\""@ + decimal_digits(d.timestamp as nat) + "\",\"recency_duration_sec\":"@
        + decimal_digits(d.recency_duration_sec as nat) + ",\"prices\":["@ + quotes_json(d.prices@)
        + "]}"@
}

/// Appends the text of a price.
pub fn push_price(out: &mut String, p: &Price)
    ensures
        final(out)@ == old(out)@ + price_json(*p),
{
    push_lit(out, "{\"multiplier\":\"");
    push_decimal(out, p.multiplier);
    push_lit(out, "\",\"decimals\":");
    push_decimal(out, p.decimals as u128);
    push_lit(out, "}");
    assert(out@ =~= old(out)@ + price_json(*p));
}

/// Appends the text of one quote.
pub fn push_quote(out: &mut String, a: &AssetOptionalPrice)
    ensures
        final(out)@ == old(out)@ + quote_json(*a),
{
    push_lit(out, "{\"asset_id\":");
    push_quoted(out, a.asset_id.as_str());
    push_lit(out, ",\"price\":");
    let ghost mid = out@;
    match &a.price {
        Some(p) => push_price(out, p),
        None => push_lit(out, "null"),
    }
    assert(out@ == mid + optional_price_json(a.price));
    push_lit(out, "}");
    assert(out@ =~= old(out)@ + quote_json(*a));
}

/// Appends the quotes in order, separated by commas.
pub fn push_quotes(out: &mut String, qs: &Vec<AssetOptionalPrice>)
    ensures
        final(out)@ == old(out)@ + quotes_json(qs@),
{
    let mut i: usize = 0;
    while i < qs.len()
        invariant
            i <= qs@.len(),
            out@ == old(out)@ + quotes_json(qs@.subrange(0, i as int)),
        decreases qs@.len() - i,
    {
        if i > 0 {
            push_lit(out, ",");
        }
        push_quote(out, &qs[i]);
        proof {
            let next = qs@.subrange(0, i + 1);
            assert(next.drop_last() =~= qs@.subrange(0, i as int));
            if i == 0 {
                assert(quotes_json(qs@.subrange(0, 0)) =~= Seq::empty());
                assert(out@ =~= old(out)@ + quotes_json(next));
            } else {
                assert(out@ =~= old(out)@ + quotes_json(next));
            }
        }
        i = i + 1;
    }
    assert(qs@.subrange(0, qs@.len() as int) =~= qs@);
}

/// The canonical text of a snapshot.
pub fn encode_price_data(d: &PriceData) -> (r: String)
    ensures
        r@ == price_data_json(*d),
{
    let mut out = String::new();
    push_lit(&mut out, "{\"timestamp\":\"");
    push_decimal(&mut out, d.timestamp as u128);
    push_lit(&mut out, "\",\"recency_duration_sec\":");
    push_decimal(&mut out, d.recency_duration_sec as u128);
    push_lit(&mut out, ",\"prices\":[");
    push_quotes(&mut out, &d.prices);
    push_lit(&mut out, "]}");
    assert(out@ =~= price_data_json(*d));
    out
}


/// Strings as JSON string literals, in order, separated by commas.
pub open spec fn strings_json(ss: Seq<String>) -> Seq<char>
    decreases ss.len(),
{
    if ss.len() == 0 {
        Seq::empty()
    } else if ss.len() == 1 {
        quoted(ss[0]@)
    } else {
        strings_json(ss.drop_last()) + ","@ + quoted(ss.last()@)
    }
}

/// The argument object of a price query: `null` asks for every asset the
/// oracle knows, an array for the listed ones in their order.
pub open spec fn asset_ids_args_json(ids: Option<Vec<String>>) -> Seq<char> {
    match ids {
        None => "{\"asset_ids\":null}"@,
        Some(v) => "{\"asset_ids\":["@ + strings_json(v@) + "]}"@,
    }
}

/// Appends the strings as JSON string literals separated by commas.
pub fn push_strings(out: &mut String, ss: &Vec<String>)
    ensures
        final(out)@ == old(out)@ + strings_json(ss@),
{
    let mut i: usize = 0;
    while i < ss.len()
        invariant
            i <= ss@.len(),
            out@ == old(out)@ + strings_json(ss@.subrange(0, i as int)),
        decreases ss@.len() - i,
    {
        if i > 0 {
            push_lit(out, ",");
        }
        push_quoted(out, ss[i].as_str());
        proof {
            let next = ss@.subrange(0, i + 1);
            assert(next.drop_last() =~= ss@.subrange(0, i as int));
            if i == 0 {
                assert(strings_json(ss@.subrange(0, 0)) =~= Seq::empty());
            }
            assert(out@ =~= old(out)@ + strings_json(next));
        }
        i = i + 1;
    }
    assert(ss@.subrange(0, ss@.len() as int) =~= ss@);
}

/// The argument text of a price query.
pub fn encode_asset_ids_args(ids: &Option<Vec<String>>) -> (r: String)
    ensures
        r@ == asset_ids_args_json(*ids),
{
    let mut out = String::new();
    match ids {
        None => push_lit(&mut out, "{\"asset_ids\":null}"),
        Some(v) => {
            push_lit(&mut out, "{\"asset_ids\":[");
            push_strings(&mut out, v);
            push_lit(&mut out, "]}");
        },
    }
    assert(out@ =~= asset_ids_args_json(*ids));
    out
}

} // verus!
