//! The limiter's persistence record: a canonical JSON text mirroring the
//! limiter state, an encoder producing it, a parser reading it back, and the
//! proof that the two are inverse.

use crate::bugsnag_impl::{append_severity_json, severity_json, Severity};
use crate::jsontext::{append_comma_join, append_dec_i64, append_dec_u64, append_json_bool,
    comma_join, dec_i64, dec_u64, json_bool};
use crate::rate_limit::{OptionsModel, RateLimit, RateLimitModel, RateLimitNotificationOptions,
    SendLimit};
use vstd::prelude::*;
use vstd::string::StrSliceExecFns;
use vstd::string::StringExecFns;

verus! {

// ---------------------------------------------------------------------------
// String escaping for the persistence record: only the quote and the
// backslash are escaped; every other character stands for itself.
// ---------------------------------------------------------------------------

/// How one character appears inside a persisted string literal.
pub open spec fn p_esc_char(c: char) -> Seq<char> {
    if c == '"' || c == '\\' {
        seq!['\\', c]
    } else {
        seq![c]
    }
}

/// The body of a persisted string literal holding `s`.
pub open spec fn p_escape(s: Seq<char>) -> Seq<char>
    decreases s.len(),
{
    if s.len() == 0 {
        Seq::empty()
    } else {
        p_esc_char(s[0]) + p_escape(s.drop_first())
    }
}

/// A complete persisted string literal.
pub open spec fn p_str(s: Seq<char>) -> Seq<char> {
    seq!['"'] + p_escape(s) + seq!['"']
}

/// Peeling one leading character off a string prepends its escape.
pub proof fn lemma_p_escape_push(s: Seq<char>, c: char)
    ensures
        p_escape(s.push(c)) == p_escape(s) + p_esc_char(c),
    decreases s.len(),
{
    let t = s.push(c);
    assert(t.len() == s.len() + 1);
    assert(t[0] == if s.len() == 0 {
        c
    } else {
        s[0]
    });
    if s.len() == 0 {
        assert(t.drop_first() =~= Seq::<char>::empty());
        assert(p_escape(t) == p_esc_char(c) + p_escape(Seq::<char>::empty()));
        assert(p_esc_char(c) + Seq::<char>::empty() =~= p_esc_char(c));
        assert(p_escape(s) + p_esc_char(c) =~= p_esc_char(c));
    } else {
        assert(t.drop_first() =~= s.drop_first().push(c));
        lemma_p_escape_push(s.drop_first(), c);
        assert(p_escape(t) == p_esc_char(s[0]) + p_escape(s.drop_first().push(c)));
        assert(p_escape(t) == p_esc_char(s[0]) + (p_escape(s.drop_first()) + p_esc_char(c)));
        assert(p_escape(s) == p_esc_char(s[0]) + p_escape(s.drop_first()));
        assert(p_esc_char(s[0]) + (p_escape(s.drop_first()) + p_esc_char(c)) =~= (p_esc_char(s[0])
            + p_escape(s.drop_first())) + p_esc_char(c));
    }
}

/// Appends the escaped body of a persisted string literal holding `s`.
fn append_p_escaped(out: &mut String, s: &str)
    ensures
        final(out)@ == old(out)@ + p_escape(s@),
{
    let len = s.unicode_len();
    let mut i: usize = 0;
    while i < len
        invariant
            len == s@.len(),
            i <= len,
            out@ == old(out)@ + p_escape(s@.take(i as int)),
        decreases len - i,
    {
        let c = s.get_char(i);
        if c == '"' || c == '\\' {
            crate::jsontext::push_char(out, '\\');
            crate::jsontext::push_char(out, c);
        } else {
            crate::jsontext::push_char(out, c);
        }
        proof {
            lemma_p_escape_push(s@.take(i as int), s@[i as int]);
            assert(s@.take(i as int).push(s@[i as int]) =~= s@.take(i + 1));
            assert(out@ =~= old(out)@ + p_escape(s@.take(i + 1)));
        }
        i = i + 1;
    }
    proof {
        assert(s@.take(len as int) =~= s@);
    }
}

/// Appends a complete persisted string literal holding `s`.
pub fn append_p_str(out: &mut String, s: &str)
    ensures
        final(out)@ == old(out)@ + p_str(s@),
{
    crate::jsontext::push_char(out, '"');
    append_p_escaped(out, s);
    crate::jsontext::push_char(out, '"');
    proof {
        assert(final(out)@ =~= old(out)@ + p_str(s@));
    }
}

// ---------------------------------------------------------------------------
// Parsing primitives: a literal at a position, a string literal, a number.
// ---------------------------------------------------------------------------

/// Whether the text `lit` stands in `s` at position `i`.
pub open spec fn lit_at(s: Seq<char>, i: int, lit: Seq<char>) -> bool {
    0 <= i && i + lit.len() <= s.len() && s.subrange(i, i + lit.len()) == lit
}

/// Whether `c` is a decimal digit.
pub open spec fn is_digit(c: char) -> bool {
    c == '0' || c == '1' || c == '2' || c == '3' || c == '4' || c == '5' || c == '6' || c == '7'
        || c == '8' || c == '9'
}

/// The value of a decimal digit.
pub open spec fn digit_val(c: char) -> nat {
    if c == '0' {
        0
    } else if c == '1' {
        1
    } else if c == '2' {
        2
    } else if c == '3' {
        3
    } else if c == '4' {
        4
    } else if c == '5' {
        5
    } else if c == '6' {
        6
    } else if c == '7' {
        7
    } else if c == '8' {
        8
    } else {
        9
    }
}

/// The position of the first character at or after `i` that is not a digit.
pub open spec fn digits_end(s: Seq<char>, i: int) -> int
    decreases s.len() - i,
{
    if 0 <= i < s.len() && is_digit(s[i]) {
        digits_end(s, i + 1)
    } else {
        i
    }
}

/// The value of a run of digits, most significant first, folded onto an
/// accumulator.
pub open spec fn seq_digits_val(ds: Seq<char>, acc: nat) -> nat
    decreases ds.len(),
{
    if ds.len() == 0 {
        acc
    } else {
        seq_digits_val(ds.drop_first(), acc * 10 + digit_val(ds[0]))
    }
}

/// A parsed unsigned number: the maximal digit run at `i`, when there is one
/// and its value fits.
pub open spec fn parse_u64_spec(s: Seq<char>, i: int) -> Option<(u64, int)> {
    if 0 <= i < s.len() && is_digit(s[i]) {
        let e = digits_end(s, i);
        let v = seq_digits_val(s.subrange(i, e), 0);
        if v <= u64::MAX {
            Some(((v as u64), e))
        } else {
            None
        }
    } else {
        None
    }
}

/// A parsed signed number: an optional minus sign, then an unsigned number,
/// when the signed value fits.
pub open spec fn parse_i64_spec(s: Seq<char>, i: int) -> Option<(i64, int)> {
    if 0 <= i < s.len() && s[i] == '-' {
        match parse_u64_spec(s, i + 1) {
            Some((v, e)) => if v <= i64::MAX as u64 + 1 {
                Some(((-(v as int)) as i64, e))
            } else {
                None
            },
            None => None,
        }
    } else {
        match parse_u64_spec(s, i) {
            Some((v, e)) => if v <= i64::MAX as u64 {
                Some(((v as int) as i64, e))
            } else {
                None
            },
            None => None,
        }
    }
}

/// A parsed string literal body, starting after the opening quote: the
/// characters up to the closing quote, a backslash standing for the character
/// after it.
pub open spec fn parse_string_spec(s: Seq<char>, i: int) -> Option<(Seq<char>, int)>
    decreases s.len() - i,
{
    if i < 0 || i >= s.len() {
        None
    } else if s[i] == '"' {
        Some((Seq::empty(), i + 1))
    } else if s[i] == '\\' {
        if i + 1 >= s.len() {
            None
        } else {
            match parse_string_spec(s, i + 2) {
                Some((v, e)) => Some((seq![s[i + 1]] + v, e)),
                None => None,
            }
        }
    } else {
        match parse_string_spec(s, i + 1) {
            Some((v, e)) => Some((seq![s[i]] + v, e)),
            None => None,
        }
    }
}

/// Whether the text `lit` stands in `s` at position `i`, decided by
/// comparing the characters.
pub fn match_lit(s: &str, i: usize, lit: &str) -> (r: bool)
    ensures
        r == lit_at(s@, i as int, lit@),
{
    let slen = s.unicode_len();
    let llen = lit.unicode_len();
    if i > slen || llen > slen - i {
        return false;
    }
    let mut j: usize = 0;
    while j < llen
        invariant
            j <= llen,
            llen == lit@.len(),
            slen == s@.len(),
            i + llen <= slen,
            forall|k: int| 0 <= k < j ==> s@[i + k] == lit@[k],
        decreases llen - j,
    {
        if s.get_char(i + j) != lit.get_char(j) {
            proof {
                assert(s@.subrange(i as int, i + llen)[j as int] != lit@[j as int]);
            }
            return false;
        }
        j = j + 1;
    }
    proof {
        assert(s@.subrange(i as int, i + llen) =~= lit@);
    }
    true
}

/// The digit value of a decimal digit character.
fn digit_val_exec(c: char) -> (v: u64)
    requires
        is_digit(c),
    ensures
        v == digit_val(c),
{
    if c == '0' {
        0
    } else if c == '1' {
        1
    } else if c == '2' {
        2
    } else if c == '3' {
        3
    } else if c == '4' {
        4
    } else if c == '5' {
        5
    } else if c == '6' {
        6
    } else if c == '7' {
        7
    } else if c == '8' {
        8
    } else {
        9
    }
}

/// Whether a character is a decimal digit.
fn is_digit_exec(c: char) -> (r: bool)
    ensures
        r == is_digit(c),
{
    c == '0' || c == '1' || c == '2' || c == '3' || c == '4' || c == '5' || c == '6' || c == '7'
        || c == '8' || c == '9'
}

/// Folding one more digit onto an accumulated value.
proof fn lemma_seq_digits_val_push(ds: Seq<char>, c: char, acc: nat)
    ensures
        seq_digits_val(ds.push(c), acc) == seq_digits_val(ds, acc) * 10 + digit_val(c),
    decreases ds.len(),
{
    let t = ds.push(c);
    assert(t.len() == ds.len() + 1);
    assert(t[0] == if ds.len() == 0 {
        c
    } else {
        ds[0]
    });
    if ds.len() == 0 {
        assert(t.drop_first() =~= Seq::<char>::empty());
        assert(seq_digits_val(Seq::<char>::empty(), acc * 10 + digit_val(c)) == acc * 10
            + digit_val(c));
        assert(seq_digits_val(t, acc) == acc * 10 + digit_val(c));
    } else {
        assert(t.drop_first() =~= ds.drop_first().push(c));
        lemma_seq_digits_val_push(ds.drop_first(), c, acc * 10 + digit_val(ds[0]));
        assert(seq_digits_val(t, acc) == seq_digits_val(
            ds.drop_first().push(c),
            acc * 10 + digit_val(ds[0]),
        ));
        assert(seq_digits_val(t, acc) == seq_digits_val(ds.drop_first(), acc * 10 + digit_val(ds[0]))
            * 10 + digit_val(c));
    }
}

/// The folded value never falls below the accumulator it started from.
proof fn lemma_seq_digits_val_ge_acc(ds: Seq<char>, acc: nat)
    ensures
        seq_digits_val(ds, acc) >= acc,
    decreases ds.len(),
{
    if ds.len() > 0 {
        lemma_seq_digits_val_ge_acc(ds.drop_first(), acc * 10 + digit_val(ds[0]));
    }
}

/// Parses the maximal digit run at `i`.
pub fn parse_u64(s: &str, i: usize) -> (r: Option<(u64, usize)>)
    ensures
        match r {
            Some((v, j)) => parse_u64_spec(s@, i as int) == Some((v, j as int)),
            None => parse_u64_spec(s@, i as int) is None,
        },
{
    let slen = s.unicode_len();
    if i >= slen || !is_digit_exec(s.get_char(i)) {
        return None;
    }
    let mut j: usize = i;
    let mut acc: u64 = 0;
    let mut overflow: bool = false;
    while j < slen && is_digit_exec(s.get_char(j))
        invariant
            slen == s@.len(),
            i <= j <= slen,
            digits_end(s@, i as int) == digits_end(s@, j as int),
            !overflow ==> acc == seq_digits_val(s@.subrange(i as int, j as int), 0),
            overflow ==> seq_digits_val(s@.subrange(i as int, j as int), 0) > u64::MAX,
        decreases slen - j,
    {
        let c = s.get_char(j);
        let d = digit_val_exec(c);
        proof {
            lemma_seq_digits_val_push(s@.subrange(i as int, j as int), s@[j as int], 0);
            assert(s@.subrange(i as int, j as int).push(s@[j as int]) =~= s@.subrange(
                i as int,
                j + 1,
            ));
        }
        if overflow || acc > (u64::MAX - d) / 10 {
            proof {
                if !overflow {
                    assert(acc * 10 + d > u64::MAX) by (nonlinear_arith)
                        requires
                            acc > (u64::MAX - d) / 10,
                            d < 10,
                    ;
                }
            }
            overflow = true;
        } else {
            proof {
                assert(acc * 10 + d <= u64::MAX) by (nonlinear_arith)
                    requires
                        acc <= (u64::MAX - d) / 10,
                        d < 10,
                ;
            }
            acc = acc * 10 + d;
        }
        j = j + 1;
    }
    proof {
        assert(digits_end(s@, j as int) == j);
        if overflow {
            assert(parse_u64_spec(s@, i as int) is None);
        }
    }
    if overflow {
        None
    } else {
        Some((acc, j))
    }
}

/// Parses a signed number at `i`.
pub fn parse_i64(s: &str, i: usize) -> (r: Option<(i64, usize)>)
    ensures
        match r {
            Some((v, j)) => parse_i64_spec(s@, i as int) == Some((v, j as int)),
            None => parse_i64_spec(s@, i as int) is None,
        },
{
    let slen = s.unicode_len();
    if i < slen && s.get_char(i) == '-' {
        match parse_u64(s, i + 1) {
            Some((v, j)) => {
                if v <= 9223372036854775808u64 {
                    let neg: i64 = if v == 9223372036854775808u64 {
                        i64::MIN
                    } else {
                        -(v as i64)
                    };
                    Some((neg, j))
                } else {
                    None
                }
            },
            None => None,
        }
    } else {
        match parse_u64(s, i) {
            Some((v, j)) => {
                if v <= i64::MAX as u64 {
                    Some((v as i64, j))
                } else {
                    None
                }
            },
            None => None,
        }
    }
}

/// Parses a string literal body starting after the opening quote.
pub fn parse_string(s: &str, i: usize) -> (r: Option<(String, usize)>)
    ensures
        match r {
            Some((v, j)) => parse_string_spec(s@, i as int) == Some((v@, j as int)),
            None => parse_string_spec(s@, i as int) is None,
        },
{
    let slen = s.unicode_len();
    let mut cur: usize = i;
    let mut acc = String::new();
    loop
        invariant
            slen == s@.len(),
            i <= cur,
            match parse_string_spec(s@, cur as int) {
                Some((v, e)) => parse_string_spec(s@, i as int) == Some((acc@ + v, e)),
                None => parse_string_spec(s@, i as int) is None,
            },
        decreases slen - cur,
    {
        if cur >= slen {
            return None;
        }
        let c = s.get_char(cur);
        if c == '"' {
            proof {
                assert(acc@ + Seq::<char>::empty() =~= acc@);
            }
            return Some((acc, cur + 1));
        } else if c == '\\' {
            if cur + 1 >= slen {
                return None;
            }
            let d = s.get_char(cur + 1);
            proof {
                if parse_string_spec(s@, cur + 2) is Some {
                    let (v, e) = parse_string_spec(s@, cur + 2)->Some_0;
                    assert(acc@ + (seq![d] + v) =~= (acc@ + seq![d]) + v);
                }
            }
            crate::jsontext::push_char(&mut acc, d);
            cur = cur + 2;
        } else {
            proof {
                if parse_string_spec(s@, cur + 1) is Some {
                    let (v, e) = parse_string_spec(s@, cur + 1)->Some_0;
                    assert(acc@ + (seq![c] + v) =~= (acc@ + seq![c]) + v);
                }
            }
            crate::jsontext::push_char(&mut acc, c);
            cur = cur + 1;
        }
    }
}

// ---------------------------------------------------------------------------
// The record's grammar: encoders.
// ---------------------------------------------------------------------------

/// The encoded form of one configured window.
pub open spec fn enc_limit(l: SendLimit) -> Seq<char> {
    "{\"duration\":"@ + dec_u64(l.duration_ms as nat) + ",\"limit\":"@ + dec_u64(l.limit as nat)
        + seq!['}']
}

/// The encoded form of the configured windows.
pub open spec fn enc_limits(ls: Seq<SendLimit>) -> Seq<char> {
    seq!['['] + comma_join(ls.map_values(|l: SendLimit| enc_limit(l))) + seq![']']
}

/// The encoded form of the send history.
pub open spec fn enc_times(ts: Seq<i64>) -> Seq<char> {
    seq!['['] + comma_join(ts.map_values(|t: i64| dec_i64(t as int))) + seq![']']
}

/// The encoded form of the notice options.
pub open spec fn enc_options(o: Option<OptionsModel>) -> Seq<char> {
    match o {
        None => "null"@,
        Some(op) => "{\"metadata\":"@ + (match op.metadata {
            None => "null"@,
            Some(m) => p_str(m),
        }) + ",\"severity\":"@ + (match op.severity {
            None => "null"@,
            Some(sv) => severity_json(sv),
        }) + seq!['}'],
    }
}

/// The complete persistence record for a limiter state.
pub open spec fn encode_state(st: RateLimitModel) -> Seq<char> {
    "{\"persistenceFile\":"@ + p_str(st.persistence_file) + ",\"limits\":"@ + enc_limits(st.limits)
        + ",\"sentNotifications\":"@ + enc_times(st.sent_at) + ",\"triggered\":"@ + json_bool(
        st.triggered,
    ) + ",\"notificationOptions\":"@ + enc_options(st.options) + seq!['}']
}

/// The persistence record for a limiter, as text to be written to its file.
pub fn encode_state_string(rl: &RateLimit) -> (r: String)
    ensures
        r@ == encode_state(rl@),
{
    let mut out = "{\"persistenceFile\":".to_owned();
    append_p_str(&mut out, rl.persistence_file.as_str());
    let ghost ck1 = "{\"persistenceFile\":"@ + p_str(rl@.persistence_file);
    proof {
        assert(out@ =~= ck1);
    }
    out.append(",\"limits\":");
    crate::jsontext::push_char(&mut out, '[');
    let mut pieces: Vec<String> = Vec::new();
    let mut i: usize = 0;
    while i < rl.limits.len()
        invariant
            i <= rl.limits.len(),
            pieces.deep_view() =~= rl.limits@.take(i as int).map_values(
                |l: SendLimit| enc_limit(l),
            ),
        decreases rl.limits.len() - i,
    {
        let mut p = "{\"duration\":".to_owned();
        append_dec_u64(&mut p, rl.limits[i].duration_ms);
        p.append(",\"limit\":");
        append_dec_u64(&mut p, rl.limits[i].limit as u64);
        crate::jsontext::push_char(&mut p, '}');
        proof {
            assert(p@ =~= enc_limit(rl.limits@[i as int]));
        }
        let ghost pre = pieces.deep_view();
        pieces.push(p);
        proof {
            assert(pieces.deep_view() =~= pre.push(p@));
            assert(rl.limits@.take(i + 1).map_values(|l: SendLimit| enc_limit(l)) =~= pre.push(
                p@,
            ));
        }
        i = i + 1;
    }
    proof {
        assert(rl.limits@.take(rl.limits@.len() as int) =~= rl.limits@);
    }
    append_comma_join(&mut out, &pieces);
    crate::jsontext::push_char(&mut out, ']');
    let ghost ck2 = ck1 + ",\"limits\":"@ + enc_limits(rl@.limits);
    proof {
        assert(out@ =~= ck2);
    }
    out.append(",\"sentNotifications\":");
    crate::jsontext::push_char(&mut out, '[');
    let mut tpieces: Vec<String> = Vec::new();
    let mut i: usize = 0;
    while i < rl.sent_notifications.len()
        invariant
            i <= rl.sent_notifications.len(),
            tpieces.deep_view() =~= rl.sent_notifications@.take(i as int).map_values(
                |t: i64| dec_i64(t as int),
            ),
        decreases rl.sent_notifications.len() - i,
    {
        let mut p = String::new();
        append_dec_i64(&mut p, rl.sent_notifications[i]);
        proof {
            assert(p@ =~= dec_i64(rl.sent_notifications@[i as int] as int));
        }
        let ghost pre = tpieces.deep_view();
        tpieces.push(p);
        proof {
            assert(tpieces.deep_view() =~= pre.push(p@));
            assert(rl.sent_notifications@.take(i + 1).map_values(|t: i64| dec_i64(t as int))
                =~= pre.push(p@));
        }
        i = i + 1;
    }
    proof {
        assert(rl.sent_notifications@.take(rl.sent_notifications@.len() as int)
            =~= rl.sent_notifications@);
    }
    append_comma_join(&mut out, &tpieces);
    crate::jsontext::push_char(&mut out, ']');
    let ghost ck3 = ck2 + ",\"sentNotifications\":"@ + enc_times(rl@.sent_at);
    proof {
        assert(out@ =~= ck3);
    }
    out.append(",\"triggered\":");
    append_json_bool(&mut out, rl.triggered);
    out.append(",\"notificationOptions\":");
    let ghost ck4 = ck3 + ",\"triggered\":"@ + json_bool(rl@.triggered)
        + ",\"notificationOptions\":"@;
    proof {
        assert(out@ =~= ck4);
    }
    match &rl.notification_options {
        None => out.append("null"),
        Some(o) => {
            out.append("{\"metadata\":");
            match &o.metadata {
                None => out.append("null"),
                Some(m) => append_p_str(&mut out, m.as_str()),
            }
            out.append(",\"severity\":");
            match &o.severity {
                None => out.append("null"),
                Some(sv) => append_severity_json(&mut out, *sv),
            }
            crate::jsontext::push_char(&mut out, '}');
        },
    }
    let ghost ck5 = ck4 + enc_options(rl@.options);
    proof {
        assert(out@ =~= ck5);
    }
    crate::jsontext::push_char(&mut out, '}');
    proof {
        assert(out@ =~= ck5 + seq!['}']);
        assert(encode_state(rl@) =~= ck5 + seq!['}']);
    }
    out
}

// ---------------------------------------------------------------------------
// The record's grammar: parsers.
// ---------------------------------------------------------------------------

/// A parsed window object.
pub open spec fn parse_limit_spec(s: Seq<char>, i: int) -> Option<(SendLimit, int)> {
    let l1 = "{\"duration\":"@;
    let l2 = ",\"limit\":"@;
    if !lit_at(s, i, l1) {
        None
    } else {
        match parse_u64_spec(s, i + l1.len()) {
            Some((d, j)) => if !lit_at(s, j, l2) {
                None
            } else {
                match parse_u64_spec(s, j + l2.len()) {
                    Some((lim, k)) => if lim <= u32::MAX as u64 && k < s.len() && s[k] == '}' {
                        Some(((SendLimit { duration_ms: d, limit: lim as u32 }), k + 1))
                    } else {
                        None
                    },
                    None => None,
                }
            },
            None => None,
        }
    }
}

/// The windows of a non-empty list, folded onto an accumulator; consumes the
/// closing bracket.
pub open spec fn parse_limits_items(s: Seq<char>, i: int, acc: Seq<SendLimit>) -> Option<
    (Seq<SendLimit>, int),
>
    decreases s.len() - i,
{
    match parse_limit_spec(s, i) {
        Some((l, j)) => if j <= i || j >= s.len() {
            None
        } else if s[j] == ',' {
            parse_limits_items(s, j + 1, acc.push(l))
        } else if s[j] == ']' {
            Some((acc.push(l), j + 1))
        } else {
            None
        },
        None => None,
    }
}

/// A parsed list of windows, brackets included.
pub open spec fn parse_limits_spec(s: Seq<char>, i: int) -> Option<(Seq<SendLimit>, int)> {
    if 0 <= i < s.len() && s[i] == '[' {
        if i + 1 < s.len() && s[i + 1] == ']' {
            Some((Seq::empty(), i + 2))
        } else {
            parse_limits_items(s, i + 1, Seq::empty())
        }
    } else {
        None
    }
}

/// The timestamps of a non-empty list, folded onto an accumulator; consumes
/// the closing bracket.
pub open spec fn parse_times_items(s: Seq<char>, i: int, acc: Seq<i64>) -> Option<(Seq<i64>, int)>
    decreases s.len() - i,
{
    match parse_i64_spec(s, i) {
        Some((t, j)) => if j <= i || j >= s.len() {
            None
        } else if s[j] == ',' {
            parse_times_items(s, j + 1, acc.push(t))
        } else if s[j] == ']' {
            Some((acc.push(t), j + 1))
        } else {
            None
        },
        None => None,
    }
}

/// A parsed list of timestamps, brackets included.
pub open spec fn parse_times_spec(s: Seq<char>, i: int) -> Option<(Seq<i64>, int)> {
    if 0 <= i < s.len() && s[i] == '[' {
        if i + 1 < s.len() && s[i + 1] == ']' {
            Some((Seq::empty(), i + 2))
        } else {
            parse_times_items(s, i + 1, Seq::empty())
        }
    } else {
        None
    }
}

/// A parsed severity.
pub open spec fn parse_severity_spec(s: Seq<char>, i: int) -> Option<(Severity, int)> {
    if lit_at(s, i, "\"error\""@) {
        Some((Severity::Error, i + "\"error\""@.len()))
    } else if lit_at(s, i, "\"warning\""@) {
        Some((Severity::Warning, i + "\"warning\""@.len()))
    } else if lit_at(s, i, "\"info\""@) {
        Some((Severity::Info, i + "\"info\""@.len()))
    } else {
        None
    }
}

/// A parsed set of notice options, or the word for their absence.
pub open spec fn parse_options_spec(s: Seq<char>, i: int) -> Option<(Option<OptionsModel>, int)> {
    if lit_at(s, i, "null"@) {
        Some((None, i + "null"@.len()))
    } else if lit_at(s, i, "{\"metadata\":"@) {
        let i1 = i + "{\"metadata\":"@.len();
        let meta: Option<(Option<Seq<char>>, int)> = if lit_at(s, i1, "null"@) {
            Some((None, i1 + "null"@.len()))
        } else if i1 < s.len() && s[i1] == '"' {
            match parse_string_spec(s, i1 + 1) {
                Some((m, j)) => Some((Some(m), j)),
                None => None,
            }
        } else {
            None
        };
        match meta {
            Some((m, j)) => if !lit_at(s, j, ",\"severity\":"@) {
                None
            } else {
                let j1 = j + ",\"severity\":"@.len();
                let sev: Option<(Option<Severity>, int)> = if lit_at(s, j1, "null"@) {
                    Some((None, j1 + "null"@.len()))
                } else {
                    match parse_severity_spec(s, j1) {
                        Some((sv, k)) => Some((Some(sv), k)),
                        None => None,
                    }
                };
                match sev {
                    Some((sv, k)) => if k < s.len() && s[k] == '}' {
                        Some((Some(OptionsModel { metadata: m, severity: sv }), k + 1))
                    } else {
                        None
                    },
                    None => None,
                }
            },
            None => None,
        }
    } else {
        None
    }
}

/// A parsed persistence record: the whole text must be one record.
pub open spec fn parse_state_spec(s: Seq<char>) -> Option<RateLimitModel> {
    let h = "{\"persistenceFile\":"@;
    if !(lit_at(s, 0, h) && h.len() < s.len() && s[h.len() as int] == '"') {
        None
    } else {
        match parse_string_spec(s, h.len() as int + 1) {
            Some((file, i1)) => if !lit_at(s, i1, ",\"limits\":"@) {
                None
            } else {
                match parse_limits_spec(s, i1 + ",\"limits\":"@.len()) {
                    Some((ls, i2)) => if !lit_at(s, i2, ",\"sentNotifications\":"@) {
                        None
                    } else {
                        match parse_times_spec(s, i2 + ",\"sentNotifications\":"@.len()) {
                            Some((ts, i3)) => if !lit_at(s, i3, ",\"triggered\":"@) {
                                None
                            } else {
                                let i4 = i3 + ",\"triggered\":"@.len();
                                let trig: Option<(bool, int)> = if lit_at(s, i4, "true"@) {
                                    Some((true, i4 + "true"@.len()))
                                } else if lit_at(s, i4, "false"@) {
                                    Some((false, i4 + "false"@.len()))
                                } else {
                                    None
                                };
                                match trig {
                                    Some((b, i5)) => if !lit_at(
                                        s,
                                        i5,
                                        ",\"notificationOptions\":"@,
                                    ) {
                                        None
                                    } else {
                                        match parse_options_spec(
                                            s,
                                            i5 + ",\"notificationOptions\":"@.len(),
                                        ) {
                                            Some((o, i6)) => if i6 + 1 == s.len() && s[i6]
                                                == '}' {
                                                Some(
                                                    RateLimitModel {
                                                        persistence_file: file,
                                                        limits: ls,
                                                        sent_at: ts,
                                                        triggered: b,
                                                        options: o,
                                                    },
                                                )
                                            } else {
                                                None
                                            },
                                            None => None,
                                        }
                                    },
                                    None => None,
                                }
                            },
                            None => None,
                        }
                    },
                    None => None,
                }
            },
            None => None,
        }
    }
}

// ---------------------------------------------------------------------------
// The encoder and the parser are inverse: piece lemmas.
// ---------------------------------------------------------------------------

/// The digit character of a value below ten reads back as that value.
proof fn lemma_digit_char(n: int)
    requires
        0 <= n < 10,
    ensures
        is_digit(crate::jsontext::hex_digit(n)),
        digit_val(crate::jsontext::hex_digit(n)) == n,
{
}

/// The decimal digits of a number: at least one, all digits, reading back to
/// the value.
proof fn lemma_dec_u64_digits(v: nat)
    ensures
        dec_u64(v).len() >= 1,
        forall|j: int| 0 <= j < dec_u64(v).len() ==> is_digit(#[trigger] dec_u64(v)[j]),
        seq_digits_val(dec_u64(v), 0) == v,
    decreases v,
{
    if v < 10 {
        lemma_digit_char(v as int);
        let d = crate::jsontext::hex_digit(v as int);
        assert(dec_u64(v) == seq![d]);
        assert(seq![d].drop_first() =~= Seq::<char>::empty());
        assert(seq_digits_val(seq![d], 0) == seq_digits_val(Seq::<char>::empty(), digit_val(d)));
    } else {
        lemma_dec_u64_digits(v / 10);
        lemma_digit_char((v % 10) as int);
        let d = crate::jsontext::hex_digit((v % 10) as int);
        assert(dec_u64(v) == dec_u64(v / 10) + seq![d]);
        assert(dec_u64(v / 10) + seq![d] =~= dec_u64(v / 10).push(d));
        lemma_seq_digits_val_push(dec_u64(v / 10), d, 0);
        assert(seq_digits_val(dec_u64(v), 0) == (v / 10) * 10 + (v % 10));
        assert(forall|j: int|
            0 <= j < dec_u64(v).len() ==> is_digit(#[trigger] dec_u64(v)[j]));
    }
}

/// Where a run of digits ends: right where the characters stop being digits.
proof fn lemma_digits_end_at(s: Seq<char>, i: int, e: int)
    requires
        0 <= i <= e <= s.len(),
        forall|j: int| i <= j < e ==> is_digit(#[trigger] s[j]),
        e == s.len() || !is_digit(s[e]),
    ensures
        digits_end(s, i) == e,
    decreases e - i,
{
    if i < e {
        lemma_digits_end_at(s, i + 1, e);
    }
}

/// An encoded unsigned number standing in a text, followed by a non-digit,
/// parses back to its value.
proof fn lemma_parse_u64_at(s: Seq<char>, i: int, v: u64)
    requires
        0 <= i,
        i + dec_u64(v as nat).len() <= s.len(),
        s.subrange(i, i + dec_u64(v as nat).len() as int) == dec_u64(v as nat),
        i + dec_u64(v as nat).len() == s.len() || !is_digit(s[i + dec_u64(v as nat).len() as int]),
    ensures
        parse_u64_spec(s, i) == Some((v, i + dec_u64(v as nat).len() as int)),
{
    let d = dec_u64(v as nat);
    let e = i + d.len() as int;
    lemma_dec_u64_digits(v as nat);
    assert forall|j: int| i <= j < e implies is_digit(#[trigger] s[j]) by {
        assert(s[j] == s.subrange(i, e)[j - i]);
    }
    lemma_digits_end_at(s, i, e);
    assert(is_digit(s[i]));
    assert(seq_digits_val(s.subrange(i, e), 0) == v);
}

/// An encoded signed number standing in a text, followed by a non-digit,
/// parses back to its value.
proof fn lemma_parse_i64_at(s: Seq<char>, i: int, t: i64)
    requires
        0 <= i,
        i + dec_i64(t as int).len() <= s.len(),
        s.subrange(i, i + dec_i64(t as int).len() as int) == dec_i64(t as int),
        i + dec_i64(t as int).len() == s.len() || !is_digit(
            s[i + dec_i64(t as int).len() as int],
        ),
    ensures
        parse_i64_spec(s, i) == Some((t, i + dec_i64(t as int).len() as int)),
{
    let d = dec_i64(t as int);
    let e = i + d.len() as int;
    if t < 0 {
        let m = (-(t as int)) as nat;
        let du = dec_u64(m);
        lemma_dec_u64_digits(m);
        assert(d == seq!['-'] + du);
        assert(s[i] == s.subrange(i, e)[0]);
        assert(s[i] == '-');
        assert(s.subrange(i + 1, i + 1 + du.len() as int) =~= du) by {
            assert(forall|j: int|
                0 <= j < du.len() ==> s.subrange(i, e)[j + 1] == #[trigger] du[j]);
        }
        lemma_parse_u64_at(s, i + 1, (m as u64));
        assert(m <= i64::MAX as u64 + 1);
        assert((-(m as int)) as i64 == t);
    } else {
        assert(d == dec_u64(t as nat));
        lemma_dec_u64_digits(t as nat);
        assert(s[i] == s.subrange(i, e)[0]);
        assert(is_digit(s[i]));
        assert(s[i] != '-');
        lemma_parse_u64_at(s, i, (t as u64));
    }
}

/// An escaped string standing in a text, followed by its closing quote,
/// parses back to its characters.
proof fn lemma_parse_string_at(s: Seq<char>, i: int, v: Seq<char>)
    requires
        0 <= i,
        i + p_escape(v).len() + 1 <= s.len(),
        s.subrange(i, i + p_escape(v).len() + 1) == p_escape(v) + seq!['"'],
    ensures
        parse_string_spec(s, i) == Some((v, i + p_escape(v).len() + 1)),
    decreases v.len(),
{
    let pe = p_escape(v);
    let e = i + pe.len() + 1;
    if v.len() == 0 {
        assert(s[i] == s.subrange(i, e)[0]);
        assert(s[i] == '"');
    } else {
        let v0 = v[0];
        let rest = v.drop_first();
        assert(pe == p_esc_char(v0) + p_escape(rest));
        if v0 == '"' || v0 == '\\' {
            assert(s[i] == s.subrange(i, e)[0]);
            assert(s[i + 1] == s.subrange(i, e)[1]);
            assert(s[i] == '\\');
            assert(s[i + 1] == v0);
            assert(s.subrange(i + 2, i + 2 + p_escape(rest).len() + 1) =~= p_escape(rest)
                + seq!['"']) by {
                assert(forall|j: int|
                    0 <= j < p_escape(rest).len() + 1 ==> s.subrange(i, e)[j + 2] == #[trigger] (
                    p_escape(rest) + seq!['"'])[j]);
            }
            lemma_parse_string_at(s, i + 2, rest);
            assert(seq![s[i + 1]] + rest =~= v);
        } else {
            assert(s[i] == s.subrange(i, e)[0]);
            assert(s[i] == v0);
            assert(s.subrange(i + 1, i + 1 + p_escape(rest).len() + 1) =~= p_escape(rest)
                + seq!['"']) by {
                assert(forall|j: int|
                    0 <= j < p_escape(rest).len() + 1 ==> s.subrange(i, e)[j + 1] == #[trigger] (
                    p_escape(rest) + seq!['"'])[j]);
            }
            lemma_parse_string_at(s, i + 1, rest);
            assert(seq![s[i]] + rest =~= v);
        }
    }
}

/// The members of a list, read from the front: the first member, a comma, the
/// rest.
proof fn lemma_comma_join_front(xs: Seq<Seq<char>>)
    requires
        xs.len() >= 2,
    ensures
        comma_join(xs) == xs[0] + seq![','] + comma_join(xs.drop_first()),
    decreases xs.len(),
{
    if xs.len() == 2 {
        assert(xs.drop_last() =~= seq![xs[0]]);
        assert(comma_join(seq![xs[0]]) == xs[0]);
        assert(xs.drop_first() =~= seq![xs[1]]);
        assert(comma_join(seq![xs[1]]) == xs[1]);
        assert(comma_join(xs) == xs[0] + seq![','] + xs[1]);
    } else {
        lemma_comma_join_front(xs.drop_last());
        assert(xs.drop_last()[0] == xs[0]);
        assert(xs.drop_last().drop_first() =~= xs.drop_first().drop_last());
        assert(xs.drop_first().last() == xs.last());
        assert(comma_join(xs) == comma_join(xs.drop_last()) + seq![','] + xs.last());
        assert(comma_join(xs.drop_last()) == xs[0] + seq![','] + comma_join(
            xs.drop_first().drop_last(),
        ));
        assert(comma_join(xs.drop_first()) == comma_join(xs.drop_first().drop_last()) + seq![',']
            + xs.last());
        assert((xs[0] + seq![','] + comma_join(xs.drop_first().drop_last()) + seq![',']
            + xs.last()) =~= xs[0] + seq![','] + (comma_join(xs.drop_first().drop_last())
            + seq![','] + xs.last()));
    }
}

/// A text holding two pieces in a row holds each piece at its place.
proof fn lemma_split_at(s: Seq<char>, i: int, a: Seq<char>, b: Seq<char>)
    requires
        0 <= i,
        i + a.len() + b.len() <= s.len(),
        s.subrange(i, i + a.len() + b.len()) == a + b,
    ensures
        s.subrange(i, i + a.len()) == a,
        s.subrange(i + a.len(), i + a.len() + b.len()) == b,
{
    let e = i + a.len() + b.len();
    assert forall|j: int| 0 <= j < a.len() implies #[trigger] s.subrange(i, i + a.len())[j]
        == a[j] by {
        assert(s.subrange(i, e)[j] == (a + b)[j]);
    }
    assert(s.subrange(i, i + a.len()) =~= a);
    assert forall|j: int| 0 <= j < b.len() implies #[trigger] s.subrange(i + a.len(), e)[j]
        == b[j] by {
        assert(s.subrange(i, e)[j + a.len()] == (a + b)[j + a.len()]);
    }
    assert(s.subrange(i + a.len(), e) =~= b);
}

/// An encoded window object standing in a text parses back to its fields.
proof fn lemma_parse_limit_at(s: Seq<char>, i: int, l: SendLimit)
    requires
        0 <= i,
        i + enc_limit(l).len() <= s.len(),
        s.subrange(i, i + enc_limit(l).len() as int) == enc_limit(l),
    ensures
        parse_limit_spec(s, i) == Some((l, i + enc_limit(l).len() as int)),
        enc_limit(l).len() >= 1,
{
    reveal_strlit("{\"duration\":");
    reveal_strlit(",\"limit\":");
    let l1 = "{\"duration\":"@;
    let l2 = ",\"limit\":"@;
    let d1 = dec_u64(l.duration_ms as nat);
    let d2 = dec_u64(l.limit as nat);
    lemma_dec_u64_digits(l.duration_ms as nat);
    lemma_dec_u64_digits(l.limit as nat);
    let el = enc_limit(l);
    let e = i + el.len() as int;
    let p1 = i + l1.len() as int;
    let p2 = p1 + d1.len() as int;
    let p3 = p2 + l2.len() as int;
    let p4 = p3 + d2.len() as int;
    assert(el =~= l1 + (d1 + (l2 + (d2 + seq!['}']))));
    lemma_split_at(s, i, l1, d1 + (l2 + (d2 + seq!['}'])));
    lemma_split_at(s, p1, d1, l2 + (d2 + seq!['}']));
    lemma_split_at(s, p2, l2, d2 + seq!['}']);
    lemma_split_at(s, p3, d2, seq!['}']);
    assert(lit_at(s, i, l1));
    assert(lit_at(s, p2, l2));
    assert(s[p4] == '}') by {
        assert(s.subrange(p4, p4 + 1)[0] == '}');
    }
    assert(s[p2] == ',') by {
        assert(s.subrange(p2, p3)[0] == l2[0]);
    }
    assert(!is_digit(','));
    assert(!is_digit('}'));
    lemma_parse_u64_at(s, p1, l.duration_ms);
    lemma_parse_u64_at(s, p3, l.limit as u64);
    assert(l.limit as u64 <= u32::MAX as u64);
    assert(p4 + 1 == e);
}

/// An encoded run of window objects, comma separated and closed by a
/// bracket, parses back to the windows appended to the accumulator.
proof fn lemma_parse_limits_items_at(s: Seq<char>, i: int, ls: Seq<SendLimit>, acc: Seq<SendLimit>)
    requires
        ls.len() >= 1,
        0 <= i,
        i + comma_join(ls.map_values(|l: SendLimit| enc_limit(l))).len() + 1 <= s.len(),
        s.subrange(
            i,
            i + comma_join(ls.map_values(|l: SendLimit| enc_limit(l))).len() + 1,
        ) == comma_join(ls.map_values(|l: SendLimit| enc_limit(l))) + seq![']'],
    ensures
        parse_limits_items(s, i, acc) == Some(
            (acc + ls, i + comma_join(ls.map_values(|l: SendLimit| enc_limit(l))).len() + 1),
        ),
    decreases ls.len(),
{
    let m = ls.map_values(|l: SendLimit| enc_limit(l));
    let body = comma_join(m);
    let e = i + body.len() + 1;
    if ls.len() == 1 {
        assert(m =~= seq![enc_limit(ls[0])]);
        assert(body == enc_limit(ls[0]));
        lemma_split_at(s, i, body, seq![']']);
        lemma_parse_limit_at(s, i, ls[0]);
        let j = i + enc_limit(ls[0]).len() as int;
        assert(s[j] == ']') by {
            assert(s.subrange(j, e)[0] == ']');
        }
        assert(acc.push(ls[0]) =~= acc + ls);
    } else {
        lemma_comma_join_front(m);
        assert(m[0] == enc_limit(ls[0]));
        let rest = ls.drop_first();
        let mrest = rest.map_values(|l: SendLimit| enc_limit(l));
        assert(mrest =~= m.drop_first());
        let rj = comma_join(mrest);
        assert(body == enc_limit(ls[0]) + seq![','] + rj);
        assert(body + seq![']'] =~= enc_limit(ls[0]) + (seq![','] + (rj + seq![']'])));
        lemma_split_at(s, i, enc_limit(ls[0]), seq![','] + (rj + seq![']']));
        lemma_parse_limit_at(s, i, ls[0]);
        let j = i + enc_limit(ls[0]).len() as int;
        lemma_split_at(s, j, seq![','], rj + seq![']']);
        assert(s[j] == ',') by {
            assert(s.subrange(j, j + 1)[0] == ',');
        }
        assert(j < s.len());
        lemma_parse_limits_items_at(s, j + 1, rest, acc.push(ls[0]));
        assert(acc.push(ls[0]) + rest =~= acc + ls);
    }
}

/// An encoded list of windows, brackets included, parses back to them.
proof fn lemma_parse_limits_full(s: Seq<char>, i: int, ls: Seq<SendLimit>)
    requires
        0 <= i,
        i + enc_limits(ls).len() <= s.len(),
        s.subrange(i, i + enc_limits(ls).len() as int) == enc_limits(ls),
    ensures
        parse_limits_spec(s, i) == Some((ls, i + enc_limits(ls).len() as int)),
{
    let m = ls.map_values(|l: SendLimit| enc_limit(l));
    let body = comma_join(m);
    let e = i + enc_limits(ls).len() as int;
    assert(enc_limits(ls) =~= seq!['['] + (body + seq![']']));
    lemma_split_at(s, i, seq!['['], body + seq![']']);
    assert(s[i] == '[') by {
        assert(s.subrange(i, i + 1)[0] == '[');
    }
    if ls.len() == 0 {
        assert(body.len() == 0) by {
            assert(m.len() == 0);
        }
        assert(s[i + 1] == ']') by {
            assert(s.subrange(i + 1, e)[0] == ']');
        }
        assert(ls =~= Seq::<SendLimit>::empty());
    } else {
        reveal_strlit("{\"duration\":");
        assert(body[0] == '{') by {
            if m.len() == 1 {
                assert(body == m[0]);
                assert(m[0] == enc_limit(ls[0]));
            } else {
                lemma_comma_join_front(m);
                assert(body[0] == m[0][0]);
            }
        }
        assert(s[i + 1] == body[0]) by {
            assert(s.subrange(i + 1, e)[0] == (body + seq![']'])[0]);
        }
        assert(!(s[i + 1] == ']'));
        lemma_parse_limits_items_at(s, i + 1, ls, Seq::empty());
        assert(Seq::<SendLimit>::empty() + ls =~= ls);
    }
}

/// An encoded run of timestamps, comma separated and closed by a bracket,
/// parses back to the timestamps appended to the accumulator.
proof fn lemma_parse_times_items_at(s: Seq<char>, i: int, ts: Seq<i64>, acc: Seq<i64>)
    requires
        ts.len() >= 1,
        0 <= i,
        i + comma_join(ts.map_values(|t: i64| dec_i64(t as int))).len() + 1 <= s.len(),
        s.subrange(
            i,
            i + comma_join(ts.map_values(|t: i64| dec_i64(t as int))).len() + 1,
        ) == comma_join(ts.map_values(|t: i64| dec_i64(t as int))) + seq![']'],
    ensures
        parse_times_items(s, i, acc) == Some(
            (acc + ts, i + comma_join(ts.map_values(|t: i64| dec_i64(t as int))).len() + 1),
        ),
    decreases ts.len(),
{
    let m = ts.map_values(|t: i64| dec_i64(t as int));
    let body = comma_join(m);
    let e = i + body.len() + 1;
    let t0 = ts[0];
    let d0 = dec_i64(t0 as int);
    lemma_dec_u64_digits((if t0 < 0 {
        -(t0 as int)
    } else {
        t0 as int
    }) as nat);
    assert(d0.len() >= 1);
    assert(!is_digit(']'));
    assert(!is_digit(','));
    if ts.len() == 1 {
        assert(m =~= seq![d0]);
        assert(body == d0);
        lemma_split_at(s, i, body, seq![']']);
        let j = i + d0.len() as int;
        assert(s[j] == ']') by {
            assert(s.subrange(j, e)[0] == ']');
        }
        lemma_parse_i64_at(s, i, t0);
        assert(j < s.len());
        assert(acc.push(t0) =~= acc + ts);
    } else {
        lemma_comma_join_front(m);
        assert(m[0] == d0);
        let rest = ts.drop_first();
        let mrest = rest.map_values(|t: i64| dec_i64(t as int));
        assert(mrest =~= m.drop_first());
        let rj = comma_join(mrest);
        assert(body == d0 + seq![','] + rj);
        assert(body + seq![']'] =~= d0 + (seq![','] + (rj + seq![']'])));
        lemma_split_at(s, i, d0, seq![','] + (rj + seq![']']));
        let j = i + d0.len() as int;
        lemma_split_at(s, j, seq![','], rj + seq![']']);
        assert(s[j] == ',') by {
            assert(s.subrange(j, j + 1)[0] == ',');
        }
        lemma_parse_i64_at(s, i, t0);
        assert(j < s.len());
        lemma_parse_times_items_at(s, j + 1, rest, acc.push(t0));
        assert(acc.push(t0) + rest =~= acc + ts);
    }
}

/// An encoded list of timestamps, brackets included, parses back to them.
proof fn lemma_parse_times_full(s: Seq<char>, i: int, ts: Seq<i64>)
    requires
        0 <= i,
        i + enc_times(ts).len() <= s.len(),
        s.subrange(i, i + enc_times(ts).len() as int) == enc_times(ts),
    ensures
        parse_times_spec(s, i) == Some((ts, i + enc_times(ts).len() as int)),
{
    let m = ts.map_values(|t: i64| dec_i64(t as int));
    let body = comma_join(m);
    let e = i + enc_times(ts).len() as int;
    assert(enc_times(ts) =~= seq!['['] + (body + seq![']']));
    lemma_split_at(s, i, seq!['['], body + seq![']']);
    assert(s[i] == '[') by {
        assert(s.subrange(i, i + 1)[0] == '[');
    }
    if ts.len() == 0 {
        assert(body.len() == 0) by {
            assert(m.len() == 0);
        }
        assert(s[i + 1] == ']') by {
            assert(s.subrange(i + 1, e)[0] == ']');
        }
        assert(ts =~= Seq::<i64>::empty());
    } else {
        let t0 = ts[0];
        let d0 = dec_i64(t0 as int);
        lemma_dec_u64_digits((if t0 < 0 {
            -(t0 as int)
        } else {
            t0 as int
        }) as nat);
        assert(body[0] == d0[0]) by {
            if m.len() == 1 {
                assert(body == m[0]);
            } else {
                lemma_comma_join_front(m);
                assert(body[0] == m[0][0]);
            }
        }
        assert(d0[0] != ']') by {
            if t0 < 0 {
                assert(d0[0] == '-');
            } else {
                assert(d0 == dec_u64(t0 as nat));
                assert(is_digit(d0[0]));
            }
        }
        assert(s[i + 1] == body[0]) by {
            assert(s.subrange(i + 1, e)[0] == (body + seq![']'])[0]);
        }
        assert(!(s[i + 1] == ']'));
        lemma_parse_times_items_at(s, i + 1, ts, Seq::empty());
        assert(Seq::<i64>::empty() + ts =~= ts);
    }
}

/// An encoded severity standing in a text parses back to itself.
proof fn lemma_parse_severity_at(s: Seq<char>, i: int, sv: Severity)
    requires
        0 <= i,
        i + severity_json(sv).len() <= s.len(),
        s.subrange(i, i + severity_json(sv).len() as int) == severity_json(sv),
    ensures
        parse_severity_spec(s, i) == Some((sv, i + severity_json(sv).len() as int)),
{
    reveal_strlit("\"error\"");
    reveal_strlit("\"warning\"");
    reveal_strlit("\"info\"");
    let sj = severity_json(sv);
    let e = i + sj.len() as int;
    assert forall|j: int| i <= j < e implies s[j] == sj[j - i] by {
        assert(s[j] == s.subrange(i, e)[j - i]);
    }
    match sv {
        Severity::Error => {
            assert(s.subrange(i, i + "\"error\""@.len() as int) =~= "\"error\""@);
        },
        Severity::Warning => {
            assert(s[i + 1] == 'w');
            assert(!lit_at(s, i, "\"error\""@)) by {
                if lit_at(s, i, "\"error\""@) {
                    assert(s.subrange(i, i + "\"error\""@.len() as int)[1] == 'e');
                }
            }
            assert(s.subrange(i, i + "\"warning\""@.len() as int) =~= "\"warning\""@);
        },
        Severity::Info => {
            assert(s[i + 1] == 'i');
            assert(!lit_at(s, i, "\"error\""@)) by {
                if lit_at(s, i, "\"error\""@) {
                    assert(s.subrange(i, i + "\"error\""@.len() as int)[1] == 'e');
                }
            }
            assert(!lit_at(s, i, "\"warning\""@)) by {
                if lit_at(s, i, "\"warning\""@) {
                    assert(s.subrange(i, i + "\"warning\""@.len() as int)[1] == 'w');
                }
            }
            assert(s.subrange(i, i + "\"info\""@.len() as int) =~= "\"info\""@);
        },
    }
}

/// Encoded notice options standing in a text parse back to themselves.
#[verifier::rlimit(50)]
proof fn lemma_parse_options_at(s: Seq<char>, i: int, o: Option<OptionsModel>)
    requires
        0 <= i,
        i + enc_options(o).len() <= s.len(),
        s.subrange(i, i + enc_options(o).len() as int) == enc_options(o),
    ensures
        parse_options_spec(s, i) == Some((o, i + enc_options(o).len() as int)),
{
    reveal_strlit("null");
    reveal_strlit("{\"metadata\":");
    reveal_strlit(",\"severity\":");
    reveal_strlit("\"error\"");
    reveal_strlit("\"warning\"");
    reveal_strlit("\"info\"");
    let eo = enc_options(o);
    let e = i + eo.len() as int;
    match o {
        None => {
            assert(s.subrange(i, i + "null"@.len() as int) =~= "null"@);
        },
        Some(op) => {
            let h = "{\"metadata\":"@;
            let mpart: Seq<char> = match op.metadata {
                None => "null"@,
                Some(m) => p_str(m),
            };
            let svlit = ",\"severity\":"@;
            let spart: Seq<char> = match op.severity {
                None => "null"@,
                Some(sv) => severity_json(sv),
            };
            assert(eo =~= h + (mpart + (svlit + (spart + seq!['}']))));
            lemma_split_at(s, i, h, mpart + (svlit + (spart + seq!['}'])));
            let i1 = i + h.len() as int;
            lemma_split_at(s, i1, mpart, svlit + (spart + seq!['}']));
            let j = i1 + mpart.len() as int;
            lemma_split_at(s, j, svlit, spart + seq!['}']);
            let j1 = j + svlit.len() as int;
            lemma_split_at(s, j1, spart, seq!['}']);
            let k = j1 + spart.len() as int;
            assert(s[i] == '{') by {
                assert(s.subrange(i, i1)[0] == h[0]);
            }
            assert(!lit_at(s, i, "null"@)) by {
                if lit_at(s, i, "null"@) {
                    assert(s.subrange(i, i + "null"@.len() as int)[0] == 'n');
                }
            }
            assert(lit_at(s, i, h));
            match op.metadata {
                None => {
                    assert(lit_at(s, i1, "null"@));
                },
                Some(m) => {
                    assert(mpart =~= seq!['"'] + (p_escape(m) + seq!['"']));
                    lemma_split_at(s, i1, seq!['"'], p_escape(m) + seq!['"']);
                    assert(s[i1] == '"') by {
                        assert(s.subrange(i1, i1 + 1)[0] == '"');
                    }
                    assert(!lit_at(s, i1, "null"@)) by {
                        if lit_at(s, i1, "null"@) {
                            assert(s.subrange(i1, i1 + "null"@.len() as int)[0] == 'n');
                        }
                    }
                    lemma_parse_string_at(s, i1 + 1, m);
                },
            }
            assert(lit_at(s, j, svlit));
            match op.severity {
                None => {
                    assert(lit_at(s, j1, "null"@));
                },
                Some(sv) => {
                    assert(s[j1] == '"') by {
                        assert(s.subrange(j1, k)[0] == severity_json(sv)[0]);
                    }
                    assert(!lit_at(s, j1, "null"@)) by {
                        if lit_at(s, j1, "null"@) {
                            assert(s.subrange(j1, j1 + "null"@.len() as int)[0] == 'n');
                        }
                    }
                    lemma_parse_severity_at(s, j1, sv);
                },
            }
            assert(s[k] == '}') by {
                assert(s.subrange(k, k + 1)[0] == '}');
            }
            assert(k + 1 == e);
        },
    }
}

/// Where each piece of an encoded record stands in the whole text.
proof fn lemma_state_pieces(st: RateLimitModel)
    ensures
        ({
            let s = encode_state(st);
            let h = "{\"persistenceFile\":"@;
            let ll = ",\"limits\":"@;
            let sl = ",\"sentNotifications\":"@;
            let tl = ",\"triggered\":"@;
            let ol = ",\"notificationOptions\":"@;
            let fpart = p_str(st.persistence_file);
            let lpart = enc_limits(st.limits);
            let tpart = enc_times(st.sent_at);
            let bpart = json_bool(st.triggered);
            let opart = enc_options(st.options);
            let o1 = h.len() as int;
            let o2 = o1 + fpart.len() as int;
            let o3 = o2 + ll.len() as int;
            let o4 = o3 + lpart.len() as int;
            let o5 = o4 + sl.len() as int;
            let o6 = o5 + tpart.len() as int;
            let o7 = o6 + tl.len() as int;
            let o8 = o7 + bpart.len() as int;
            let o9 = o8 + ol.len() as int;
            let o10 = o9 + opart.len() as int;
            &&& s.len() == o10 + 1
            &&& s.subrange(0, o1) == h
            &&& s.subrange(o1, o2) == fpart
            &&& s.subrange(o2, o3) == ll
            &&& s.subrange(o3, o4) == lpart
            &&& s.subrange(o4, o5) == sl
            &&& s.subrange(o5, o6) == tpart
            &&& s.subrange(o6, o7) == tl
            &&& s.subrange(o7, o8) == bpart
            &&& s.subrange(o8, o9) == ol
            &&& s.subrange(o9, o10) == opart
            &&& s[o10] == '}'
        }),
{
    let s = encode_state(st);
    let h = "{\"persistenceFile\":"@;
    let ll = ",\"limits\":"@;
    let sl = ",\"sentNotifications\":"@;
    let tl = ",\"triggered\":"@;
    let ol = ",\"notificationOptions\":"@;
    let fpart = p_str(st.persistence_file);
    let lpart = enc_limits(st.limits);
    let tpart = enc_times(st.sent_at);
    let bpart = json_bool(st.triggered);
    let opart = enc_options(st.options);
    let o10 = s.len() - 1;
    assert(s.subrange(0, s.len() as int) =~= s);
    lemma_split_at(s, 0, h + fpart + ll + lpart + sl + tpart + tl + bpart + ol + opart,
        seq!['}']);
    lemma_split_at(s, 0, h + fpart + ll + lpart + sl + tpart + tl + bpart + ol, opart);
    lemma_split_at(s, 0, h + fpart + ll + lpart + sl + tpart + tl + bpart, ol);
    lemma_split_at(s, 0, h + fpart + ll + lpart + sl + tpart + tl, bpart);
    lemma_split_at(s, 0, h + fpart + ll + lpart + sl + tpart, tl);
    lemma_split_at(s, 0, h + fpart + ll + lpart + sl, tpart);
    lemma_split_at(s, 0, h + fpart + ll + lpart, sl);
    lemma_split_at(s, 0, h + fpart + ll, lpart);
    lemma_split_at(s, 0, h + fpart, ll);
    lemma_split_at(s, 0, h, fpart);
    assert(s[o10] == '}') by {
        assert(s.subrange(o10, o10 + 1)[0] == '}');
    }
}

/// The round trip: every limiter state read back from its own persistence
/// record is the state that was written.
#[verifier::rlimit(100)]
#[verifier::spinoff_prover]
pub proof fn lemma_round_trip(st: RateLimitModel)
    ensures
        parse_state_spec(encode_state(st)) == Some(st),
{
    reveal_strlit("{\"persistenceFile\":");
    reveal_strlit("true");
    reveal_strlit("false");
    let s = encode_state(st);
    let h = "{\"persistenceFile\":"@;
    let ll = ",\"limits\":"@;
    let sl = ",\"sentNotifications\":"@;
    let tl = ",\"triggered\":"@;
    let ol = ",\"notificationOptions\":"@;
    let fpart = p_str(st.persistence_file);
    let lpart = enc_limits(st.limits);
    let tpart = enc_times(st.sent_at);
    let bpart = json_bool(st.triggered);
    let opart = enc_options(st.options);
    let o1 = h.len() as int;
    let o2 = o1 + fpart.len() as int;
    let o3 = o2 + ll.len() as int;
    let o4 = o3 + lpart.len() as int;
    let o5 = o4 + sl.len() as int;
    let o6 = o5 + tpart.len() as int;
    let o7 = o6 + tl.len() as int;
    let o8 = o7 + bpart.len() as int;
    let o9 = o8 + ol.len() as int;
    let o10 = o9 + opart.len() as int;
    lemma_state_pieces(st);
    // the head and the path
    assert(lit_at(s, 0, h));
    assert(fpart =~= seq!['"'] + (p_escape(st.persistence_file) + seq!['"']));
    lemma_split_at(s, o1, seq!['"'], p_escape(st.persistence_file) + seq!['"']);
    assert(s[o1] == '"') by {
        assert(s.subrange(o1, o1 + 1)[0] == '"');
    }
    lemma_parse_string_at(s, o1 + 1, st.persistence_file);
    // the windows
    assert(lit_at(s, o2, ll));
    lemma_parse_limits_full(s, o3, st.limits);
    // the history
    assert(lit_at(s, o4, sl));
    lemma_parse_times_full(s, o5, st.sent_at);
    // the edge indicator
    assert(lit_at(s, o6, tl));
    if st.triggered {
        assert(lit_at(s, o7, "true"@));
    } else {
        assert(s[o7] == 'f') by {
            assert(s.subrange(o7, o8)[0] == "false"@[0]);
        }
        assert(!lit_at(s, o7, "true"@)) by {
            if lit_at(s, o7, "true"@) {
                assert(s.subrange(o7, o7 + "true"@.len() as int)[0] == 't');
            }
        }
        assert(lit_at(s, o7, "false"@));
    }
    // the options
    lemma_parse_options_at(s, o9, st.options);
    assert(lit_at(s, o8, ol));
    // the closing brace
    assert(s[o10] == '}') by {
        assert(s.subrange(o10, o10 + 1)[0] == '}');
    }
    let parsed = RateLimitModel {
        persistence_file: st.persistence_file,
        limits: st.limits,
        sent_at: st.sent_at,
        triggered: st.triggered,
        options: st.options,
    };
    assert(parsed == st);
}


/// Parses one window object.
fn parse_limit(s: &str, i: usize) -> (r: Option<(SendLimit, usize)>)
    ensures
        match r {
            Some((l, j)) => parse_limit_spec(s@, i as int) == Some((l, j as int)),
            None => parse_limit_spec(s@, i as int) is None,
        },
{
    let _slen = s.unicode_len();
    let l1 = "{\"duration\":";
    if !match_lit(s, i, l1) {
        return None;
    }
    match parse_u64(s, i + l1.unicode_len()) {
        Some((d, j)) => {
            let l2 = ",\"limit\":";
            if !match_lit(s, j, l2) {
                return None;
            }
            match parse_u64(s, j + l2.unicode_len()) {
                Some((lim, k)) => {
                    if lim <= u32::MAX as u64 && k < s.unicode_len() && s.get_char(k) == '}' {
                        Some((SendLimit::new(d, lim as u32), k + 1))
                    } else {
                        None
                    }
                },
                None => None,
            }
        },
        None => None,
    }
}

/// Parses a list of windows, brackets included.
#[verifier::loop_isolation(false)]
fn parse_limits(s: &str, i: usize) -> (r: Option<(Vec<SendLimit>, usize)>)
    ensures
        match r {
            Some((ls, j)) => parse_limits_spec(s@, i as int) == Some((ls@, j as int)),
            None => parse_limits_spec(s@, i as int) is None,
        },
{
    let slen = s.unicode_len();
    if !(i < slen && s.get_char(i) == '[') {
        return None;
    }
    if i + 1 < slen && s.get_char(i + 1) == ']' {
        let v: Vec<SendLimit> = Vec::new();
        proof {
            assert(v@ =~= Seq::<SendLimit>::empty());
        }
        return Some((v, i + 2));
    }
    let mut acc: Vec<SendLimit> = Vec::new();
    let mut cur: usize = i + 1;
    proof {
        assert(acc@ =~= Seq::<SendLimit>::empty());
    }
    loop
        invariant
            slen == s@.len(),
            i + 1 <= cur <= slen,
            parse_limits_items(s@, i + 1, Seq::empty()) == parse_limits_items(
                s@,
                cur as int,
                acc@,
            ),
        decreases slen - cur,
    {
        match parse_limit(s, cur) {
            None => {
                return None;
            },
            Some((l, j)) => {
                if j <= cur || j >= slen {
                    return None;
                }
                let c = s.get_char(j);
                if c == ',' {
                    acc.push(l);
                    cur = j + 1;
                } else if c == ']' {
                    acc.push(l);
                    return Some((acc, j + 1));
                } else {
                    return None;
                }
            },
        }
    }
}

/// Parses a list of timestamps, brackets included.
#[verifier::loop_isolation(false)]
fn parse_times(s: &str, i: usize) -> (r: Option<(Vec<i64>, usize)>)
    ensures
        match r {
            Some((ts, j)) => parse_times_spec(s@, i as int) == Some((ts@, j as int)),
            None => parse_times_spec(s@, i as int) is None,
        },
{
    let slen = s.unicode_len();
    if !(i < slen && s.get_char(i) == '[') {
        return None;
    }
    if i + 1 < slen && s.get_char(i + 1) == ']' {
        let v: Vec<i64> = Vec::new();
        proof {
            assert(v@ =~= Seq::<i64>::empty());
        }
        return Some((v, i + 2));
    }
    let mut acc: Vec<i64> = Vec::new();
    let mut cur: usize = i + 1;
    proof {
        assert(acc@ =~= Seq::<i64>::empty());
    }
    loop
        invariant
            slen == s@.len(),
            i + 1 <= cur <= slen,
            parse_times_items(s@, i + 1, Seq::empty()) == parse_times_items(s@, cur as int, acc@),
        decreases slen - cur,
    {
        match parse_i64(s, cur) {
            None => {
                return None;
            },
            Some((t, j)) => {
                if j <= cur || j >= slen {
                    return None;
                }
                let c = s.get_char(j);
                if c == ',' {
                    acc.push(t);
                    cur = j + 1;
                } else if c == ']' {
                    acc.push(t);
                    return Some((acc, j + 1));
                } else {
                    return None;
                }
            },
        }
    }
}

/// Parses a severity.
fn parse_severity(s: &str, i: usize) -> (r: Option<(Severity, usize)>)
    ensures
        match r {
            Some((sv, j)) => parse_severity_spec(s@, i as int) == Some((sv, j as int)),
            None => parse_severity_spec(s@, i as int) is None,
        },
{
    let _slen = s.unicode_len();
    let e = "\"error\"";
    if match_lit(s, i, e) {
        return Some((Severity::Error, i + e.unicode_len()));
    }
    let w = "\"warning\"";
    if match_lit(s, i, w) {
        return Some((Severity::Warning, i + w.unicode_len()));
    }
    let n = "\"info\"";
    if match_lit(s, i, n) {
        return Some((Severity::Info, i + n.unicode_len()));
    }
    None
}

/// Parses a set of notice options, or the word for their absence.
fn parse_options(s: &str, i: usize) -> (r: Option<(Option<RateLimitNotificationOptions>, usize)>)
    ensures
        match r {
            Some((o, j)) => parse_options_spec(s@, i as int) == Some((o.deep_view(), j as int)),
            None => parse_options_spec(s@, i as int) is None,
        },
{
    let slen = s.unicode_len();
    let nl = "null";
    if match_lit(s, i, nl) {
        return Some((None, i + nl.unicode_len()));
    }
    let h = "{\"metadata\":";
    if !match_lit(s, i, h) {
        return None;
    }
    let i1 = i + h.unicode_len();
    let meta: (Option<String>, usize) = if match_lit(s, i1, nl) {
        (None, i1 + nl.unicode_len())
    } else if i1 < slen && s.get_char(i1) == '"' {
        match parse_string(s, i1 + 1) {
            Some((m, j)) => (Some(m), j),
            None => {
                return None;
            },
        }
    } else {
        return None;
    };
    let (m, j) = meta;
    let sv_lit = ",\"severity\":";
    if !match_lit(s, j, sv_lit) {
        return None;
    }
    let j1 = j + sv_lit.unicode_len();
    let sev: (Option<Severity>, usize) = if match_lit(s, j1, nl) {
        (None, j1 + nl.unicode_len())
    } else {
        match parse_severity(s, j1) {
            Some((sv, k)) => (Some(sv), k),
            None => {
                return None;
            },
        }
    };
    let (sv, k) = sev;
    if k < slen && s.get_char(k) == '}' {
        Some((Some(RateLimitNotificationOptions { metadata: m, severity: sv }), k + 1))
    } else {
        None
    }
}

/// Parses a complete persistence record; the whole text must be one record.
pub fn parse_state(s: &str) -> (r: Option<RateLimit>)
    ensures
        match r {
            Some(rl) => parse_state_spec(s@) == Some(rl@),
            None => parse_state_spec(s@) is None,
        },
{
    let slen = s.unicode_len();
    let h = "{\"persistenceFile\":";
    let hl = h.unicode_len();
    if !(match_lit(s, 0, h) && hl < slen && s.get_char(hl) == '"') {
        return None;
    }
    let file = match parse_string(s, hl + 1) {
        Some(v) => v,
        None => {
            return None;
        },
    };
    let (file, i1) = file;
    let ll = ",\"limits\":";
    if !match_lit(s, i1, ll) {
        return None;
    }
    let ls = match parse_limits(s, i1 + ll.unicode_len()) {
        Some(v) => v,
        None => {
            return None;
        },
    };
    let (ls, i2) = ls;
    let sl = ",\"sentNotifications\":";
    if !match_lit(s, i2, sl) {
        return None;
    }
    let ts = match parse_times(s, i2 + sl.unicode_len()) {
        Some(v) => v,
        None => {
            return None;
        },
    };
    let (ts, i3) = ts;
    let tl = ",\"triggered\":";
    if !match_lit(s, i3, tl) {
        return None;
    }
    let i4 = i3 + tl.unicode_len();
    let tr = "true";
    let fa = "false";
    let trig: (bool, usize) = if match_lit(s, i4, tr) {
        (true, i4 + tr.unicode_len())
    } else if match_lit(s, i4, fa) {
        (false, i4 + fa.unicode_len())
    } else {
        return None;
    };
    let (b, i5) = trig;
    let ol = ",\"notificationOptions\":";
    if !match_lit(s, i5, ol) {
        return None;
    }
    let o = match parse_options(s, i5 + ol.unicode_len()) {
        Some(v) => v,
        None => {
            return None;
        },
    };
    let (o, i6) = o;
    if i6 < slen && s.get_char(i6) == '}' && i6 + 1 == slen {
        Some(
            RateLimit {
                persistence_file: file,
                limits: ls,
                sent_notifications: ts,
                triggered: b,
                notification_options: o,
            },
        )
    } else {
        None
    }
}

} // verus!
