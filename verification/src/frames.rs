//! The outbound subscribe and unsubscribe frames.
//!
//! The supervisor builds these once per channel and hands them to each
//! session; the session only sends them. The exact frame text is specified
//! character by character; members stand in the order the wire shows them.

use vstd::prelude::*;
use vstd::string::*;
use crate::strutil::chars_to_string;

verus! {

/// The escape of one string character: quotes and backslashes are
/// escaped, the named control characters use their short escapes, any
/// other control character is left out, and everything else stands as it
/// is.
pub open spec fn esc_char(c: char) -> Seq<char> {
    if c == '"' {
        seq!['\\', '"']
    } else if c == '\\' {
        seq!['\\', '\\']
    } else if c == '\n' {
        seq!['\\', 'n']
    } else if c == '\r' {
        seq!['\\', 'r']
    } else if c == '\t' {
        seq!['\\', 't']
    } else if c == '\u{8}' {
        seq!['\\', 'b']
    } else if c == '\u{c}' {
        seq!['\\', 'f']
    } else if (c as u32) < 0x20 {
        Seq::empty()
    } else {
        seq![c]
    }
}

/// The escaped body of a JSON string.
pub open spec fn json_escape(s: Seq<char>) -> Seq<char>
    decreases s.len(),
{
    if s.len() == 0 {
        Seq::empty()
    } else {
        esc_char(s[0]) + json_escape(s.drop_first())
    }
}

/// A quoted JSON string: the escaped body between quotes.
pub open spec fn json_quote(s: Seq<char>) -> Seq<char> {
    seq!['"'] + json_escape(s) + seq!['"']
}

/// A JSON array of quoted strings, comma separated.
pub open spec fn json_quote_list(ss: Seq<Seq<char>>) -> Seq<char>
    decreases ss.len(),
{
    if ss.len() == 0 {
        Seq::empty()
    } else if ss.len() == 1 {
        json_quote(ss[0])
    } else {
        json_quote(ss[0]) + seq![','] + json_quote_list(ss.drop_first())
    }
}

fn push_escaped_char(out: &mut Vec<char>, c: char)
    ensures
        final(out)@ == old(out)@ + esc_char(c),
{
    if c == '"' {
        out.push('\\');
        out.push('"');
    } else if c == '\\' {
        out.push('\\');
        out.push('\\');
    } else if c == '\n' {
        out.push('\\');
        out.push('n');
    } else if c == '\r' {
        out.push('\\');
        out.push('r');
    } else if c == '\t' {
        out.push('\\');
        out.push('t');
    } else if c == '\u{8}' {
        out.push('\\');
        out.push('b');
    } else if c == '\u{c}' {
        out.push('\\');
        out.push('f');
    } else if (c as u32) < 0x20 {
    } else {
        out.push(c);
    }
    proof {
        assert(out@ =~= old(out)@ + esc_char(c));
    }
}

/// Appends the quoted form of `s`, as [`json_quote`] says.
#[verifier::loop_isolation(false)]
fn push_quoted(out: &mut Vec<char>, s: &str)
    ensures
        final(out)@ == old(out)@ + json_quote(s@),
{
    out.push('"');
    let n = s.unicode_len();
    let ghost mut done: Seq<char> = Seq::empty();
    proof {
        assert(out@ =~= old(out)@ + seq!['"'] + done);
        assert(json_escape(s@.subrange(0, 0)) =~= Seq::<char>::empty());
    }
    let mut i: usize = 0;
    while i < n
        invariant
            i <= n,
            n == s@.len(),
            done == json_escape(s@.subrange(0, i as int)),
            out@ == old(out)@ + seq!['"'] + done,
        decreases n - i,
    {
        let c = s.get_char(i);
        push_escaped_char(out, c);
        proof {
            lemma_json_escape_snoc(s@, i as int);
            done = done + esc_char(s@[i as int]);
            assert(out@ =~= old(out)@ + seq!['"'] + done);
        }
        i += 1;
    }
    proof {
        assert(s@.subrange(0, n as int) =~= s@);
    }
    out.push('"');
    proof {
        assert(out@ =~= old(out)@ + json_quote(s@));
    }
}

/// Escaping one more character appends its escape.
proof fn lemma_json_escape_snoc(s: Seq<char>, i: int)
    requires
        0 <= i < s.len(),
    ensures
        json_escape(s.subrange(0, i + 1)) == json_escape(s.subrange(0, i)) + esc_char(s[i]),
    decreases i,
{
    if i == 0 {
        let one = s.subrange(0, 1);
        assert(one.len() == 1);
        assert(one[0] == s[0]);
        assert(one.drop_first() =~= s.subrange(0, 0));
        assert(s.subrange(0, 0).len() == 0);
        assert(json_escape(s.subrange(0, 0)) == Seq::<char>::empty());
        assert(json_escape(one) == esc_char(one[0]) + json_escape(one.drop_first()));
        assert(esc_char(s[0]) + Seq::<char>::empty() =~= esc_char(s[0]));
        assert(Seq::<char>::empty() + esc_char(s[0]) =~= esc_char(s[0]));
        assert(json_escape(s.subrange(0, 1)) =~= json_escape(s.subrange(0, 0)) + esc_char(s[0]));
    } else {
        let a = s.subrange(0, i + 1);
        let b = s.subrange(0, i);
        assert(a[0] == s[0] && b[0] == s[0]);
        assert(a.drop_first() =~= s.subrange(1, s.len() as int).subrange(0, i));
        assert(b.drop_first() =~= s.subrange(1, s.len() as int).subrange(0, i - 1));
        let t = s.subrange(1, s.len() as int);
        lemma_json_escape_snoc(t, i - 1);
        assert(t[i - 1] == s[i]);
        assert(esc_char(s[0]) + (json_escape(t.subrange(0, i - 1)) + esc_char(s[i])) =~= (esc_char(
            s[0],
        ) + json_escape(t.subrange(0, i - 1))) + esc_char(s[i]));
        assert(json_escape(s.subrange(0, i + 1)) =~= json_escape(s.subrange(0, i)) + esc_char(
            s[i],
        ));
    }
}

/// Appends a literal's characters.
#[verifier::loop_isolation(false)]
fn push_lit(out: &mut Vec<char>, lit: &str)
    ensures
        final(out)@ == old(out)@ + lit@,
{
    let n = lit.unicode_len();
    let mut i: usize = 0;
    while i < n
        invariant
            i <= n,
            n == lit@.len(),
            out@ == old(out)@ + lit@.subrange(0, i as int),
        decreases n - i,
    {
        out.push(lit.get_char(i));
        i += 1;
        assert(out@ =~= old(out)@ + lit@.subrange(0, i as int));
    }
    assert(lit@.subrange(0, n as int) =~= lit@);
}

/// Appends the quoted symbol list, as [`json_quote_list`] says.
#[verifier::loop_isolation(false)]
#[verifier::rlimit(60)]
fn push_symbol_list(out: &mut Vec<char>, symbols: &Vec<String>)
    ensures
        final(out)@ == old(out)@ + json_quote_list(
            Seq::new(symbols@.len(), |i: int| symbols@[i]@),
        ),
{
    let ghost ss = Seq::new(symbols@.len(), |i: int| symbols@[i]@);
    let mut i: usize = 0;
    proof {
        assert(ss.subrange(0, ss.len() as int) =~= ss);
    }
    let ghost mut done: Seq<char> = Seq::empty();
    proof {
        assert(out@ =~= old(out)@ + done);
    }
    while i < symbols.len()
        invariant
            i <= symbols@.len(),
            ss == Seq::new(symbols@.len(), |k: int| symbols@[k]@),
            out@ == old(out)@ + done,
            json_quote_list(ss) == done + json_quote_list(
                ss.subrange(i as int, ss.len() as int),
            ),
        decreases symbols@.len() - i,
    {
        let ghost suffix = ss.subrange(i as int, ss.len() as int);
        proof {
            assert(suffix[0] == ss[i as int]);
            assert(ss[i as int] == symbols@[i as int]@);
        }
        push_quoted(out, symbols[i].as_str());
        if i + 1 < symbols.len() {
            out.push(',');
            proof {
                assert(suffix.len() > 1);
                assert(suffix.drop_first() =~= ss.subrange(i as int + 1, ss.len() as int));
                assert(done + (json_quote(suffix[0]) + seq![','] + json_quote_list(
                    suffix.drop_first(),
                )) =~= (done + json_quote(suffix[0]) + seq![',']) + json_quote_list(
                    suffix.drop_first(),
                ));
                done = done + json_quote(suffix[0]) + seq![','];
                assert(out@ =~= old(out)@ + done);
            }
        } else {
            proof {
                assert(suffix.len() == 1);
                assert(json_quote_list(suffix) == json_quote(suffix[0]));
                assert(suffix.drop_first() =~= ss.subrange(i as int + 1, ss.len() as int));
                assert(ss.subrange(i as int + 1, ss.len() as int).len() == 0);
                done = done + json_quote(suffix[0]);
                assert(out@ =~= old(out)@ + done);
            }
        }
        i += 1;
    }
    proof {
        if ss.len() == 0 {
            assert(json_quote_list(ss) =~= done + json_quote_list(ss));
        }
        assert(ss.subrange(symbols@.len() as int, ss.len() as int).len() == 0);
        assert(json_quote_list(ss) =~= done);
    }
}

/// The Level-3 subscribe frame: channel, a depth of ten, an initial
/// snapshot, the symbols, and the session token.
pub open spec fn spec_l3_subscribe_frame(
    channel: Seq<char>,
    symbols: Seq<Seq<char>>,
    token: Seq<char>,
) -> Seq<char> {
    "{\"method\":\"subscribe\",\"params\":{\"channel\":"@ + json_quote(channel)
        + ",\"depth\":10,\"snapshot\":true,\"symbol\":["@ + json_quote_list(symbols)
        + "],\"token\":"@ + json_quote(token) + "}}"@
}

/// The Level-3 unsubscribe frame: channel, the symbols, and the token.
pub open spec fn spec_l3_unsubscribe_frame(
    channel: Seq<char>,
    symbols: Seq<Seq<char>>,
    token: Seq<char>,
) -> Seq<char> {
    "{\"method\":\"unsubscribe\",\"params\":{\"channel\":"@ + json_quote(channel)
        + ",\"symbol\":["@ + json_quote_list(symbols) + "],\"token\":"@ + json_quote(token)
        + "}}"@
}

/// The trade subscribe frame: channel, an initial snapshot, the symbols.
pub open spec fn spec_trade_subscribe_frame(
    channel: Seq<char>,
    symbols: Seq<Seq<char>>,
) -> Seq<char> {
    "{\"method\":\"subscribe\",\"params\":{\"channel\":"@ + json_quote(channel)
        + ",\"snapshot\":true,\"symbol\":["@ + json_quote_list(symbols) + "]}}"@
}

/// The trade unsubscribe frame: channel, the snapshot flag, the symbols.
pub open spec fn spec_trade_unsubscribe_frame(
    channel: Seq<char>,
    symbols: Seq<Seq<char>>,
) -> Seq<char> {
    "{\"method\":\"unsubscribe\",\"params\":{\"channel\":"@ + json_quote(channel)
        + ",\"snapshot\":true,\"symbol\":["@ + json_quote_list(symbols) + "]}}"@
}

/// Builds the Level-3 subscribe frame, exactly as
/// [`spec_l3_subscribe_frame`] says.
pub fn build_l3_subscribe(channel: &str, symbols: &Vec<String>, token: &str) -> (r: String)
    ensures
        r@ == spec_l3_subscribe_frame(
            channel@,
            Seq::new(symbols@.len(), |i: int| symbols@[i]@),
            token@,
        ),
{
    let mut out: Vec<char> = Vec::new();
    push_lit(&mut out, "{\"method\":\"subscribe\",\"params\":{\"channel\":");
    push_quoted(&mut out, channel);
    push_lit(&mut out, ",\"depth\":10,\"snapshot\":true,\"symbol\":[");
    push_symbol_list(&mut out, symbols);
    push_lit(&mut out, "],\"token\":");
    push_quoted(&mut out, token);
    push_lit(&mut out, "}}");
    proof {
        assert(out@ =~= spec_l3_subscribe_frame(
            channel@,
            Seq::new(symbols@.len(), |i: int| symbols@[i]@),
            token@,
        ));
    }
    chars_to_string(&out)
}

/// Builds the Level-3 unsubscribe frame, exactly as
/// [`spec_l3_unsubscribe_frame`] says.
pub fn build_l3_unsubscribe(channel: &str, symbols: &Vec<String>, token: &str) -> (r: String)
    ensures
        r@ == spec_l3_unsubscribe_frame(
            channel@,
            Seq::new(symbols@.len(), |i: int| symbols@[i]@),
            token@,
        ),
{
    let mut out: Vec<char> = Vec::new();
    push_lit(&mut out, "{\"method\":\"unsubscribe\",\"params\":{\"channel\":");
    push_quoted(&mut out, channel);
    push_lit(&mut out, ",\"symbol\":[");
    push_symbol_list(&mut out, symbols);
    push_lit(&mut out, "],\"token\":");
    push_quoted(&mut out, token);
    push_lit(&mut out, "}}");
    proof {
        assert(out@ =~= spec_l3_unsubscribe_frame(
            channel@,
            Seq::new(symbols@.len(), |i: int| symbols@[i]@),
            token@,
        ));
    }
    chars_to_string(&out)
}

/// Builds the trade subscribe frame, exactly as
/// [`spec_trade_subscribe_frame`] says.
pub fn build_trade_subscribe(channel: &str, symbols: &Vec<String>) -> (r: String)
    ensures
        r@ == spec_trade_subscribe_frame(
            channel@,
            Seq::new(symbols@.len(), |i: int| symbols@[i]@),
        ),
{
    let mut out: Vec<char> = Vec::new();
    push_lit(&mut out, "{\"method\":\"subscribe\",\"params\":{\"channel\":");
    push_quoted(&mut out, channel);
    push_lit(&mut out, ",\"snapshot\":true,\"symbol\":[");
    push_symbol_list(&mut out, symbols);
    push_lit(&mut out, "]}}");
    proof {
        assert(out@ =~= spec_trade_subscribe_frame(
            channel@,
            Seq::new(symbols@.len(), |i: int| symbols@[i]@),
        ));
    }
    chars_to_string(&out)
}

/// Builds the trade unsubscribe frame, exactly as
/// [`spec_trade_unsubscribe_frame`] says.
pub fn build_trade_unsubscribe(channel: &str, symbols: &Vec<String>) -> (r: String)
    ensures
        r@ == spec_trade_unsubscribe_frame(
            channel@,
            Seq::new(symbols@.len(), |i: int| symbols@[i]@),
        ),
{
    let mut out: Vec<char> = Vec::new();
    push_lit(&mut out, "{\"method\":\"unsubscribe\",\"params\":{\"channel\":");
    push_quoted(&mut out, channel);
    push_lit(&mut out, ",\"snapshot\":true,\"symbol\":[");
    push_symbol_list(&mut out, symbols);
    push_lit(&mut out, "]}}");
    proof {
        assert(out@ =~= spec_trade_unsubscribe_frame(
            channel@,
            Seq::new(symbols@.len(), |i: int| symbols@[i]@),
        ));
    }
    chars_to_string(&out)
}

} // verus!
