//! The on-disk wallet store text.
//!
//! The store is a JSON object with one `wallets` field mapping each wallet
//! name to an object with `private_key` and `public_key` fields.
//! `render_store` emits one canonical spelling — compact, fields in that
//! order, strings escaped as in `jsonfmt` — given exactly by
//! `render_store_spec`.  `parse_store` accepts the format in general:
//! insignificant whitespace between tokens, the two key fields in either
//! order, and every standard JSON string escape in names and values (the
//! three field names themselves are spelled plainly).  Reading and writing
//! the file is the caller's: the library only fixes what the bytes mean.

use vstd::prelude::*;
use vstd::string::StringExecFns;

use crate::errors::WalletError;
use crate::jsonfmt::{
    json_escape, lemma_parse_escaped, parse_string_from, parse_string_spec,
};
use crate::models::{entries_view, store_wf, KeyPair, KeyPairView, StoreView, Wallets};
use crate::strutil::{push_char, str_chars};

verus! {

/// The opening of the store object, up to the first entry.
pub open spec fn lit_store_open() -> Seq<char> {
    seq!['{', '"', 'w', 'a', 'l', 'l', 'e', 't', 's', '"', ':', '{']
}

/// Between a name's closing quote and its private key's opening quote.
pub open spec fn lit_name_sep() -> Seq<char> {
    seq![':', '{', '"', 'p', 'r', 'i', 'v', 'a', 't', 'e', '_', 'k', 'e', 'y', '"', ':', '"']
}

/// Between the private key's closing quote and the public key's opening
/// quote.
pub open spec fn lit_key_sep() -> Seq<char> {
    seq![',', '"', 'p', 'u', 'b', 'l', 'i', 'c', '_', 'k', 'e', 'y', '"', ':', '"']
}

/// The quoted field names, spelled plainly.
pub open spec fn quoted_wallets() -> Seq<char> {
    seq!['"', 'w', 'a', 'l', 'l', 'e', 't', 's', '"']
}

pub open spec fn quoted_priv_key() -> Seq<char> {
    seq!['"', 'p', 'r', 'i', 'v', 'a', 't', 'e', '_', 'k', 'e', 'y', '"']
}

pub open spec fn quoted_pub_key() -> Seq<char> {
    seq!['"', 'p', 'u', 'b', 'l', 'i', 'c', '_', 'k', 'e', 'y', '"']
}

/// The canonical text of one entry: the quoted name, then its two quoted
/// keys, private first.
pub open spec fn entry_spec(name: Seq<char>, kp: KeyPairView) -> Seq<char> {
    seq!['"'] + json_escape(name) + seq!['"'] + lit_name_sep() + json_escape(kp.private_key)
        + seq!['"'] + lit_key_sep() + json_escape(kp.public_key) + seq!['"', '}']
}

/// The canonical text of all entries, comma-separated.
pub open spec fn entries_spec(w: StoreView) -> Seq<char>
    decreases w.len(),
{
    if w.len() == 0 {
        Seq::empty()
    } else if w.len() == 1 {
        entry_spec(w[0].0, w[0].1)
    } else {
        entry_spec(w[0].0, w[0].1) + seq![','] + entries_spec(w.drop_first())
    }
}

/// The full canonical store text.
pub open spec fn render_store_spec(w: StoreView) -> Seq<char> {
    lit_store_open() + entries_spec(w) + seq!['}', '}']
}

/// JSON's insignificant whitespace.
pub open spec fn is_json_ws(c: char) -> bool {
    c == ' ' || c == '\t' || c == '\n' || c == '\r'
}

/// `s` with its leading whitespace dropped.
pub open spec fn skip_ws_spec(s: Seq<char>) -> Seq<char>
    decreases s.len(),
{
    if s.len() > 0 && is_json_ws(s[0]) {
        skip_ws_spec(s.drop_first())
    } else {
        s
    }
}

/// A text that does not start with whitespace keeps itself.
pub proof fn lemma_skip_ws_id(s: Seq<char>)
    requires
        s.len() == 0 || !is_json_ws(s[0]),
    ensures
        skip_ws_spec(s) == s,
{
}

/// Consumes the exact prefix `lit`, yielding what follows.
pub open spec fn expect_spec(s: Seq<char>, lit: Seq<char>) -> Option<Seq<char>> {
    if s.len() >= lit.len() && s.take(lit.len() as int) == lit {
        Some(s.skip(lit.len() as int))
    } else {
        None
    }
}

/// Consumes whitespace, then the exact token `lit`.
pub open spec fn expect_lit_spec(s: Seq<char>, lit: Seq<char>) -> Option<Seq<char>> {
    expect_spec(skip_ws_spec(s), lit)
}

/// Consumes whitespace, an opening quote, and a string body.
pub open spec fn parse_quoted_spec(s: Seq<char>) -> Option<(Seq<char>, Seq<char>)> {
    let t = skip_ws_spec(s);
    if t.len() > 0 && t[0] == '"' {
        parse_string_spec(t.drop_first())
    } else {
        None
    }
}

/// Parses `: value , "<second>" : value }` — an entry's tail after its
/// first field name.
pub open spec fn parse_fields_after_key(s: Seq<char>, second: Seq<char>) -> Option<
    ((Seq<char>, Seq<char>), Seq<char>),
> {
    match expect_lit_spec(s, seq![':']) {
        None => None,
        Some(r1) => match parse_quoted_spec(r1) {
            None => None,
            Some(v1) => match expect_lit_spec(v1.1, seq![',']) {
                None => None,
                Some(r2) => match expect_lit_spec(r2, second) {
                    None => None,
                    Some(r3) => match expect_lit_spec(r3, seq![':']) {
                        None => None,
                        Some(r4) => match parse_quoted_spec(r4) {
                            None => None,
                            Some(v2) => match expect_lit_spec(v2.1, seq!['}']) {
                                None => None,
                                Some(r5) => Some(((v1.0, v2.0), r5)),
                            },
                        },
                    },
                },
            },
        },
    }
}

/// Parses an entry's field object, accepting the two fields in either
/// order.
pub open spec fn parse_entry_fields(s: Seq<char>) -> Option<(KeyPairView, Seq<char>)> {
    match expect_lit_spec(s, quoted_priv_key()) {
        Some(r) => match parse_fields_after_key(r, quoted_pub_key()) {
            None => None,
            Some(p) => Some(
                (KeyPairView { private_key: (p.0).0, public_key: (p.0).1 }, p.1),
            ),
        },
        None => match expect_lit_spec(s, quoted_pub_key()) {
            None => None,
            Some(r) => match parse_fields_after_key(r, quoted_priv_key()) {
                None => None,
                Some(p) => Some(
                    (KeyPairView { private_key: (p.0).1, public_key: (p.0).0 }, p.1),
                ),
            },
        },
    }
}

/// Parses one entry off the front of `s`: its quoted name, a colon, and
/// its field object.
pub open spec fn parse_entry_spec(s: Seq<char>) -> Option<((Seq<char>, KeyPairView), Seq<char>)> {
    match parse_quoted_spec(s) {
        None => None,
        Some(pn) => match expect_lit_spec(pn.1, seq![':']) {
            None => None,
            Some(r1) => match expect_lit_spec(r1, seq!['{']) {
                None => None,
                Some(r2) => match parse_entry_fields(r2) {
                    None => None,
                    Some(pf) => Some(((pn.0, pf.0), pf.1)),
                },
            },
        },
    }
}

/// Parses one or more comma-separated entries and the closing brace.  The
/// length guards only serve termination: every parsed piece consumes at
/// least one character.
pub open spec fn parse_entry_list(s: Seq<char>) -> Option<(StoreView, Seq<char>)>
    decreases s.len(),
{
    match parse_entry_spec(s) {
        None => None,
        Some(pe) => {
            let r = pe.1;
            if r.len() >= s.len() {
                None
            } else {
                match expect_lit_spec(r, seq!['}']) {
                    Some(r2) => Some((seq![pe.0], r2)),
                    None => match expect_lit_spec(r, seq![',']) {
                        None => None,
                        Some(r2) => if r2.len() < s.len() {
                            match parse_entry_list(r2) {
                                None => None,
                                Some(pm) => Some((seq![pe.0] + pm.0, pm.1)),
                            }
                        } else {
                            None
                        },
                    },
                }
            }
        },
    }
}

/// Parses the inside of the `wallets` object, including its closing brace.
pub open spec fn parse_entries_spec(s: Seq<char>) -> Option<(StoreView, Seq<char>)> {
    match expect_lit_spec(s, seq!['}']) {
        Some(r) => Some((Seq::empty(), r)),
        None => parse_entry_list(s),
    }
}

/// Parses a full store text: the one `wallets` field, its entries, the
/// closing braces, and nothing but whitespace around them.
pub open spec fn parse_store_spec(s: Seq<char>) -> Option<StoreView> {
    match expect_lit_spec(s, seq!['{']) {
        None => None,
        Some(r0) => match expect_lit_spec(r0, quoted_wallets()) {
            None => None,
            Some(r1) => match expect_lit_spec(r1, seq![':']) {
                None => None,
                Some(r2) => match expect_lit_spec(r2, seq!['{']) {
                    None => None,
                    Some(r3) => match parse_entries_spec(r3) {
                        None => None,
                        Some(pw) => match expect_lit_spec(pw.1, seq!['}']) {
                            None => None,
                            Some(r4) => if skip_ws_spec(r4).len() == 0 {
                                Some(pw.0)
                            } else {
                                None
                            },
                        },
                    },
                },
            },
        },
    }
}

/// A prefix already parsed, prepended onto what a later parse yields.
pub open spec fn prepend_entries(acc: StoreView, o: Option<(StoreView, Seq<char>)>) -> Option<
    (StoreView, Seq<char>),
> {
    match o {
        Some(p) => Some((acc + p.0, p.1)),
        None => None,
    }
}

/// Consuming a token off a text that starts with it leaves the rest.
pub proof fn lemma_expect_lit(lit: Seq<char>, rest: Seq<char>)
    requires
        lit.len() > 0,
        !is_json_ws(lit[0]),
    ensures
        expect_lit_spec(lit + rest, lit) == Some(rest),
{
    let s = lit + rest;
    assert(s[0] == lit[0]);
    lemma_skip_ws_id(s);
    assert(s.take(lit.len() as int) =~= lit);
    assert(s.skip(lit.len() as int) =~= rest);
}

/// Parsing reads a plainly-quoted escaped text back exactly.
pub proof fn lemma_parse_quoted_exact(v: Seq<char>, rest: Seq<char>)
    ensures
        parse_quoted_spec(seq!['"'] + json_escape(v) + seq!['"'] + rest) == Some((v, rest)),
{
    let s = seq!['"'] + json_escape(v) + seq!['"'] + rest;
    assert(s[0] == '"');
    lemma_skip_ws_id(s);
    assert(s.drop_first() =~= json_escape(v) + seq!['"'] + rest);
    lemma_parse_escaped(v, rest);
}

/// Parsing reads a rendered entry back exactly, whatever follows it.
#[verifier::rlimit(60)]
pub proof fn lemma_parse_entry_roundtrip(name: Seq<char>, kp: KeyPairView, rest: Seq<char>)
    ensures
        parse_entry_spec(entry_spec(name, kp) + rest) == Some(((name, kp), rest)),
{
    let r9 = seq!['}'] + rest;
    let r8 = seq!['"'] + json_escape(kp.public_key) + seq!['"'] + r9;
    let r7 = seq![':'] + r8;
    let r6 = quoted_pub_key() + r7;
    let r5 = seq![','] + r6;
    let r4 = seq!['"'] + json_escape(kp.private_key) + seq!['"'] + r5;
    let r3 = seq![':'] + r4;
    let r2 = quoted_priv_key() + r3;
    let r1 = seq!['{'] + r2;
    let r0 = seq![':'] + r1;
    let s = seq!['"'] + json_escape(name) + seq!['"'] + r0;
    assert(entry_spec(name, kp) + rest =~= s);
    lemma_parse_quoted_exact(name, r0);
    lemma_expect_lit(seq![':'], r1);
    lemma_expect_lit(seq!['{'], r2);
    lemma_expect_lit(quoted_priv_key(), r3);
    lemma_expect_lit(seq![':'], r4);
    lemma_parse_quoted_exact(kp.private_key, r5);
    lemma_expect_lit(seq![','], r6);
    lemma_expect_lit(quoted_pub_key(), r7);
    lemma_expect_lit(seq![':'], r8);
    lemma_parse_quoted_exact(kp.public_key, r9);
    lemma_expect_lit(seq!['}'], rest);
}

/// An entry's text is never empty.
pub proof fn lemma_entry_nonempty(name: Seq<char>, kp: KeyPairView)
    ensures
        entry_spec(name, kp).len() > 0,
        entry_spec(name, kp)[0] == '"',
{
}

/// Parsing reads rendered entries back exactly, up to their closing brace.
#[verifier::rlimit(80)]
pub proof fn lemma_entries_roundtrip(w: StoreView, rest: Seq<char>)
    ensures
        parse_entries_spec(entries_spec(w) + seq!['}'] + rest) == Some((w, rest)),
    decreases w.len(),
{
    let s = entries_spec(w) + seq!['}'] + rest;
    if w.len() == 0 {
        assert(s =~= seq!['}'] + rest);
        lemma_expect_lit(seq!['}'], rest);
        assert((parse_entries_spec(s)->0).0 =~= w);
    } else {
        let e = w[0];
        lemma_entry_nonempty(e.0, e.1);
        assert(s[0] == '"');
        lemma_skip_ws_id(s);
        assert(s.take(1)[0] == '"');
        assert(expect_lit_spec(s, seq!['}']) is None);
        if w.len() == 1 {
            let r = seq!['}'] + rest;
            assert(s =~= entry_spec(e.0, e.1) + r);
            lemma_parse_entry_roundtrip(e.0, e.1, r);
            assert(r.len() < s.len());
            lemma_expect_lit(seq!['}'], rest);
            assert(seq![(e.0, e.1)] =~= w);
            assert(parse_entry_list(s) == Some((w, rest)));
        } else {
            let wd = w.drop_first();
            let inner = entries_spec(wd) + seq!['}'] + rest;
            let r = seq![','] + inner;
            assert(entries_spec(w) == entry_spec(e.0, e.1) + seq![','] + entries_spec(wd));
            assert(s =~= entry_spec(e.0, e.1) + r);
            lemma_parse_entry_roundtrip(e.0, e.1, r);
            assert(r.len() < s.len());
            lemma_skip_ws_id(r);
            assert(r.take(1)[0] == ',');
            assert(expect_lit_spec(r, seq!['}']) is None);
            lemma_expect_lit(seq![','], inner);
            assert(inner.len() < s.len());
            lemma_entries_roundtrip(wd, rest);
            lemma_entry_nonempty(wd[0].0, wd[0].1);
            assert(entries_spec(wd)[0] == '"');
            assert(inner[0] == '"');
            lemma_skip_ws_id(inner);
            assert(inner.take(1)[0] == '"');
            assert(expect_lit_spec(inner, seq!['}']) is None);
            assert(parse_entry_list(inner) == Some((wd, rest)));
            assert(seq![(e.0, e.1)] + wd =~= w);
            assert(parse_entry_list(s) == Some((w, rest)));
        }
    }
}

/// Round trip: the rendered text of any store parses back to exactly that
/// store.  Saving and reloading through these functions reproduces an
/// identical name-to-key-pair mapping.
pub proof fn lemma_store_roundtrip(w: StoreView)
    ensures
        parse_store_spec(render_store_spec(w)) == Some(w),
{
    let r3 = entries_spec(w) + seq!['}'] + seq!['}'];
    let r2 = seq!['{'] + r3;
    let r1 = seq![':'] + r2;
    let r0 = quoted_wallets() + r1;
    let s = seq!['{'] + r0;
    assert(render_store_spec(w) =~= s);
    lemma_expect_lit(seq!['{'], r0);
    lemma_expect_lit(quoted_wallets(), r1);
    lemma_expect_lit(seq![':'], r2);
    lemma_expect_lit(seq!['{'], r3);
    lemma_entries_roundtrip(w, seq!['}']);
    assert(seq!['}'] + Seq::<char>::empty() =~= seq!['}']);
    lemma_expect_lit(seq!['}'], Seq::<char>::empty());
    lemma_skip_ws_id(Seq::<char>::empty());
}

/// Appending one more entry to rendered entries.
proof fn lemma_entries_snoc(w: StoreView, i: int)
    requires
        0 <= i < w.len(),
    ensures
        entries_spec(w.take(i + 1)) == if i == 0 {
            entry_spec(w[0].0, w[0].1)
        } else {
            entries_spec(w.take(i)) + seq![','] + entry_spec(w[i].0, w[i].1)
        },
    decreases i,
{
    if i == 0 {
        assert(w.take(1) =~= seq![w[0]]);
        assert(entries_spec(seq![w[0]]) == entry_spec(w[0].0, w[0].1));
    } else {
        let wd = w.drop_first();
        lemma_entries_snoc(wd, i - 1);
        assert(w.take(i + 1).drop_first() =~= wd.take(i));
        assert(w.take(i + 1)[0] == w[0]);
        assert(w.take(i + 1).len() == i + 1);
        assert(entries_spec(w.take(i + 1)) == entry_spec(w[0].0, w[0].1) + seq![',']
            + entries_spec(wd.take(i)));
        assert(wd[i - 1] == w[i]);
        if i == 1 {
            assert(wd.take(1) =~= seq![wd[0]]);
            assert(entries_spec(wd.take(1)) == entry_spec(wd[0].0, wd[0].1));
            assert(w.take(1) =~= seq![w[0]]);
            assert(entries_spec(w.take(1)) == entry_spec(w[0].0, w[0].1));
            assert(entries_spec(w.take(2)) =~= entries_spec(w.take(1)) + seq![',']
                + entry_spec(w[1].0, w[1].1));
        } else {
            assert(w.take(i).drop_first() =~= wd.take(i - 1));
            assert(w.take(i)[0] == w[0]);
            assert(w.take(i).len() == i);
            assert(entries_spec(w.take(i)) == entry_spec(w[0].0, w[0].1) + seq![',']
                + entries_spec(wd.take(i - 1)));
            assert(entries_spec(w.take(i + 1)) =~= entries_spec(w.take(i)) + seq![',']
                + entry_spec(w[i].0, w[i].1));
        }
    }
}

impl Wallets {
    /// The store's canonical text, exactly `render_store_spec` of its
    /// value.
    pub fn render_store(&self) -> (r: String)
        ensures
            r@ == render_store_spec(self@),
    {
        let mut out = String::new();
        out.append("{\"wallets\":{");
        proof {
            reveal_strlit("{\"wallets\":{");
            assert(out@ =~= lit_store_open() + entries_spec(self@.take(0)));
        }
        let n = self.wallets.len();
        let mut i: usize = 0;
        while i < n
            invariant
                n == self.wallets.len(),
                i <= n,
                out@ == lit_store_open() + entries_spec(self@.take(i as int)),
            decreases n - i,
        {
            if i > 0 {
                push_char(&mut out, ',');
            }
            push_char(&mut out, '"');
            crate::jsonfmt::append_escaped(&mut out, self.wallets[i].0.as_str());
            out.append("\":{\"private_key\":\"");
            crate::jsonfmt::append_escaped(&mut out, self.wallets[i].1.private_key.as_str());
            out.append("\",\"public_key\":\"");
            crate::jsonfmt::append_escaped(&mut out, self.wallets[i].1.public_key.as_str());
            out.append("\"}");
            proof {
                reveal_strlit("\":{\"private_key\":\"");
                reveal_strlit("\",\"public_key\":\"");
                reveal_strlit("\"}");
                assert(("\":{\"private_key\":\"")@ =~= seq!['"'] + lit_name_sep());
                assert(("\",\"public_key\":\"")@ =~= seq!['"'] + lit_key_sep());
                assert(("\"}")@ =~= seq!['"', '}']);
                lemma_entries_snoc(self@, i as int);
                assert(self@[i as int].0 == self.wallets@[i as int].0@);
                assert(self@[i as int].1 == self.wallets@[i as int].1@);
                assert(out@ =~= lit_store_open() + entries_spec(self@.take(i + 1)));
            }
            i += 1;
        }
        out.append("}}");
        proof {
            reveal_strlit("}}");
            assert(self@.take(n as int) =~= self@);
            assert(("}}")@ =~= seq!['}', '}']);
            assert(out@ =~= render_store_spec(self@));
        }
        out
    }
}

/// Advances past insignificant whitespace.
fn skip_ws_from(v: &Vec<char>, j: usize) -> (r: usize)
    requires
        j <= v@.len(),
    ensures
        j <= r <= v@.len(),
        v@.skip(r as int) == skip_ws_spec(v@.skip(j as int)),
{
    let n = v.len();
    let mut i = j;
    while i < n && (v[i] == ' ' || v[i] == '\t' || v[i] == '\n' || v[i] == '\r')
        invariant
            j <= i <= n,
            n == v@.len(),
            skip_ws_spec(v@.skip(j as int)) == skip_ws_spec(v@.skip(i as int)),
        decreases n - i,
    {
        proof {
            assert(v@.skip(i as int)[0] == v@[i as int]);
            assert(is_json_ws(v@[i as int]));
            assert(v@.skip(i as int).drop_first() =~= v@.skip(i + 1));
        }
        i += 1;
    }
    proof {
        if i < n {
            assert(v@.skip(i as int)[0] == v@[i as int]);
            assert(!is_json_ws(v@.skip(i as int)[0]));
        }
        lemma_skip_ws_id(v@.skip(i as int));
    }
    i
}

/// Consumes the exact literal `lit` at position `j` (no whitespace
/// handling), yielding the position just past it.
fn expect_chars(v: &Vec<char>, j: usize, lit: &str) -> (r: Option<usize>)
    requires
        j <= v@.len(),
    ensures
        r is None ==> expect_spec(v@.skip(j as int), lit@) is None,
        r is Some ==> {
            &&& j <= r->0 <= v@.len()
            &&& expect_spec(v@.skip(j as int), lit@) == Some(v@.skip(r->0 as int))
            &&& r->0 - j == lit@.len()
        },
{
    let lc = str_chars(lit);
    let m = lc.len();
    let n = v.len();
    if n - j < m {
        proof {
            assert(v@.skip(j as int).len() < lit@.len());
        }
        return None;
    }
    let mut k: usize = 0;
    while k < m
        invariant
            n == v@.len(),
            j <= n,
            m == lc@.len(),
            lc@ == lit@,
            n - j >= m,
            k <= m,
            forall|t: int| 0 <= t < k ==> v@[j + t] == lit@[t],
        decreases m - k,
    {
        if v[j + k] != lc[k] {
            proof {
                assert(v@.skip(j as int).take(lit@.len() as int)[k as int] != lit@[k as int]);
                assert(v@.skip(j as int).take(lit@.len() as int) != lit@);
            }
            return None;
        }
        k += 1;
    }
    proof {
        assert(v@.skip(j as int).take(lit@.len() as int) =~= lit@);
        assert(v@.skip(j as int).skip(lit@.len() as int) =~= v@.skip(j + lit@.len()));
    }
    Some(j + m)
}

/// Consumes whitespace and then the exact token `lit`.
fn expect_lit_from(v: &Vec<char>, j: usize, lit: &str) -> (r: Option<usize>)
    requires
        j <= v@.len(),
    ensures
        r is None ==> expect_lit_spec(v@.skip(j as int), lit@) is None,
        r is Some ==> {
            &&& j <= r->0 <= v@.len()
            &&& expect_lit_spec(v@.skip(j as int), lit@) == Some(v@.skip(r->0 as int))
            &&& lit@.len() > 0 ==> j < r->0
        },
{
    let j1 = skip_ws_from(v, j);
    expect_chars(v, j1, lit)
}

/// Consumes whitespace, an opening quote, and a string body, yielding the
/// decoded text and the position just past the closing quote.
fn parse_quoted_from(v: &Vec<char>, j: usize) -> (r: Option<(String, usize)>)
    requires
        j <= v@.len(),
    ensures
        r is None ==> parse_quoted_spec(v@.skip(j as int)) is None,
        r is Some ==> ({
            let j2 = (r->0).1;
            &&& j < j2 <= v@.len()
            &&& parse_quoted_spec(v@.skip(j as int)) == Some(((r->0).0@, v@.skip(j2 as int)))
        }),
{
    let j1 = skip_ws_from(v, j);
    if j1 >= v.len() {
        proof {
            assert(skip_ws_spec(v@.skip(j as int)).len() == 0);
        }
        return None;
    }
    if v[j1] != '"' {
        proof {
            assert(skip_ws_spec(v@.skip(j as int))[0] != '"');
        }
        return None;
    }
    proof {
        assert(skip_ws_spec(v@.skip(j as int))[0] == '"');
        assert(skip_ws_spec(v@.skip(j as int)).drop_first() =~= v@.skip(j1 + 1));
    }
    parse_string_from(v, j1 + 1)
}

/// Parses `: value , "<second>" : value }` at position `j`.
fn parse_fields_tail_from(v: &Vec<char>, j: usize, second: &str) -> (r: Option<
    ((String, String), usize),
>)
    requires
        j <= v@.len(),
    ensures
        r is None ==> parse_fields_after_key(v@.skip(j as int), second@) is None,
        r is Some ==> ({
            let vals = (r->0).0;
            let j2 = (r->0).1;
            &&& j <= j2 <= v@.len()
            &&& parse_fields_after_key(v@.skip(j as int), second@) == Some(
                ((vals.0@, vals.1@), v@.skip(j2 as int)),
            )
        }),
{
    let r1 = match expect_lit_from(v, j, ":") {
        None => {
            proof {
                reveal_strlit(":");
                assert((":")@ =~= seq![':']);
            }
            return None;
        },
        Some(p) => p,
    };
    proof {
        reveal_strlit(":");
        assert((":")@ =~= seq![':']);
    }
    let v1 = match parse_quoted_from(v, r1) {
        None => return None,
        Some(p) => p,
    };
    let r2 = match expect_lit_from(v, v1.1, ",") {
        None => {
            proof {
                reveal_strlit(",");
                assert((",")@ =~= seq![',']);
            }
            return None;
        },
        Some(p) => p,
    };
    proof {
        reveal_strlit(",");
        assert((",")@ =~= seq![',']);
    }
    let r3 = match expect_lit_from(v, r2, second) {
        None => return None,
        Some(p) => p,
    };
    let r4 = match expect_lit_from(v, r3, ":") {
        None => {
            proof {
                reveal_strlit(":");
                assert((":")@ =~= seq![':']);
            }
            return None;
        },
        Some(p) => p,
    };
    proof {
        reveal_strlit(":");
        assert((":")@ =~= seq![':']);
    }
    let v2 = match parse_quoted_from(v, r4) {
        None => return None,
        Some(p) => p,
    };
    let r5 = match expect_lit_from(v, v2.1, "}") {
        None => {
            proof {
                reveal_strlit("}");
                assert(("}")@ =~= seq!['}']);
            }
            return None;
        },
        Some(p) => p,
    };
    proof {
        reveal_strlit("}");
        assert(("}")@ =~= seq!['}']);
    }
    Some(((v1.0, v2.0), r5))
}

/// Parses one entry at position `j`, yielding its owned value and the
/// position just past it.
fn parse_entry_from(v: &Vec<char>, j: usize) -> (r: Option<((String, KeyPair), usize)>)
    requires
        j <= v@.len(),
    ensures
        r is None ==> parse_entry_spec(v@.skip(j as int)) is None,
        r is Some ==> ({
            let pair = (r->0).0;
            let j2 = (r->0).1;
            &&& j < j2 <= v@.len()
            &&& parse_entry_spec(v@.skip(j as int)) == Some(
                ((pair.0@, pair.1@), v@.skip(j2 as int)),
            )
        }),
{
    let pn = match parse_quoted_from(v, j) {
        None => return None,
        Some(p) => p,
    };
    let name = pn.0;
    let r1 = match expect_lit_from(v, pn.1, ":") {
        None => {
            proof {
                reveal_strlit(":");
                assert((":")@ =~= seq![':']);
            }
            return None;
        },
        Some(p) => p,
    };
    proof {
        reveal_strlit(":");
        assert((":")@ =~= seq![':']);
    }
    let r2 = match expect_lit_from(v, r1, "{") {
        None => {
            proof {
                reveal_strlit("{");
                assert(("{")@ =~= seq!['{']);
            }
            return None;
        },
        Some(p) => p,
    };
    proof {
        reveal_strlit("{");
        assert(("{")@ =~= seq!['{']);
        reveal_strlit("\"private_key\"");
        assert(("\"private_key\"")@ =~= quoted_priv_key());
        reveal_strlit("\"public_key\"");
        assert(("\"public_key\"")@ =~= quoted_pub_key());
    }
    match expect_lit_from(v, r2, "\"private_key\"") {
        Some(r3) => {
            let fp = match parse_fields_tail_from(v, r3, "\"public_key\"") {
                None => return None,
                Some(p) => p,
            };
            let keypair = KeyPair { private_key: (fp.0).0, public_key: (fp.0).1 };
            Some(((name, keypair), fp.1))
        },
        None => {
            let r3 = match expect_lit_from(v, r2, "\"public_key\"") {
                None => return None,
                Some(p) => p,
            };
            let fp = match parse_fields_tail_from(v, r3, "\"private_key\"") {
                None => return None,
                Some(p) => p,
            };
            let keypair = KeyPair { private_key: (fp.0).1, public_key: (fp.0).0 };
            Some(((name, keypair), fp.1))
        },
    }
}

/// Whether the entries make a well-formed store: every name non-empty, no
/// two entries sharing a name.
fn entries_valid(entries: &Vec<(String, KeyPair)>) -> (r: bool)
    ensures
        r == store_wf(entries_view(entries@)),
{
    let n = entries.len();
    let mut i: usize = 0;
    while i < n
        invariant
            n == entries@.len(),
            i <= n,
            forall|a: int| 0 <= a < i ==> (#[trigger] entries_view(entries@)[a]).0.len() > 0,
        decreases n - i,
    {
        if entries[i].0.as_str().is_empty() {
            proof {
                assert(entries_view(entries@)[i as int].0.len() == 0);
            }
            return false;
        }
        proof {
            assert(entries_view(entries@)[i as int].0.len() > 0);
        }
        i += 1;
    }
    let mut i: usize = 0;
    while i < n
        invariant
            n == entries@.len(),
            i <= n,
            forall|a: int| 0 <= a < n ==> (#[trigger] entries_view(entries@)[a]).0.len() > 0,
            forall|a: int, b: int| 0 <= a < i && a < b < n ==> (#[trigger] entries_view(
                entries@,
            )[a]).0 != (#[trigger] entries_view(entries@)[b]).0,
        decreases n - i,
    {
        let mut k: usize = i + 1;
        while k < n
            invariant
                n == entries@.len(),
                i < n,
                i + 1 <= k <= n,
                forall|b: int| i < b < k ==> (#[trigger] entries_view(entries@)[b]).0
                    != entries_view(entries@)[i as int].0,
            decreases n - k,
        {
            if entries[i].0 == entries[k].0 {
                proof {
                    assert(entries_view(entries@)[i as int].0 == entries_view(entries@)[
                        k as int].0);
                }
                return false;
            }
            proof {
                assert(entries_view(entries@)[k as int].0 != entries_view(entries@)[
                    i as int].0);
            }
            k += 1;
        }
        i += 1;
    }
    true
}

impl Wallets {
    /// Parses a store from its text.  Succeeds on exactly the texts that
    /// `parse_store_spec` accepts with a well-formed result, and then
    /// yields that store; anything else is a parse error.
    pub fn parse_store(s: &str) -> (r: Result<Wallets, WalletError>)
        ensures
            r is Ok <==> (parse_store_spec(s@) is Some && store_wf(parse_store_spec(s@)->0)),
            r matches Ok(st) ==> st@ == parse_store_spec(s@)->0 && st.wf(),
            r matches Err(e) ==> e matches WalletError::StorageParse { message: _ },
    {
        let v = str_chars(s);
        proof {
            assert(v@.skip(0) =~= s@);
            reveal_strlit("{");
            assert(("{")@ =~= seq!['{']);
            reveal_strlit("\"wallets\"");
            assert(("\"wallets\"")@ =~= quoted_wallets());
            reveal_strlit(":");
            assert((":")@ =~= seq![':']);
            reveal_strlit("}");
            assert(("}")@ =~= seq!['}']);
        }
        let r0 = match expect_lit_from(&v, 0, "{") {
            None => return Err(parse_failure()),
            Some(p) => p,
        };
        let r1 = match expect_lit_from(&v, r0, "\"wallets\"") {
            None => return Err(parse_failure()),
            Some(p) => p,
        };
        let r2 = match expect_lit_from(&v, r1, ":") {
            None => return Err(parse_failure()),
            Some(p) => p,
        };
        let r3 = match expect_lit_from(&v, r2, "{") {
            None => return Err(parse_failure()),
            Some(p) => p,
        };
        let mut entries: Vec<(String, KeyPair)> = Vec::new();
        let mut rest_pos: usize;
        match expect_lit_from(&v, r3, "}") {
            Some(p) => {
                rest_pos = p;
                proof {
                    assert(entries_view(entries@) =~= Seq::<(Seq<char>, KeyPairView)>::empty());
                }
            },
            None => {
                proof {
                    if parse_entry_list(v@.skip(r3 as int)) is Some {
                        let p = parse_entry_list(v@.skip(r3 as int))->0;
                        assert(entries_view(entries@) + p.0 =~= p.0);
                    }
                }
                let mut j = r3;
                loop
                    invariant_except_break
                        r3 <= j <= v@.len(),
                        r0 <= v@.len() && r1 <= v@.len() && r2 <= v@.len(),
                        v@ == s@,
                        expect_lit_spec(s@, seq!['{']) == Some(v@.skip(r0 as int)),
                        expect_lit_spec(v@.skip(r0 as int), quoted_wallets()) == Some(
                            v@.skip(r1 as int),
                        ),
                        expect_lit_spec(v@.skip(r1 as int), seq![':']) == Some(
                            v@.skip(r2 as int),
                        ),
                        expect_lit_spec(v@.skip(r2 as int), seq!['{']) == Some(
                            v@.skip(r3 as int),
                        ),
                        expect_lit_spec(v@.skip(r3 as int), seq!['}']) is None,
                        parse_entries_spec(v@.skip(r3 as int)) == prepend_entries(
                            entries_view(entries@),
                            parse_entry_list(v@.skip(j as int)),
                        ),
                    ensures
                        rest_pos <= v@.len(),
                        parse_entries_spec(v@.skip(r3 as int)) == Some(
                            (entries_view(entries@), v@.skip(rest_pos as int)),
                        ),
                    decreases v@.len() - j,
                {
                    proof {
                        reveal_strlit("}");
                        assert(("}")@ =~= seq!['}']);
                        reveal_strlit(",");
                        assert((",")@ =~= seq![',']);
                    }
                    let ghost entries_pre = entries_view(entries@);
                    let pe = match parse_entry_from(&v, j) {
                        None => return Err(parse_failure()),
                        Some(p) => p,
                    };
                    let j2 = pe.1;
                    let ghost eview = (pe.0.0@, pe.0.1@);
                    entries.push(pe.0);
                    proof {
                        assert(entries_view(entries@) =~= entries_pre.push(eview));
                        assert(v@.skip(j2 as int).len() < v@.skip(j as int).len());
                    }
                    match expect_lit_from(&v, j2, "}") {
                        Some(p) => {
                            rest_pos = p;
                            proof {
                                assert(parse_entry_list(v@.skip(j as int)) == Some(
                                    (seq![eview], v@.skip(rest_pos as int)),
                                ));
                                assert(entries_pre + seq![eview] =~= entries_view(entries@));
                            }
                            break;
                        },
                        None => {
                            match expect_lit_from(&v, j2, ",") {
                                None => return Err(parse_failure()),
                                Some(p) => {
                                    proof {
                                        assert(v@.skip(p as int).len() < v@.skip(
                                            j as int,
                                        ).len());
                                        if parse_entry_list(v@.skip(p as int)) is Some {
                                            let pm = parse_entry_list(v@.skip(p as int))->0;
                                            assert(parse_entry_list(v@.skip(j as int))
                                                == Some((seq![eview] + pm.0, pm.1)));
                                            assert(entries_pre + (seq![eview] + pm.0)
                                                =~= entries_view(entries@) + pm.0);
                                        } else {
                                            assert(parse_entry_list(
                                                v@.skip(j as int),
                                            ) is None);
                                        }
                                    }
                                    j = p;
                                },
                            }
                        },
                    }
                }
            },
        }
        let r4 = match expect_lit_from(&v, rest_pos, "}") {
            None => return Err(parse_failure()),
            Some(p) => p,
        };
        let jend = skip_ws_from(&v, r4);
        if jend < v.len() {
            proof {
                assert(skip_ws_spec(v@.skip(r4 as int)).len() != 0);
            }
            return Err(parse_failure());
        }
        proof {
            assert(skip_ws_spec(v@.skip(r4 as int)).len() == 0);
        }
        if !entries_valid(&entries) {
            return Err(parse_failure());
        }
        Ok(Wallets { wallets: entries })
    }
}

/// The error a malformed store text yields.
fn parse_failure() -> (r: WalletError)
    ensures
        r matches WalletError::StorageParse { message: _ },
{
    WalletError::StorageParse {
        message: "the wallet file does not match the store format".to_owned(),
    }
}

} // verus!
