//! The persisted document format for emote-record lists.
//!
//! Both structured documents the store keeps — a query's result list and the
//! recency list — are one ordered sequence of records, written as a
//! human-readable UTF-8 document: an array of objects with the fields `id`,
//! `display_name` and `remote_url`, one record per line.  The encoder
//! escapes quotes, backslashes and line breaks inside field values; the
//! decoder accepts exactly the documents the encoder produces (it is lenient
//! in nothing but being total: malformed input yields `None`, never a
//! panic).  Decoding an encoded list gives the list back, which is proved
//! below as [`lemma_document_round_trip`].

use vstd::prelude::*;
use vstd::string::StrSliceExecFns;
use vstd::string::StringExecFns;

use crate::emote::EmoteModel;
use crate::emote::WebmEmote;
use crate::emote::models_of;
use crate::text::chars_of;
use crate::text::push_char;
use crate::text::string_of;

verus! {

// ---------------------------------------------------------------------------
// Escaping of field values.
// ---------------------------------------------------------------------------
/// How one character of a field value is written inside a quoted string.
pub open spec fn esc_char(c: char) -> Seq<char> {
    if c == '"' {
        seq!['\\', '"']
    } else if c == '\\' {
        seq!['\\', '\\']
    } else if c == '\n' {
        seq!['\\', 'n']
    } else if c == '\r' {
        seq!['\\', 'r']
    } else if c == '\t' {
        seq!['\\', 't']
    } else {
        seq![c]
    }
}

/// A whole field value, escaped.
pub open spec fn esc(s: Seq<char>) -> Seq<char>
    decreases s.len(),
{
    if s.len() == 0 {
        Seq::empty()
    } else {
        esc_char(s[0]) + esc(s.drop_first())
    }
}

/// The character an escape code stands for, if it is a valid code.
pub open spec fn unesc_code(c: char) -> Option<char> {
    if c == '"' {
        Some('"')
    } else if c == '\\' {
        Some('\\')
    } else if c == 'n' {
        Some('\n')
    } else if c == 'r' {
        Some('\r')
    } else if c == 't' {
        Some('\t')
    } else {
        None
    }
}

/// Escaping distributes over concatenation.
pub proof fn lemma_esc_app(a: Seq<char>, b: Seq<char>)
    ensures
        esc(a + b) == esc(a) + esc(b),
    decreases a.len(),
{
    if a.len() == 0 {
        assert(a + b =~= b);
        assert(esc(a) + esc(b) =~= esc(b));
    } else {
        lemma_esc_app(a.drop_first(), b);
        assert((a + b).drop_first() =~= a.drop_first() + b);
        assert(esc(a + b) =~= esc_char(a[0]) + (esc(a.drop_first()) + esc(b)));
        assert(esc(a) + esc(b) =~= esc_char(a[0]) + (esc(a.drop_first()) + esc(b)));
    }
}

// ---------------------------------------------------------------------------
// The document's fixed text.
// ---------------------------------------------------------------------------
/// Text before a record's `id` value, opening quote included.
pub open spec fn lit_rec_a() -> Seq<char> {
    "{ \"id\": \""@
}

/// Text between a record's `id` and `display_name` values.
pub open spec fn lit_rec_b() -> Seq<char> {
    "\", \"display_name\": \""@
}

/// Text between a record's `display_name` and `remote_url` values.
pub open spec fn lit_rec_c() -> Seq<char> {
    "\", \"remote_url\": \""@
}

/// Text closing a record, after the `remote_url` value.
pub open spec fn lit_rec_d() -> Seq<char> {
    "\" }"@
}

/// Text opening a non-empty document.
pub open spec fn lit_open() -> Seq<char> {
    "[\n  "@
}

/// Text between two records.
pub open spec fn lit_sep() -> Seq<char> {
    ",\n  "@
}

/// Text closing a non-empty document.
pub open spec fn lit_close() -> Seq<char> {
    "\n]"@
}

/// The empty document.
pub open spec fn lit_empty() -> Seq<char> {
    "[]"@
}

// ---------------------------------------------------------------------------
// Encoding.
// ---------------------------------------------------------------------------
/// One record's text.
pub open spec fn enc_rec(e: EmoteModel) -> Seq<char> {
    lit_rec_a() + esc(e.id) + lit_rec_b() + esc(e.name) + lit_rec_c() + esc(e.url) + lit_rec_d()
}

/// The text of a non-empty record list, records separated by [`lit_sep`].
pub open spec fn enc_recs(l: Seq<EmoteModel>) -> Seq<char>
    decreases l.len(),
{
    if l.len() == 0 {
        Seq::empty()
    } else if l.len() == 1 {
        enc_rec(l[0])
    } else {
        enc_rec(l[0]) + lit_sep() + enc_recs(l.drop_first())
    }
}

/// The whole document's text.
pub open spec fn enc_doc(l: Seq<EmoteModel>) -> Seq<char> {
    if l.len() == 0 {
        lit_empty()
    } else {
        lit_open() + enc_recs(l) + lit_close()
    }
}

/// Record-list encoding splits at any record boundary.
pub proof fn lemma_enc_recs_app(a: Seq<EmoteModel>, b: Seq<EmoteModel>)
    requires
        a.len() > 0,
        b.len() > 0,
    ensures
        enc_recs(a + b) == enc_recs(a) + lit_sep() + enc_recs(b),
    decreases a.len(),
{
    if a.len() == 1 {
        assert((a + b).len() > 1);
        assert((a + b)[0] == a[0]);
        assert((a + b).drop_first() =~= b);
        assert(enc_recs(a + b) =~= enc_rec(a[0]) + lit_sep() + enc_recs(b));
    } else {
        lemma_enc_recs_app(a.drop_first(), b);
        assert((a + b)[0] == a[0]);
        assert((a + b).drop_first() =~= a.drop_first() + b);
        assert(enc_recs(a + b) =~= enc_rec(a[0]) + lit_sep() + (enc_recs(a.drop_first())
            + lit_sep() + enc_recs(b)));
        assert(enc_recs(a) + lit_sep() + enc_recs(b) =~= enc_rec(a[0]) + lit_sep() + (enc_recs(
            a.drop_first(),
        ) + lit_sep() + enc_recs(b)));
    }
}

/// Append one value, escaped, to the output.
pub fn push_escaped(out: &mut String, s: &String)
    ensures
        final(out)@ == old(out)@ + esc(s@),
{
    let v = s.as_str();
    let n = v.unicode_len();
    let mut i: usize = 0;
    proof {
        assert(old(out)@ + esc(s@.subrange(0, 0)) =~= old(out)@);
    }
    while i < n
        invariant
            i <= n,
            n == s@.len(),
            v@ == s@,
            out@ == old(out)@ + esc(s@.subrange(0, i as int)),
        decreases n - i,
    {
        let c = v.get_char(i);
        proof {
            assert(s@.subrange(0, i as int + 1) =~= s@.subrange(0, i as int) + seq![s@[i as int]]);
            lemma_esc_app(s@.subrange(0, i as int), seq![s@[i as int]]);
            assert(seq![s@[i as int]].drop_first() =~= Seq::<char>::empty());
            assert(esc(seq![s@[i as int]]) =~= esc_char(s@[i as int]) + esc(Seq::<char>::empty()));
            assert(esc(seq![s@[i as int]]) =~= esc_char(s@[i as int]));
        }
        if c == '"' {
            push_char(out, '\\');
            push_char(out, '"');
        } else if c == '\\' {
            push_char(out, '\\');
            push_char(out, '\\');
        } else if c == '\n' {
            push_char(out, '\\');
            push_char(out, 'n');
        } else if c == '\r' {
            push_char(out, '\\');
            push_char(out, 'r');
        } else if c == '\t' {
            push_char(out, '\\');
            push_char(out, 't');
        } else {
            push_char(out, c);
        }
        proof {
            assert(out@ =~= old(out)@ + esc(s@.subrange(0, i as int + 1)));
        }
        i = i + 1;
    }
    proof {
        assert(s@.subrange(0, n as int) =~= s@);
    }
}

/// Append one record's text to the output.
fn push_record(out: &mut String, e: &WebmEmote)
    ensures
        final(out)@ == old(out)@ + enc_rec(e@),
{
    out.append("{ \"id\": \"");
    push_escaped(out, &e.id);
    out.append("\", \"display_name\": \"");
    push_escaped(out, &e.name);
    out.append("\", \"remote_url\": \"");
    push_escaped(out, &e.url);
    out.append("\" }");
    proof {
        assert(out@ =~= old(out)@ + enc_rec(e@));
    }
}

// ---------------------------------------------------------------------------
// Parsing.
// ---------------------------------------------------------------------------
/// Text a parser expects after a record's `id` value's closing quote.
pub open spec fn lit_rec_b_tail() -> Seq<char> {
    ", \"display_name\": \""@
}

/// Text a parser expects after a record's `display_name` value's closing
/// quote.
pub open spec fn lit_rec_c_tail() -> Seq<char> {
    ", \"remote_url\": \""@
}

/// Text a parser expects after a record's `remote_url` value's closing
/// quote.
pub open spec fn lit_rec_d_tail() -> Seq<char> {
    " }"@
}

/// Position after the given fixed text at `i`, if it stands there.
pub open spec fn parse_lit(s: Seq<char>, i: int, lit: Seq<char>) -> Option<int> {
    if 0 <= i && i + lit.len() <= s.len() && s.subrange(i, i + lit.len()) == lit {
        Some(i + lit.len())
    } else {
        None
    }
}

/// A quoted value's content, read from `i` (just after its opening quote)
/// through its closing quote: the unescaped characters, and the position
/// after the closing quote.
pub open spec fn parse_str_body(s: Seq<char>, i: int) -> Option<(Seq<char>, int)>
    decreases s.len() - i,
{
    if i < 0 || i >= s.len() {
        None
    } else if s[i] == '"' {
        Some((Seq::empty(), i + 1))
    } else if s[i] == '\\' {
        if i + 1 < s.len() {
            match unesc_code(s[i + 1]) {
                Some(c) => match parse_str_body(s, i + 2) {
                    Some(t_j) => Some((seq![c] + t_j.0, t_j.1)),
                    None => None,
                },
                None => None,
            }
        } else {
            None
        }
    } else {
        match parse_str_body(s, i + 1) {
            Some(t_j) => Some((seq![s[i]] + t_j.0, t_j.1)),
            None => None,
        }
    }
}

/// One record, read from `i`: its model and the position after its text.
pub open spec fn parse_rec(s: Seq<char>, i: int) -> Option<(EmoteModel, int)> {
    match parse_lit(s, i, lit_rec_a()) {
        None => None,
        Some(i1) => match parse_str_body(s, i1) {
            None => None,
            Some(id_j) => match parse_lit(s, id_j.1, lit_rec_b_tail()) {
                None => None,
                Some(i2) => match parse_str_body(s, i2) {
                    None => None,
                    Some(name_j) => match parse_lit(s, name_j.1, lit_rec_c_tail()) {
                        None => None,
                        Some(i3) => match parse_str_body(s, i3) {
                            None => None,
                            Some(url_j) => match parse_lit(s, url_j.1, lit_rec_d_tail()) {
                                None => None,
                                Some(i4) => Some(
                                    (EmoteModel { id: id_j.0, name: name_j.0, url: url_j.0 }, i4),
                                ),
                            },
                        },
                    },
                },
            },
        },
    }
}

proof fn lemma_parse_str_body_advances(s: Seq<char>, i: int)
    ensures
        parse_str_body(s, i) matches Some(t_j) ==> i + 1 <= t_j.1 <= s.len(),
    decreases s.len() - i,
{
    if 0 <= i && i < s.len() {
        if s[i] == '"' {
        } else if s[i] == '\\' {
            if i + 1 < s.len() {
                lemma_parse_str_body_advances(s, i + 2);
            }
        } else {
            lemma_parse_str_body_advances(s, i + 1);
        }
    }
}

proof fn lemma_parse_rec_advances(s: Seq<char>, i: int)
    ensures
        parse_rec(s, i) matches Some(e_j) ==> i < e_j.1 <= s.len(),
{
    if parse_rec(s, i) is Some {
        let i1 = parse_lit(s, i, lit_rec_a()).unwrap();
        lemma_parse_str_body_advances(s, i1);
        let id_j = parse_str_body(s, i1).unwrap();
        let i2 = parse_lit(s, id_j.1, lit_rec_b_tail()).unwrap();
        lemma_parse_str_body_advances(s, i2);
        let name_j = parse_str_body(s, i2).unwrap();
        let i3 = parse_lit(s, name_j.1, lit_rec_c_tail()).unwrap();
        lemma_parse_str_body_advances(s, i3);
    }
}

/// The records of a list, read from `i`: one record, then as long as a
/// separator follows, another.
pub open spec fn parse_recs(s: Seq<char>, i: int) -> Option<(Seq<EmoteModel>, int)>
    decreases s.len() - i,
    via parse_recs_dec
{
    match parse_rec(s, i) {
        None => None,
        Some(e_j) => match parse_lit(s, e_j.1, lit_sep()) {
            Some(k) => match parse_recs(s, k) {
                Some(rest_m) => Some((seq![e_j.0] + rest_m.0, rest_m.1)),
                None => None,
            },
            None => Some((seq![e_j.0], e_j.1)),
        },
    }
}

#[via_fn]
proof fn parse_recs_dec(s: Seq<char>, i: int) {
    lemma_parse_rec_advances(s, i);
}

/// A whole document: the empty document, or a bracketed, separated record
/// list with nothing after it.
pub open spec fn parse_doc(s: Seq<char>) -> Option<Seq<EmoteModel>> {
    if s == lit_empty() {
        Some(Seq::empty())
    } else {
        match parse_lit(s, 0, lit_open()) {
            None => None,
            Some(i) => match parse_recs(s, i) {
                None => None,
                Some(l_j) => match parse_lit(s, l_j.1, lit_close()) {
                    Some(k) => if k == s.len() {
                        Some(l_j.0)
                    } else {
                        None
                    },
                    None => None,
                },
            },
        }
    }
}

// ---------------------------------------------------------------------------
// The round trip: the parser reads back exactly what the encoder wrote.
// ---------------------------------------------------------------------------
proof fn lemma_subrange_split(s: Seq<char>, i: int, a: Seq<char>, b: Seq<char>)
    requires
        0 <= i,
        i + a.len() + b.len() <= s.len(),
        s.subrange(i, i + a.len() + b.len()) == a + b,
    ensures
        s.subrange(i, i + a.len()) == a,
        s.subrange(i + a.len(), i + a.len() + b.len()) == b,
{
    assert forall|k: int| 0 <= k < a.len() implies s.subrange(i, i + a.len())[k] == a[k] by {
        assert(s.subrange(i, i + a.len() + b.len())[k] == (a + b)[k]);
    }
    assert(s.subrange(i, i + a.len()) =~= a);
    assert forall|k: int| 0 <= k < b.len() implies s.subrange(
        i + a.len(),
        i + a.len() + b.len(),
    )[k] == b[k] by {
        assert(s.subrange(i, i + a.len() + b.len())[a.len() + k] == (a + b)[a.len() + k]);
        assert((a + b)[a.len() + k] == b[k]);
        assert(s.subrange(i, i + a.len() + b.len())[a.len() + k] == s[i + a.len() + k]);
        assert(s.subrange(i + a.len(), i + a.len() + b.len())[k] == s[i + a.len() + k]);
    }
    assert(s.subrange(i + a.len(), i + a.len() + b.len()) =~= b);
}

proof fn lemma_esc_char_cases(c: char)
    ensures
        1 <= esc_char(c).len() <= 2,
        esc_char(c).len() == 1 ==> esc_char(c)[0] == c && c != '"' && c != '\\',
        esc_char(c).len() == 2 ==> esc_char(c)[0] == '\\' && unesc_code(esc_char(c)[1]) == Some(c),
{
}

proof fn lemma_parse_str_body_enc(s: Seq<char>, i: int, x: Seq<char>)
    requires
        0 <= i,
        i + esc(x).len() + 1 <= s.len(),
        s.subrange(i, i + esc(x).len() + 1) == esc(x) + seq!['"'],
    ensures
        parse_str_body(s, i) == Some((x, i + esc(x).len() + 1)),
    decreases x.len(),
{
    let e = esc(x) + seq!['"'];
    if x.len() == 0 {
        assert(esc(x) =~= Seq::<char>::empty());
        assert(s[i] == e[0]) by {
            assert(s.subrange(i, i + 1)[0] == e[0]);
        }
        assert(s[i] == '"');
    } else {
        let c = x[0];
        let rest = x.drop_first();
        lemma_esc_char_cases(c);
        assert(esc(x) == esc_char(c) + esc(rest));
        assert(esc(x).len() == esc_char(c).len() + esc(rest).len());
        assert forall|k: int| 0 <= k < e.len() implies s[i + k] == e[k] by {
            assert(s.subrange(i, i + esc(x).len() + 1)[k] == e[k]);
        }
        if esc_char(c).len() == 1 {
            assert(e[0] == esc_char(c)[0]);
            assert(s[i] == c);
            assert(s.subrange(i + 1, i + 1 + esc(rest).len() + 1) =~= esc(rest) + seq!['"']) by {
                assert forall|k: int| 0 <= k < esc(rest).len() + 1 implies s.subrange(
                    i + 1,
                    i + 1 + esc(rest).len() + 1,
                )[k] == (esc(rest) + seq!['"'])[k] by {
                    assert(s[i + 1 + k] == e[1 + k]);
                    assert(e[1 + k] == (esc(rest) + seq!['"'])[k]);
                }
            }
            lemma_parse_str_body_enc(s, i + 1, rest);
            assert(seq![c] + rest =~= x);
        } else {
            assert(e[0] == esc_char(c)[0] && e[1] == esc_char(c)[1]);
            assert(s[i] == '\\');
            assert(unesc_code(s[i + 1]) == Some(c));
            assert(s.subrange(i + 2, i + 2 + esc(rest).len() + 1) =~= esc(rest) + seq!['"']) by {
                assert forall|k: int| 0 <= k < esc(rest).len() + 1 implies s.subrange(
                    i + 2,
                    i + 2 + esc(rest).len() + 1,
                )[k] == (esc(rest) + seq!['"'])[k] by {
                    assert(s[i + 2 + k] == e[2 + k]);
                    assert(e[2 + k] == (esc(rest) + seq!['"'])[k]);
                }
            }
            lemma_parse_str_body_enc(s, i + 2, rest);
            assert(seq![c] + rest =~= x);
        }
    }
}

proof fn lemma_parse_rec_enc(s: Seq<char>, i: int, e: EmoteModel)
    requires
        0 <= i,
        i + enc_rec(e).len() <= s.len(),
        s.subrange(i, i + enc_rec(e).len()) == enc_rec(e),
    ensures
        parse_rec(s, i) == Some((e, i + enc_rec(e).len())),
{
    reveal_strlit("{ \"id\": \"");
    reveal_strlit("\", \"display_name\": \"");
    reveal_strlit("\", \"remote_url\": \"");
    reveal_strlit("\" }");
    reveal_strlit(", \"display_name\": \"");
    reveal_strlit(", \"remote_url\": \"");
    reveal_strlit(" }");
    assert(lit_rec_b() =~= seq!['"'] + lit_rec_b_tail());
    assert(lit_rec_c() =~= seq!['"'] + lit_rec_c_tail());
    assert(lit_rec_d() =~= seq!['"'] + lit_rec_d_tail());

    let p1 = esc(e.id) + seq!['"'];
    let p2 = esc(e.name) + seq!['"'];
    let p3 = esc(e.url) + seq!['"'];
    let r1 = p1 + lit_rec_b_tail() + p2 + lit_rec_c_tail() + p3 + lit_rec_d_tail();
    let r2 = lit_rec_b_tail() + p2 + lit_rec_c_tail() + p3 + lit_rec_d_tail();
    let r3 = p2 + lit_rec_c_tail() + p3 + lit_rec_d_tail();
    let r4 = lit_rec_c_tail() + p3 + lit_rec_d_tail();
    let r5 = p3 + lit_rec_d_tail();
    assert(enc_rec(e) =~= lit_rec_a() + r1);

    let i1 = i + lit_rec_a().len();
    lemma_subrange_split(s, i, lit_rec_a(), r1);
    assert(parse_lit(s, i, lit_rec_a()) == Some(i1));

    assert(r1 =~= p1 + r2);
    lemma_subrange_split(s, i1, p1, r2);
    let i2 = i1 + p1.len();
    lemma_parse_str_body_enc(s, i1, e.id);
    assert(parse_str_body(s, i1) == Some((e.id, i2)));

    assert(r2 =~= lit_rec_b_tail() + r3);
    lemma_subrange_split(s, i2, lit_rec_b_tail(), r3);
    let i3 = i2 + lit_rec_b_tail().len();
    assert(parse_lit(s, i2, lit_rec_b_tail()) == Some(i3));

    assert(r3 =~= p2 + r4);
    lemma_subrange_split(s, i3, p2, r4);
    let i4 = i3 + p2.len();
    lemma_parse_str_body_enc(s, i3, e.name);
    assert(parse_str_body(s, i3) == Some((e.name, i4)));

    assert(r4 =~= lit_rec_c_tail() + r5);
    lemma_subrange_split(s, i4, lit_rec_c_tail(), r5);
    let i5 = i4 + lit_rec_c_tail().len();
    assert(parse_lit(s, i4, lit_rec_c_tail()) == Some(i5));

    assert(r5 =~= p3 + lit_rec_d_tail());
    lemma_subrange_split(s, i5, p3, lit_rec_d_tail());
    let i6 = i5 + p3.len();
    lemma_parse_str_body_enc(s, i5, e.url);
    assert(parse_str_body(s, i5) == Some((e.url, i6)));

    let i7 = i6 + lit_rec_d_tail().len();
    assert(parse_lit(s, i6, lit_rec_d_tail()) == Some(i7));
    assert(i7 == i + enc_rec(e).len());
}

proof fn lemma_parse_recs_enc(s: Seq<char>, i: int, l: Seq<EmoteModel>)
    requires
        0 <= i,
        l.len() > 0,
        i + enc_recs(l).len() + lit_close().len() == s.len(),
        s.subrange(i, i + enc_recs(l).len()) == enc_recs(l),
    ensures
        parse_recs(s, i) == Some((l, i + enc_recs(l).len())),
    decreases l.len(),
{
    reveal_strlit(",\n  ");
    reveal_strlit("\n]");
    if l.len() == 1 {
        assert(enc_recs(l) == enc_rec(l[0]));
        lemma_parse_rec_enc(s, i, l[0]);
        let j = i + enc_rec(l[0]).len();
        assert(j + lit_sep().len() > s.len());
        assert(parse_lit(s, j, lit_sep()) is None);
        assert(seq![l[0]] =~= l);
    } else {
        let rest = l.drop_first();
        assert(enc_recs(l) == enc_rec(l[0]) + lit_sep() + enc_recs(rest));
        let tail = lit_sep() + enc_recs(rest);
        assert(enc_recs(l) =~= enc_rec(l[0]) + tail);
        lemma_subrange_split(s, i, enc_rec(l[0]), tail);
        lemma_parse_rec_enc(s, i, l[0]);
        let j = i + enc_rec(l[0]).len();
        assert(tail =~= lit_sep() + enc_recs(rest));
        lemma_subrange_split(s, j, lit_sep(), enc_recs(rest));
        let k = j + lit_sep().len();
        assert(parse_lit(s, j, lit_sep()) == Some(k));
        lemma_parse_recs_enc(s, k, rest);
        assert(seq![l[0]] + rest =~= l);
    }
}

/// The codec round-trips: parsing the encoded document of any record list
/// yields exactly that list — order, ids, names and urls all preserved.
pub proof fn lemma_document_round_trip(l: Seq<EmoteModel>)
    ensures
        parse_doc(enc_doc(l)) == Some(l),
{
    reveal_strlit("[]");
    reveal_strlit("[\n  ");
    reveal_strlit("\n]");
    if l.len() == 0 {
        assert(enc_doc(l) == lit_empty());
    } else {
        let s = enc_doc(l);
        let body = enc_recs(l);
        lemma_enc_rec_len_pos(l);
        assert(s.len() == lit_open().len() + body.len() + lit_close().len());
        assert(s != lit_empty());
        assert(s =~= lit_open() + (body + lit_close()));
        assert(s.subrange(0, s.len() as int) =~= s);
        assert(s.subrange(0, (lit_open().len() + (body + lit_close()).len()) as int) == lit_open()
            + (body + lit_close()));
        lemma_subrange_split(s, 0, lit_open(), body + lit_close());
        let i = lit_open().len() as int;
        assert(parse_lit(s, 0, lit_open()) == Some(i));
        lemma_subrange_split(s, i, body, lit_close());
        lemma_parse_recs_enc(s, i, l);
        let j = i + body.len();
        assert(parse_lit(s, j, lit_close()) == Some(j + lit_close().len()));
        assert(j + lit_close().len() == s.len());
    }
}

proof fn lemma_enc_rec_len_pos(l: Seq<EmoteModel>)
    requires
        l.len() > 0,
    ensures
        enc_recs(l).len() >= lit_rec_a().len(),
    decreases l.len(),
{
    if l.len() == 1 {
        assert(enc_recs(l) == enc_rec(l[0]));
    }
}

// ---------------------------------------------------------------------------
// The executable decoder.
// ---------------------------------------------------------------------------
fn unesc_exec(c: char) -> (r: Option<char>)
    ensures
        r == unesc_code(c),
{
    if c == '"' {
        Some('"')
    } else if c == '\\' {
        Some('\\')
    } else if c == 'n' {
        Some('\n')
    } else if c == 'r' {
        Some('\r')
    } else if c == 't' {
        Some('\t')
    } else {
        None
    }
}

fn match_lit(s: &Vec<char>, i: usize, lit: &Vec<char>) -> (r: Option<usize>)
    ensures
        match r {
            Some(j) => parse_lit(s@, i as int, lit@) == Some(j as int) && j <= s@.len(),
            None => parse_lit(s@, i as int, lit@) is None,
        },
{
    if i > s.len() || lit.len() > s.len() - i {
        return None;
    }
    let mut k: usize = 0;
    while k < lit.len()
        invariant
            i + lit@.len() <= s@.len(),
            s@.len() <= usize::MAX,
            k <= lit@.len(),
            forall|m: int| 0 <= m < k ==> s@[i + m] == lit@[m],
        decreases lit@.len() - k,
    {
        proof {
            assert(i + k < s@.len());
        }
        if s[i + k] != lit[k] {
            proof {
                if parse_lit(s@, i as int, lit@) is Some {
                    assert(s@.subrange(i as int, i + lit@.len()) == lit@);
                    assert(s@.subrange(i as int, i + lit@.len())[k as int] == lit@[k as int]);
                    assert(s@[i + k] == lit@[k as int]);
                }
            }
            return None;
        }
        k = k + 1;
    }
    proof {
        assert(s@.subrange(i as int, i + lit@.len()) =~= lit@);
    }
    Some(i + lit.len())
}

fn read_string(s: &Vec<char>, i: usize) -> (r: Option<(String, usize)>)
    ensures
        match r {
            Some(p) => parse_str_body(s@, i as int) == Some((p.0@, p.1 as int)) && p.1 <= s@.len(),
            None => parse_str_body(s@, i as int) is None,
        },
{
    if i > s.len() {
        return None;
    }
    let mut acc: Vec<char> = Vec::new();
    let mut cur: usize = i;
    proof {
        assert(acc@ =~= Seq::<char>::empty());
        match parse_str_body(s@, cur as int) {
            Some(t_j) => {
                assert(acc@ + t_j.0 =~= t_j.0);
            },
            None => {},
        }
    }
    loop
        invariant
            i <= cur <= s@.len(),
            parse_str_body(s@, i as int) == (match parse_str_body(s@, cur as int) {
                Some(t_j) => Some((acc@ + t_j.0, t_j.1)),
                None => None::<(Seq<char>, int)>,
            }),
        decreases s@.len() - cur,
    {
        if cur >= s.len() {
            return None;
        }
        let c = s[cur];
        if c == '"' {
            let st = string_of(&acc);
            proof {
                assert(acc@ + Seq::<char>::empty() =~= acc@);
            }
            return Some((st, cur + 1));
        } else if c == '\\' {
            if cur + 1 >= s.len() {
                return None;
            }
            let code = s[cur + 1];
            match unesc_exec(code) {
                None => {
                    return None;
                },
                Some(ch) => {
                    let ghost acc_old = acc@;
                    acc.push(ch);
                    cur = cur + 2;
                    proof {
                        match parse_str_body(s@, cur as int) {
                            Some(t_j) => {
                                assert(acc_old + (seq![ch] + t_j.0) =~= acc@ + t_j.0);
                            },
                            None => {},
                        }
                    }
                },
            }
        } else {
            let ghost acc_old = acc@;
            acc.push(c);
            cur = cur + 1;
            proof {
                match parse_str_body(s@, cur as int) {
                    Some(t_j) => {
                        assert(acc_old + (seq![c] + t_j.0) =~= acc@ + t_j.0);
                    },
                    None => {},
                }
            }
        }
    }
}

fn read_record(s: &Vec<char>, i: usize) -> (r: Option<(WebmEmote, usize)>)
    ensures
        match r {
            Some(p) => parse_rec(s@, i as int) == Some((p.0@, p.1 as int)) && p.1 <= s@.len(),
            None => parse_rec(s@, i as int) is None,
        },
{
    let la = chars_of("{ \"id\": \"");
    let lb = chars_of(", \"display_name\": \"");
    let lc = chars_of(", \"remote_url\": \"");
    let ld = chars_of(" }");
    let i1 = match match_lit(s, i, &la) {
        Some(j) => j,
        None => {
            return None;
        },
    };
    let (id, i2) = match read_string(s, i1) {
        Some(p) => p,
        None => {
            return None;
        },
    };
    let i3 = match match_lit(s, i2, &lb) {
        Some(j) => j,
        None => {
            return None;
        },
    };
    let (name, i4) = match read_string(s, i3) {
        Some(p) => p,
        None => {
            return None;
        },
    };
    let i5 = match match_lit(s, i4, &lc) {
        Some(j) => j,
        None => {
            return None;
        },
    };
    let (url, i6) = match read_string(s, i5) {
        Some(p) => p,
        None => {
            return None;
        },
    };
    let i7 = match match_lit(s, i6, &ld) {
        Some(j) => j,
        None => {
            return None;
        },
    };
    Some((WebmEmote { id, name, url }, i7))
}

/// Decode a persisted document back into its record list.  Exactly the
/// documents this codec produces are accepted; anything else yields `None`.
pub fn decode_doc(s: &Vec<char>) -> (r: Option<Vec<WebmEmote>>)
    ensures
        match r {
            Some(v) => parse_doc(s@) == Some(models_of(v@)),
            None => parse_doc(s@) is None,
        },
{
    proof {
        reveal_strlit("[]");
    }
    if s.len() == 2 && s[0] == '[' && s[1] == ']' {
        let empty: Vec<WebmEmote> = Vec::new();
        proof {
            assert(s@ =~= lit_empty());
            assert(models_of(empty@) =~= Seq::<EmoteModel>::empty());
        }
        return Some(empty);
    }
    proof {
        if s@ == lit_empty() {
            assert(s@.len() == 2);
            assert(s@[0] == '[');
            assert(s@[1] == ']');
        }
    }
    let lo = chars_of("[\n  ");
    let lsep = chars_of(",\n  ");
    let lclose = chars_of("\n]");
    proof {
        reveal_strlit("[\n  ");
        reveal_strlit(",\n  ");
        reveal_strlit("\n]");
        assert(lo@ =~= lit_open());
        assert(lsep@ =~= lit_sep());
        assert(lclose@ =~= lit_close());
    }
    let i0 = match match_lit(s, 0, &lo) {
        Some(j) => j,
        None => {
            return None;
        },
    };
    let mut acc: Vec<WebmEmote> = Vec::new();
    let mut cur: usize = i0;
    let mut done: bool = false;
    proof {
        assert(models_of(acc@) =~= Seq::<EmoteModel>::empty());
        match parse_recs(s@, cur as int) {
            Some(p) => {
                assert(models_of(acc@) + p.0 =~= p.0);
            },
            None => {},
        }
    }
    loop
        invariant_except_break
            !done,
            parse_recs(s@, i0 as int) == (match parse_recs(s@, cur as int) {
                Some(p) => Some((models_of(acc@) + p.0, p.1)),
                None => None::<(Seq<EmoteModel>, int)>,
            }),
        invariant
            cur <= s@.len(),
            s@ != lit_empty(),
            lsep@ == lit_sep(),
            parse_lit(s@, 0, lit_open()) == Some(i0 as int),
            done ==> parse_recs(s@, i0 as int) == Some((models_of(acc@), cur as int)),
        ensures
            done,
            s@ != lit_empty(),
            parse_lit(s@, 0, lit_open()) == Some(i0 as int),
            parse_recs(s@, i0 as int) == Some((models_of(acc@), cur as int)),
        decreases s@.len() - cur,
    {
        let (e, j) = match read_record(s, cur) {
            Some(p) => p,
            None => {
                return None;
            },
        };
        proof {
            lemma_parse_rec_advances(s@, cur as int);
        }
        let ghost acc_old = models_of(acc@);
        acc.push(e);
        proof {
            assert(models_of(acc@) =~= acc_old + seq![e@]);
        }
        match match_lit(s, j, &lsep) {
            Some(k) => {
                cur = k;
                proof {
                    match parse_recs(s@, cur as int) {
                        Some(p) => {
                            assert(acc_old + (seq![e@] + p.0) =~= models_of(acc@) + p.0);
                        },
                        None => {},
                    }
                }
            },
            None => {
                proof {
                    assert(parse_lit(s@, j as int, lit_sep()) is None);
                    assert(parse_recs(s@, cur as int) == Some((seq![e@], j as int)));
                    assert(acc_old + seq![e@] =~= models_of(acc@));
                }
                cur = j;
                done = true;
                break;
            },
        }
    }
    let k2 = match match_lit(s, cur, &lclose) {
        Some(k) => k,
        None => {
            return None;
        },
    };
    if k2 == s.len() {
        Some(acc)
    } else {
        None
    }
}

/// The document text of a record list, as it is persisted to disk.
pub fn encode_doc(records: &Vec<WebmEmote>) -> (out: String)
    ensures
        out@ == enc_doc(models_of(records@)),
{
    let ghost l = models_of(records@);
    if records.len() == 0 {
        let out = String::from_str("[]");
        proof {
            assert(l.len() == 0);
        }
        out
    } else {
        let mut out = String::from_str("[\n  ");
        let mut i: usize = 0;
        while i < records.len()
            invariant
                i <= records@.len(),
                records@.len() > 0,
                l == models_of(records@),
                i > 0 ==> out@ == lit_open() + enc_recs(l.subrange(0, i as int)),
                i == 0 ==> out@ == lit_open(),
            decreases records@.len() - i,
        {
            if i > 0 {
                out.append(",\n  ");
            }
            push_record(&mut out, &records[i]);
            proof {
                assert(models_of(records@)[i as int] == records@[i as int]@);
                if i == 0 {
                    assert(enc_recs(l.subrange(0, 1)) =~= enc_rec(l[0]));
                    assert(out@ =~= lit_open() + enc_recs(l.subrange(0, 1)));
                } else {
                    let a = l.subrange(0, i as int);
                    let b = seq![l[i as int]];
                    lemma_enc_recs_app(a, b);
                    assert(a + b =~= l.subrange(0, i as int + 1));
                    assert(enc_recs(b) =~= enc_rec(l[i as int]));
                    assert(out@ =~= lit_open() + enc_recs(l.subrange(0, i as int + 1)));
                }
            }
            i = i + 1;
        }
        out.append("\n]");
        proof {
            assert(l.subrange(0, l.len() as int) =~= l);
            assert(out@ =~= lit_open() + enc_recs(l) + lit_close());
        }
        out
    }
}

} // verus!
