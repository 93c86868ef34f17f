//! A flat JSON object codec. Rendering writes compact objects of string
//! and number members; parsing tolerates whitespace, reads those members
//! back, and skips a member of any other value shape. The round trip is
//! proved: what the renderer writes, the parser reads back exactly.

use vstd::prelude::*;

use crate::numfmt::{dec_rep, digit_char, digit_val, is_digit_char, push_dec, string_push};


verus! {

/// A member value of a flat JSON object: a string, an unsigned number,
/// or anything else. The persisted files of this crate hold only strings
/// and numbers; a member of any other shape is carried as `Other`, so an
/// unknown member never fails the parse of the whole object.
#[derive(Debug, Clone)]
pub enum JsonScalar {
    Text(String),
    Number(u64),
    Other,
}

/// The mathematical reading of a scalar.
pub enum ScalarModel {
    TextV(Seq<char>),
    NumberV(nat),
    OtherV,
}

impl View for JsonScalar {
    type V = ScalarModel;

    open spec fn view(&self) -> ScalarModel {
        match self {
            JsonScalar::Text(s) => ScalarModel::TextV(s@),
            JsonScalar::Number(n) => ScalarModel::NumberV(*n as nat),
            JsonScalar::Other => ScalarModel::OtherV,
        }
    }
}

/// The mathematical reading of a member list.
pub open spec fn pairs_model(ps: Seq<(String, JsonScalar)>) -> Seq<(Seq<char>, ScalarModel)> {
    ps.map_values(|p: (String, JsonScalar)| (p.0@, p.1@))
}

/// Every member value is one whose rendered text reads back as itself: a
/// string, or a number that fits in 64 bits.
pub open spec fn scalars_bounded(ms: Seq<(Seq<char>, ScalarModel)>) -> bool {
    forall|i: int|
        0 <= i < ms.len() ==> match #[trigger] ms[i].1 {
            ScalarModel::TextV(_) => true,
            ScalarModel::NumberV(n) => n < 0x10000000000000000,
            ScalarModel::OtherV => false,
        }
}

// ---------------------------------------------------------------------------
// Rendering
// ---------------------------------------------------------------------------
/// How one character appears inside a JSON string: quotes and backslashes
/// get a backslash before them, everything else stands as it is.
pub open spec fn escape1(c: char) -> Seq<char> {
    if c == '"' || c == '\\' {
        seq!['\\', c]
    } else {
        seq![c]
    }
}

pub open spec fn escape(s: Seq<char>) -> Seq<char>
    decreases s.len(),
{
    if s.len() == 0 {
        Seq::empty()
    } else {
        escape1(s[0]) + escape(s.drop_first())
    }
}

/// A JSON string: the escaped characters between two quotes.
pub open spec fn jstr(s: Seq<char>) -> Seq<char> {
    seq!['"'] + escape(s) + seq!['"']
}

pub open spec fn jscalar(v: ScalarModel) -> Seq<char> {
    match v {
        ScalarModel::TextV(s) => jstr(s),
        ScalarModel::NumberV(n) => dec_rep(n),
        ScalarModel::OtherV => "null"@,
    }
}

pub open spec fn jmember(k: Seq<char>, v: ScalarModel) -> Seq<char> {
    jstr(k) + seq![':'] + jscalar(v)
}

pub open spec fn jmembers(ms: Seq<(Seq<char>, ScalarModel)>) -> Seq<char>
    decreases ms.len(),
{
    if ms.len() == 0 {
        Seq::empty()
    } else if ms.len() == 1 {
        jmember(ms[0].0, ms[0].1)
    } else {
        jmember(ms[0].0, ms[0].1) + seq![','] + jmembers(ms.drop_first())
    }
}

/// The whole object, in the compact form this crate writes.
pub open spec fn jobject(ms: Seq<(Seq<char>, ScalarModel)>) -> Seq<char> {
    seq!['{'] + jmembers(ms) + seq!['}']
}

proof fn lemma_escape_snoc(s: Seq<char>, c: char)
    ensures
        escape(s.push(c)) == escape(s) + escape1(c),
    decreases s.len(),
{
    if s.len() == 0 {
        assert(s.push(c)[0] == c);
        assert(s.push(c).drop_first() =~= Seq::<char>::empty());
        assert(escape(Seq::<char>::empty()) =~= Seq::<char>::empty());
        assert(escape(s.push(c)) =~= escape(s) + escape1(c));
    } else {
        assert(s.push(c).drop_first() =~= s.drop_first().push(c));
        lemma_escape_snoc(s.drop_first(), c);
        assert(escape(s.push(c)) =~= escape(s) + escape1(c));
    }
}

proof fn lemma_jmembers_snoc(ms: Seq<(Seq<char>, ScalarModel)>, m: (Seq<char>, ScalarModel))
    requires
        ms.len() >= 1,
    ensures
        jmembers(ms.push(m)) == jmembers(ms) + seq![','] + jmember(m.0, m.1),
    decreases ms.len(),
{
    if ms.len() == 1 {
        assert(ms.push(m).drop_first() =~= seq![m]);
        assert(jmembers(seq![m]) == jmember(m.0, m.1));
        assert(jmembers(ms.push(m)) =~= jmembers(ms) + seq![','] + jmember(m.0, m.1));
    } else {
        assert(ms.push(m).drop_first() =~= ms.drop_first().push(m));
        lemma_jmembers_snoc(ms.drop_first(), m);
        assert(jmembers(ms.push(m)) =~= jmembers(ms) + seq![','] + jmember(m.0, m.1));
    }
}

/// Appends the escaped, quoted rendering of `s` to `out`.
pub(crate) fn append_jstr(out: &mut String, s: &str)
    ensures
        final(out)@ == old(out)@ + jstr(s@),
{
    string_push(out, '"');
    let n = s.unicode_len();
    let mut i: usize = 0;
    while i < n
        invariant
            n == s@.len(),
            i <= n,
            out@ == old(out)@ + seq!['"'] + escape(s@.take(i as int)),
        decreases n - i,
    {
        proof {
            lemma_escape_snoc(s@.take(i as int), s@[i as int]);
            assert(s@.take(i as int).push(s@[i as int]) =~= s@.take(i + 1));
        }
        let c = s.get_char(i);
        if c == '"' || c == '\\' {
            string_push(out, '\\');
        }
        string_push(out, c);
        proof {
            assert(out@ =~= old(out)@ + seq!['"'] + escape(s@.take(i + 1)));
        }
        i = i + 1;
    }
    string_push(out, '"');
    proof {
        assert(s@.take(n as int) =~= s@);
        assert(out@ =~= old(out)@ + jstr(s@));
    }
}

fn append_scalar(out: &mut String, v: &JsonScalar)
    ensures
        final(out)@ == old(out)@ + jscalar(v@),
{
    match v {
        JsonScalar::Text(s) => append_jstr(out, s.as_str()),
        JsonScalar::Number(n) => push_dec(out, *n),
        JsonScalar::Other => out.append("null"),
    }
}

/// Renders a member list as a compact JSON object.
pub fn render_object(pairs: &Vec<(String, JsonScalar)>) -> (r: String)
    ensures
        r@ == jobject(pairs_model(pairs@)),
{
    let mut out = String::new();
    string_push(&mut out, '{');
    let n = pairs.len();
    let mut i: usize = 0;
    while i < n
        invariant
            n == pairs@.len(),
            i <= n,
            out@ == seq!['{'] + jmembers(pairs_model(pairs@.take(i as int))),
        decreases n - i,
    {
        let ghost done = pairs_model(pairs@.take(i as int));
        let ghost entry = (pairs@[i as int].0@, pairs@[i as int].1@);
        proof {
            assert(pairs_model(pairs@.take(i + 1)) =~= done.push(entry));
            if i >= 1 {
                lemma_jmembers_snoc(done, entry);
            } else {
                assert(done.push(entry) =~= seq![entry]);
            }
        }
        if i > 0 {
            string_push(&mut out, ',');
        }
        let (key, value) = &pairs[i];
        append_jstr(&mut out, key.as_str());
        string_push(&mut out, ':');
        append_scalar(&mut out, value);
        proof {
            assert(out@ =~= seq!['{'] + jmembers(pairs_model(pairs@.take(i + 1))));
        }
        i = i + 1;
    }
    string_push(&mut out, '}');
    proof {
        assert(pairs@.take(n as int) =~= pairs@);
        assert(out@ =~= jobject(pairs_model(pairs@)));
    }
    out
}

// ---------------------------------------------------------------------------
// Parsing, consuming from the front
// ---------------------------------------------------------------------------
/// The single-character escapes a string body accepts after a backslash.
pub open spec fn is_escapable(c: char) -> bool {
    c == '"' || c == '\\' || c == '/' || c == 'b' || c == 'f' || c == 'n' || c == 'r' || c == 't'
}

/// The character such an escape stands for.
pub open spec fn esc_char(c: char) -> char {
    if c == 'b' {
        '\u{8}'
    } else if c == 'f' {
        '\u{c}'
    } else if c == 'n' {
        '\n'
    } else if c == 'r' {
        '\r'
    } else if c == 't' {
        '\t'
    } else {
        c
    }
}

/// Reads the characters of a JSON string after its opening quote, up to and
/// over the closing quote: the unescaped content and the remainder.
pub open spec fn p_strbody(s: Seq<char>) -> Option<(Seq<char>, Seq<char>)>
    decreases s.len(),
{
    if s.len() == 0 {
        None
    } else if s[0] == '"' {
        Some((Seq::empty(), s.drop_first()))
    } else if s[0] == '\\' {
        if s.len() >= 2 && is_escapable(s[1]) {
            match p_strbody(s.skip(2)) {
                Some(cr) => Some((seq![esc_char(s[1])] + cr.0, cr.1)),
                None => None,
            }
        } else {
            None
        }
    } else {
        match p_strbody(s.drop_first()) {
            Some(cr) => Some((seq![s[0]] + cr.0, cr.1)),
            None => None,
        }
    }
}

/// Reads a quoted JSON string from the front of `s`.
pub open spec fn p_string(s: Seq<char>) -> Option<(Seq<char>, Seq<char>)> {
    if s.len() >= 1 && s[0] == '"' {
        p_strbody(s.drop_first())
    } else {
        None
    }
}

/// The length of the run of decimal digits at the front of `s`.
pub open spec fn digits_len(s: Seq<char>) -> nat
    decreases s.len(),
{
    if s.len() == 0 || !is_digit_char(s[0]) {
        0
    } else {
        1 + digits_len(s.drop_first())
    }
}

/// The value of a sequence of decimal digits.
pub open spec fn digits_val(ds: Seq<char>) -> nat
    decreases ds.len(),
{
    if ds.len() == 0 {
        0
    } else {
        digits_val(ds.drop_last()) * 10 + digit_val(ds.last())
    }
}

/// Reads an unsigned number from the front of `s`; a value that does not
/// fit in 64 bits is rejected.
pub open spec fn p_number(s: Seq<char>) -> Option<(nat, Seq<char>)> {
    let k = digits_len(s);
    if k == 0 {
        None
    } else if digits_val(s.take(k as int)) < 0x10000000000000000 {
        Some((digits_val(s.take(k as int)), s.skip(k as int)))
    } else {
        None
    }
}

/// JSON whitespace.
pub open spec fn is_ws(c: char) -> bool {
    c == ' ' || c == '\t' || c == '\n' || c == '\r'
}

/// The length of the whitespace run at the front of `s`.
pub open spec fn ws_len(s: Seq<char>) -> nat
    decreases s.len(),
{
    if s.len() == 0 || !is_ws(s[0]) {
        0
    } else {
        1 + ws_len(s.drop_first())
    }
}

pub proof fn lemma_ws_len_le(s: Seq<char>)
    ensures
        ws_len(s) <= s.len(),
    decreases s.len(),
{
    if s.len() > 0 && is_ws(s[0]) {
        lemma_ws_len_le(s.drop_first());
    }
}

/// `s` with its leading whitespace removed.
pub open spec fn skip_ws(s: Seq<char>) -> Seq<char> {
    s.skip(ws_len(s) as int)
}

/// On a text that does not start with whitespace, skipping does nothing.
pub proof fn lemma_skip_ws_clean(s: Seq<char>)
    requires
        s.len() == 0 || !is_ws(s[0]),
    ensures
        skip_ws(s) == s,
{
    assert(ws_len(s) == 0);
    assert(s.skip(0) =~= s);
}

/// Skips past an unknown member's value: any text with strings honoured
/// and braces and brackets balanced, up to the first `,` or `}` outside
/// them. The remainder starts at that character; the content itself is
/// not validated.
pub open spec fn p_opaque(s: Seq<char>, depth: nat) -> Option<Seq<char>>
    decreases s.len(),
    via p_opaque_decreases
{
    if s.len() == 0 {
        None
    } else if depth == 0 && (s[0] == ',' || s[0] == '}') {
        Some(s)
    } else if s[0] == '"' {
        match p_strbody(s.drop_first()) {
            Some(cr) => p_opaque(cr.1, depth),
            None => None,
        }
    } else if s[0] == '{' || s[0] == '[' {
        p_opaque(s.drop_first(), depth + 1)
    } else if s[0] == ']' {
        if depth == 0 {
            None
        } else {
            p_opaque(s.drop_first(), (depth - 1) as nat)
        }
    } else if s[0] == '}' {
        p_opaque(s.drop_first(), (depth - 1) as nat)
    } else {
        p_opaque(s.drop_first(), depth)
    }
}

#[via_fn]
proof fn p_opaque_decreases(s: Seq<char>, depth: nat) {
    if s.len() > 0 && s[0] == '"' {
        lemma_p_strbody_consumes(s.drop_first());
    }
}

/// Whether the text starts with one whole unsigned number: digits whose
/// value fits 64 bits, not continued by a fraction or exponent mark.
pub open spec fn number_reads_clean(t: Seq<char>) -> bool {
    match p_number(t) {
        Some(nr) => nr.1.len() == 0 || !(nr.1[0] == '.' || nr.1[0] == 'e' || nr.1[0] == 'E'),
        None => false,
    }
}

/// Reads one member value: a string or a plain unsigned number is kept;
/// any other shape is skipped and read as opaque.
pub open spec fn p_scalar(s: Seq<char>) -> Option<(ScalarModel, Seq<char>)> {
    let t = skip_ws(s);
    if t.len() == 0 {
        None
    } else if t[0] == '"' {
        match p_string(t) {
            Some(cr) => Some((ScalarModel::TextV(cr.0), cr.1)),
            None => None,
        }
    } else if t[0] == ',' || t[0] == '}' || t[0] == ']' || t[0] == ':' {
        None
    } else if is_digit_char(t[0]) && number_reads_clean(t) {
        match p_number(t) {
            Some(nr) => Some((ScalarModel::NumberV(nr.0), nr.1)),
            None => None,
        }
    } else {
        match p_opaque(t, 0) {
            Some(r) => Some((ScalarModel::OtherV, r)),
            None => None,
        }
    }
}

/// Reads one `"key":value` member from the front of `s`, whitespace
/// allowed around the key and the colon.
pub open spec fn p_member(s: Seq<char>) -> Option<((Seq<char>, ScalarModel), Seq<char>)> {
    let t = skip_ws(s);
    match p_string(t) {
        Some(kr) => {
            let r1 = skip_ws(kr.1);
            if r1.len() >= 1 && r1[0] == ':' {
                match p_scalar(r1.drop_first()) {
                    Some(vr) => Some(((kr.0, vr.0), vr.1)),
                    None => None,
                }
            } else {
                None
            }
        },
        None => None,
    }
}

/// A successful read of a string body consumes at least its closing quote.
proof fn lemma_p_strbody_consumes(s: Seq<char>)
    ensures
        p_strbody(s) is Some ==> (p_strbody(s)->0).1.len() < s.len(),
    decreases s.len(),
{
    if s.len() == 0 {
    } else if s[0] == '"' {
    } else if s[0] == '\\' {
        if s.len() >= 2 && is_escapable(s[1]) {
            lemma_p_strbody_consumes(s.skip(2));
        }
    } else {
        lemma_p_strbody_consumes(s.drop_first());
    }
}

/// The digit run at the front of a sequence is no longer than the sequence.
pub proof fn lemma_digits_len_le(s: Seq<char>)
    ensures
        digits_len(s) <= s.len(),
    decreases s.len(),
{
    if s.len() > 0 && is_digit_char(s[0]) {
        lemma_digits_len_le(s.drop_first());
    }
}

/// A successful opaque skip never hands back more than it was given.
proof fn lemma_p_opaque_le(s: Seq<char>, depth: nat)
    ensures
        p_opaque(s, depth) is Some ==> (p_opaque(s, depth)->0).len() <= s.len(),
    decreases s.len(),
{
    if s.len() == 0 {
    } else if depth == 0 && (s[0] == ',' || s[0] == '}') {
    } else if s[0] == '"' {
        lemma_p_strbody_consumes(s.drop_first());
        match p_strbody(s.drop_first()) {
            Some(cr) => {
                lemma_p_opaque_le(cr.1, depth);
            },
            None => {},
        }
    } else if s[0] == '{' || s[0] == '[' {
        lemma_p_opaque_le(s.drop_first(), depth + 1);
    } else if s[0] == ']' {
        if depth > 0 {
            lemma_p_opaque_le(s.drop_first(), (depth - 1) as nat);
        }
    } else if s[0] == '}' {
        lemma_p_opaque_le(s.drop_first(), (depth - 1) as nat);
    } else {
        lemma_p_opaque_le(s.drop_first(), depth);
    }
}

/// A successful read of a scalar consumes at least one character.
proof fn lemma_p_scalar_consumes(s: Seq<char>)
    ensures
        p_scalar(s) is Some ==> (p_scalar(s)->0).1.len() < s.len(),
{
    let t = skip_ws(s);
    lemma_ws_len_le(s);
    if t.len() > 0 {
        if t[0] == '"' {
            lemma_p_strbody_consumes(t.drop_first());
        } else if t[0] == ',' || t[0] == '}' || t[0] == ']' || t[0] == ':' {
        } else if is_digit_char(t[0]) && number_reads_clean(t) {
            lemma_digits_len_le(t);
        } else {
            if t[0] == '{' || t[0] == '[' {
                lemma_p_opaque_le(t.drop_first(), 1);
            } else if t[0] == '}' || t[0] == ']' {
            } else {
                lemma_p_opaque_le(t.drop_first(), 0);
            }
        }
    }
}

/// A successful read of a member consumes at least one character.
proof fn lemma_p_member_consumes(s: Seq<char>)
    ensures
        p_member(s) is Some ==> (p_member(s)->0).1.len() < s.len(),
{
    if p_member(s) is Some {
        let t = skip_ws(s);
        lemma_ws_len_le(s);
        lemma_p_strbody_consumes(t.drop_first());
        let kr = p_string(t)->0;
        let r1 = skip_ws(kr.1);
        lemma_ws_len_le(kr.1);
        lemma_p_scalar_consumes(r1.drop_first());
    }
}

/// Reads one or more comma-separated members from the front of `s`.
pub open spec fn p_members(s: Seq<char>) -> Option<(Seq<(Seq<char>, ScalarModel)>, Seq<char>)>
    decreases s.len(),
    via p_members_decreases
{
    match p_member(s) {
        Some(mr) => {
            let r1 = skip_ws(mr.1);
            if r1.len() >= 1 && r1[0] == ',' {
                match p_members(r1.drop_first()) {
                    Some(msr) => Some((seq![mr.0] + msr.0, msr.1)),
                    None => None,
                }
            } else {
                Some((seq![mr.0], r1))
            }
        },
        None => None,
    }
}

#[via_fn]
proof fn p_members_decreases(s: Seq<char>) {
    lemma_p_member_consumes(s);
    if p_member(s) is Some {
        lemma_ws_len_le((p_member(s)->0).1);
    }
}

/// Reads a whole object from the front of `s`, which must start at its
/// opening brace; the member list hands back its rest already trimmed, so
/// the closing brace is checked directly.
pub open spec fn p_object(s: Seq<char>) -> Option<(Seq<(Seq<char>, ScalarModel)>, Seq<char>)> {
    if s.len() >= 1 && s[0] == '{' {
        let t = skip_ws(s.drop_first());
        if t.len() >= 1 && t[0] == '}' {
            Some((Seq::empty(), t.drop_first()))
        } else {
            match p_members(t) {
                Some(mr) => {
                    if mr.1.len() >= 1 && mr.1[0] == '}' {
                        Some((mr.0, mr.1.drop_first()))
                    } else {
                        None
                    }
                },
                None => None,
            }
        }
    } else {
        None
    }
}

/// What a well-formed input means to this crate: one object, nothing but
/// whitespace around it.
pub open spec fn parse_object_spec(s: Seq<char>) -> Option<Seq<(Seq<char>, ScalarModel)>> {
    match p_object(skip_ws(s)) {
        Some(mr) => {
            if skip_ws(mr.1).len() == 0 {
                Some(mr.0)
            } else {
                None
            }
        },
        None => None,
    }
}

// ---------------------------------------------------------------------------
// The parser
// ---------------------------------------------------------------------------
/// Prefixes the content of a string-body read with already-read characters.
pub open spec fn prepend_parse(pre: Seq<char>, o: Option<(Seq<char>, Seq<char>)>) -> Option<
    (Seq<char>, Seq<char>),
> {
    match o {
        Some(cr) => Some((pre + cr.0, cr.1)),
        None => None,
    }
}

fn parse_strbody(s: &str, start: usize, n: usize) -> (r: Option<(String, usize)>)
    requires
        n == s@.len(),
        start <= n,
    ensures
        match r {
            Some(cj) => start < cj.1 <= n && p_strbody(s@.skip(start as int)) == Some(
                (cj.0@, s@.skip(cj.1 as int)),
            ),
            None => p_strbody(s@.skip(start as int)) is None,
        },
{
    let mut acc = String::new();
    let mut i: usize = start;
    proof {
        let o = p_strbody(s@.skip(start as int));
        if o is Some {
            assert(Seq::<char>::empty() + (o->0).0 =~= (o->0).0);
        }
    }
    loop
        invariant
            n == s@.len(),
            start <= i <= n,
            p_strbody(s@.skip(start as int)) == prepend_parse(
                acc@,
                p_strbody(s@.skip(i as int)),
            ),
        decreases n - i,
    {
        if i >= n {
            return None;
        }
        let c = s.get_char(i);
        proof {
            assert(s@.skip(i as int)[0] == s@[i as int]);
        }
        if c == '"' {
            proof {
                assert(s@.skip(i as int).drop_first() =~= s@.skip(i + 1));
                assert(acc@ + Seq::<char>::empty() =~= acc@);
            }
            return Some((acc, i + 1));
        }
        if c == '\\' {
            if i + 1 >= n {
                return None;
            }
            let c2 = s.get_char(i + 1);
            proof {
                assert(s@.skip(i as int)[1] == s@[i + 1]);
            }
            if c2 == '"' || c2 == '\\' || c2 == '/' || c2 == 'b' || c2 == 'f' || c2 == 'n'
                || c2 == 'r' || c2 == 't' {
                let decoded = match c2 {
                    'b' => '\u{8}',
                    'f' => '\u{c}',
                    'n' => '\n',
                    'r' => '\r',
                    't' => '\t',
                    _ => c2,
                };
                proof {
                    assert(decoded == esc_char(c2));
                    assert(s@.skip(i as int).skip(2) =~= s@.skip(i + 2));
                    let inner = p_strbody(s@.skip(i + 2));
                    if inner is Some {
                        assert((acc@ + seq![decoded]) + (inner->0).0 =~= acc@ + (seq![decoded] + (
                        inner->0).0));
                    }
                }
                string_push(&mut acc, decoded);
                i = i + 2;
            } else {
                return None;
            }
        } else {
            proof {
                assert(s@.skip(i as int).drop_first() =~= s@.skip(i + 1));
                let inner = p_strbody(s@.skip(i + 1));
                if inner is Some {
                    assert((acc@ + seq![c]) + (inner->0).0 =~= acc@ + (seq![c] + (inner->0).0));
                }
            }
            string_push(&mut acc, c);
            i = i + 1;
        }
    }
}

fn parse_string(s: &str, start: usize, n: usize) -> (r: Option<(String, usize)>)
    requires
        n == s@.len(),
        start <= n,
    ensures
        match r {
            Some(cj) => start < cj.1 <= n && p_string(s@.skip(start as int)) == Some(
                (cj.0@, s@.skip(cj.1 as int)),
            ),
            None => p_string(s@.skip(start as int)) is None,
        },
{
    if start < n {
        let c = s.get_char(start);
        proof {
            assert(s@.skip(start as int)[0] == s@[start as int]);
        }
        if c == '"' {
            proof {
                assert(s@.skip(start as int).drop_first() =~= s@.skip(start + 1));
            }
            parse_strbody(s, start + 1, n)
        } else {
            None
        }
    } else {
        None
    }
}

pub(crate) fn parse_number(s: &str, start: usize, n: usize) -> (r: Option<(u64, usize)>)
    requires
        n == s@.len(),
        start <= n,
    ensures
        match r {
            Some(vj) => start < vj.1 <= n && p_number(s@.skip(start as int)) == Some(
                (vj.0 as nat, s@.skip(vj.1 as int)),
            ),
            None => p_number(s@.skip(start as int)) is None,
        },
{
    let mut i: usize = start;
    let mut val: u64 = 0;
    let mut over = false;
    proof {
        assert(s@.subrange(start as int, start as int) =~= Seq::<char>::empty());
    }
    loop
        invariant
            n == s@.len(),
            start <= i <= n,
            digits_len(s@.skip(start as int)) == (i - start) + digits_len(s@.skip(i as int)),
            !over ==> val as nat == digits_val(s@.subrange(start as int, i as int)),
            over ==> digits_val(s@.subrange(start as int, i as int)) >= 0x10000000000000000,
        decreases n - i,
    {
        let mut stop = i >= n;
        let mut c = '0';
        if !stop {
            c = s.get_char(i);
            proof {
                assert(s@.skip(i as int)[0] == s@[i as int]);
            }
            let u = c as u32;
            stop = !(48 <= u && u <= 57);
        }
        if stop {
            // the digit run ends here
            let ghost k = (i - start) as int;
            proof {
                assert(digits_len(s@.skip(i as int)) == 0);
                assert(s@.skip(start as int).take(k) =~= s@.subrange(start as int, i as int));
                assert(s@.skip(start as int).skip(k) =~= s@.skip(i as int));
            }
            if i == start {
                return None;
            }
            if over {
                return None;
            }
            return Some((val, i));
        }
        // c is a digit: extend the run and the value
        let d: u64 = (c as u32 - 48) as u64;
        let ghost pre = s@.subrange(start as int, i as int);
        proof {
            assert(is_digit_char(s@[i as int]));
            assert(s@.skip(i as int).drop_first() =~= s@.skip(i + 1));
            assert(s@.subrange(start as int, i + 1) =~= pre.push(s@[i as int]));
            assert(pre.push(s@[i as int]).drop_last() =~= pre);
            assert(digits_val(s@.subrange(start as int, i + 1)) == digits_val(pre) * 10 + d);
        }
        if over {
            proof {
                assert(digits_val(pre) * 10 + d >= 0x10000000000000000) by (nonlinear_arith)
                    requires
                        digits_val(pre) >= 0x10000000000000000,
                        d >= 0,
                ;
            }
        } else {
            if val <= (u64::MAX - d) / 10 {
                proof {
                    assert(val * 10 + d <= u64::MAX) by (nonlinear_arith)
                        requires
                            val <= (u64::MAX - d) / 10,
                            d <= u64::MAX,
                    ;
                }
                val = val * 10 + d;
            } else {
                proof {
                    assert(val * 10 + d > u64::MAX) by (nonlinear_arith)
                        requires
                            val > (u64::MAX - d) / 10,
                            d <= 9,
                    ;
                }
                over = true;
            }
        }
        i = i + 1;
    }
}

fn skip_ws_exec(s: &str, start: usize, n: usize) -> (j: usize)
    requires
        n == s@.len(),
        start <= n,
    ensures
        start <= j <= n,
        s@.skip(j as int) == skip_ws(s@.skip(start as int)),
{
    let mut i: usize = start;
    loop
        invariant
            n == s@.len(),
            start <= i <= n,
            skip_ws(s@.skip(start as int)) == skip_ws(s@.skip(i as int)),
        decreases n - i,
    {
        if i >= n {
            proof {
                assert(s@.skip(i as int).len() == 0);
                lemma_skip_ws_clean(s@.skip(i as int));
            }
            return i;
        }
        let c = s.get_char(i);
        proof {
            assert(s@.skip(i as int)[0] == s@[i as int]);
        }
        if !(c == ' ' || c == '\t' || c == '\n' || c == '\r') {
            proof {
                lemma_skip_ws_clean(s@.skip(i as int));
            }
            return i;
        }
        proof {
            let cur = s@.skip(i as int);
            assert(cur.drop_first() =~= s@.skip(i + 1));
            assert(ws_len(cur) == 1 + ws_len(s@.skip(i + 1)));
            lemma_ws_len_le(s@.skip(i + 1));
            assert(cur.skip(ws_len(cur) as int) =~= s@.skip(i + 1).skip(
                ws_len(s@.skip(i + 1)) as int,
            ));
        }
        i = i + 1;
    }
}

fn parse_opaque(s: &str, start: usize, n: usize) -> (r: Option<usize>)
    requires
        n == s@.len(),
        start <= n,
    ensures
        match r {
            Some(j) => start <= j <= n && p_opaque(s@.skip(start as int), 0) == Some(
                s@.skip(j as int),
            ),
            None => p_opaque(s@.skip(start as int), 0) is None,
        },
{
    let mut i: usize = start;
    let mut depth: usize = 0;
    loop
        invariant
            n == s@.len(),
            start <= i <= n,
            depth <= i - start,
            p_opaque(s@.skip(start as int), 0) == p_opaque(s@.skip(i as int), depth as nat),
        decreases n - i,
    {
        if i >= n {
            proof {
                assert(s@.skip(i as int).len() == 0);
            }
            return None;
        }
        let c = s.get_char(i);
        proof {
            assert(s@.skip(i as int)[0] == s@[i as int]);
            assert(s@.skip(i as int).drop_first() =~= s@.skip(i + 1));
        }
        if depth == 0 && (c == ',' || c == '}') {
            return Some(i);
        }
        if c == '"' {
            match parse_strbody(s, i + 1, n) {
                Some((_content, j)) => {
                    i = j;
                },
                None => {
                    return None;
                },
            }
        } else if c == '{' || c == '[' {
            depth = depth + 1;
            i = i + 1;
        } else if c == ']' {
            if depth == 0 {
                return None;
            }
            depth = depth - 1;
            i = i + 1;
        } else if c == '}' {
            // a closing brace at depth zero returned above
            depth = depth - 1;
            i = i + 1;
        } else {
            i = i + 1;
        }
    }
}

fn parse_scalar(s: &str, start: usize, n: usize) -> (r: Option<(JsonScalar, usize)>)
    requires
        n == s@.len(),
        start <= n,
    ensures
        match r {
            Some(vj) => start <= vj.1 <= n && p_scalar(s@.skip(start as int)) == Some(
                (vj.0@, s@.skip(vj.1 as int)),
            ),
            None => p_scalar(s@.skip(start as int)) is None,
        },
{
    let t0 = skip_ws_exec(s, start, n);
    if t0 >= n {
        proof {
            assert(s@.skip(t0 as int).len() == 0);
        }
        return None;
    }
    let c = s.get_char(t0);
    proof {
        assert(s@.skip(t0 as int)[0] == s@[t0 as int]);
    }
    if c == '"' {
        match parse_string(s, t0, n) {
            Some((text, j)) => Some((JsonScalar::Text(text), j)),
            None => None,
        }
    } else if c == ',' || c == '}' || c == ']' || c == ':' {
        None
    } else if {
        let u = c as u32;
        48 <= u && u <= 57
    } {
        proof {
            assert(is_digit_char(c));
        }
        let num = parse_number(s, t0, n);
        let mut clean = false;
        let mut value: u64 = 0;
        let mut after: usize = t0;
        match num {
            Some((v, j)) => {
                value = v;
                after = j;
                if j < n {
                    let c2 = s.get_char(j);
                    proof {
                        assert(s@.skip(j as int)[0] == s@[j as int]);
                    }
                    clean = !(c2 == '.' || c2 == 'e' || c2 == 'E');
                } else {
                    proof {
                        assert(s@.skip(j as int).len() == 0);
                    }
                    clean = true;
                }
            },
            None => {},
        }
        proof {
            assert(clean == number_reads_clean(s@.skip(t0 as int)));
        }
        if clean {
            Some((JsonScalar::Number(value), after))
        } else {
            match parse_opaque(s, t0, n) {
                Some(j) => Some((JsonScalar::Other, j)),
                None => None,
            }
        }
    } else {
        match parse_opaque(s, t0, n) {
            Some(j) => Some((JsonScalar::Other, j)),
            None => None,
        }
    }
}

fn parse_member(s: &str, start: usize, n: usize) -> (r: Option<((String, JsonScalar), usize)>)
    requires
        n == s@.len(),
        start <= n,
    ensures
        match r {
            Some(kvj) => start <= kvj.1 <= n && p_member(s@.skip(start as int)) == Some(
                ((kvj.0.0@, kvj.0.1@), s@.skip(kvj.1 as int)),
            ),
            None => p_member(s@.skip(start as int)) is None,
        },
{
    let t0 = skip_ws_exec(s, start, n);
    match parse_string(s, t0, n) {
        None => None,
        Some((k, j1)) => {
            let r0 = skip_ws_exec(s, j1, n);
            if r0 < n {
                let c = s.get_char(r0);
                proof {
                    assert(s@.skip(r0 as int)[0] == s@[r0 as int]);
                }
                if c == ':' {
                    proof {
                        assert(s@.skip(r0 as int).drop_first() =~= s@.skip(r0 + 1));
                    }
                    match parse_scalar(s, r0 + 1, n) {
                        Some((v, j2)) => Some(((k, v), j2)),
                        None => None,
                    }
                } else {
                    None
                }
            } else {
                proof {
                    assert(s@.skip(r0 as int).len() == 0);
                }
                None
            }
        },
    }
}

fn parse_members(s: &str, start: usize, n: usize) -> (r: Option<
    (Vec<(String, JsonScalar)>, usize),
>)
    requires
        n == s@.len(),
        start <= n,
    ensures
        match r {
            Some(msj) => start < msj.1 <= n && p_members(s@.skip(start as int)) == Some(
                (pairs_model(msj.0@), s@.skip(msj.1 as int)),
            ),
            None => p_members(s@.skip(start as int)) is None,
        },
    decreases n - start,
{
    match parse_member(s, start, n) {
        None => None,
        Some((m, j)) => {
            proof {
                lemma_p_member_consumes(s@.skip(start as int));
            }
            let ghost m_model = (m.0@, m.1@);
            let r0 = skip_ws_exec(s, j, n);
            let mut comma = false;
            if r0 < n {
                let c = s.get_char(r0);
                proof {
                    assert(s@.skip(r0 as int)[0] == s@[r0 as int]);
                }
                if c == ',' {
                    comma = true;
                }
            } else {
                proof {
                    assert(s@.skip(r0 as int).len() == 0);
                }
            }
            if comma {
                proof {
                    assert(s@.skip(r0 as int).drop_first() =~= s@.skip(r0 + 1));
                }
                match parse_members(s, r0 + 1, n) {
                    Some((mut ms, j2)) => {
                        let ghost tail_model = pairs_model(ms@);
                        ms.insert(0, m);
                        proof {
                            assert(pairs_model(ms@) =~= seq![m_model] + tail_model);
                        }
                        Some((ms, j2))
                    },
                    None => None,
                }
            } else {
                let mut ms: Vec<(String, JsonScalar)> = Vec::new();
                ms.push(m);
                proof {
                    assert(pairs_model(ms@) =~= seq![m_model]);
                }
                Some((ms, r0))
            }
        },
    }
}

/// Parses a whole input as one flat JSON object: string and number
/// members are read back, a member of any other value shape is kept as
/// opaque, whitespace is allowed throughout, and anything but whitespace
/// after the object is rejected.
pub fn parse_object(s: &str) -> (r: Option<Vec<(String, JsonScalar)>>)
    ensures
        match r {
            Some(ms) => parse_object_spec(s@) == Some(pairs_model(ms@)),
            None => parse_object_spec(s@) is None,
        },
{
    let n = s.unicode_len();
    let i0 = skip_ws_exec(s, 0, n);
    proof {
        assert(s@.skip(0) =~= s@);
    }
    if i0 >= n {
        proof {
            assert(s@.skip(i0 as int).len() == 0);
        }
        return None;
    }
    let c0 = s.get_char(i0);
    proof {
        assert(s@.skip(i0 as int)[0] == s@[i0 as int]);
        assert(s@.skip(i0 as int).drop_first() =~= s@.skip(i0 + 1));
    }
    if c0 != '{' {
        return None;
    }
    let t0 = skip_ws_exec(s, i0 + 1, n);
    if t0 < n {
        let c1 = s.get_char(t0);
        proof {
            assert(s@.skip(t0 as int)[0] == s@[t0 as int]);
            assert(s@.skip(t0 as int).drop_first() =~= s@.skip(t0 + 1));
        }
        if c1 == '}' {
            let e = skip_ws_exec(s, t0 + 1, n);
            if e == n {
                let ms: Vec<(String, JsonScalar)> = Vec::new();
                proof {
                    assert(pairs_model(ms@) =~= Seq::<(Seq<char>, ScalarModel)>::empty());
                    assert(s@.skip(e as int).len() == 0);
                }
                return Some(ms);
            } else {
                proof {
                    assert(s@.skip(e as int).len() > 0);
                }
                return None;
            }
        }
    }
    match parse_members(s, t0, n) {
        None => None,
        Some((ms, j)) => {
            if j < n {
                let c = s.get_char(j);
                proof {
                    assert(s@.skip(j as int)[0] == s@[j as int]);
                    assert(s@.skip(j as int).drop_first() =~= s@.skip(j + 1));
                }
                if c == '}' {
                    let e = skip_ws_exec(s, j + 1, n);
                    if e == n {
                        proof {
                            assert(s@.skip(e as int).len() == 0);
                        }
                        Some(ms)
                    } else {
                        proof {
                            assert(s@.skip(e as int).len() > 0);
                        }
                        None
                    }
                } else {
                    None
                }
            } else {
                proof {
                    assert(s@.skip(j as int).len() == 0);
                }
                None
            }
        },
    }
}

// ---------------------------------------------------------------------------
// Round trip: what this crate renders, its parser reads back
// ---------------------------------------------------------------------------
/// The decimal rendering of a number is a nonempty digit run with its value.
pub proof fn lemma_dec_rep_props(n: nat)
    ensures
        dec_rep(n).len() >= 1,
        forall|i: int| 0 <= i < dec_rep(n).len() ==> is_digit_char(#[trigger] dec_rep(n)[i]),
        digits_val(dec_rep(n)) == n,
    decreases n,
{
    if n < 10 {
        assert(dec_rep(n) =~= seq![digit_char(n)]);
        assert(seq![digit_char(n)].drop_last() =~= Seq::<char>::empty());
        assert(seq![digit_char(n)].last() == digit_char(n));
        assert(digits_val(Seq::<char>::empty()) == 0);
        assert(digits_val(dec_rep(n)) == digit_val(digit_char(n)));
        assert(digit_val(digit_char(n)) == n);
        assert(is_digit_char(digit_char(n)));
    } else {
        lemma_dec_rep_props(n / 10);
        let pre = dec_rep(n / 10);
        let c = digit_char(n % 10);
        assert(dec_rep(n) == pre.push(c));
        assert(pre.push(c).drop_last() =~= pre);
        assert(pre.push(c).last() == c);
        assert(digits_val(dec_rep(n)) == digits_val(pre) * 10 + digit_val(c));
        assert(digit_val(c) == n % 10);
        assert(is_digit_char(c));
        assert(forall|i: int|
            0 <= i < dec_rep(n).len() ==> is_digit_char(#[trigger] dec_rep(n)[i]));
    }
}

/// A digit run followed by a non-digit is measured exactly.
proof fn lemma_digits_len_all(ds: Seq<char>, rest: Seq<char>)
    requires
        forall|i: int| 0 <= i < ds.len() ==> is_digit_char(#[trigger] ds[i]),
        rest.len() == 0 || !is_digit_char(rest[0]),
    ensures
        digits_len(ds + rest) == ds.len(),
    decreases ds.len(),
{
    if ds.len() == 0 {
        assert(ds + rest =~= rest);
    } else {
        assert((ds + rest)[0] == ds[0]);
        assert((ds + rest).drop_first() =~= ds.drop_first() + rest);
        lemma_digits_len_all(ds.drop_first(), rest);
    }
}

/// Reading a rendered number back gives the number and the remainder.
pub proof fn lemma_p_number_rt(v: nat, rest: Seq<char>)
    requires
        v < 0x10000000000000000,
        rest.len() == 0 || !is_digit_char(rest[0]),
    ensures
        p_number(dec_rep(v) + rest) == Some((v, rest)),
{
    lemma_dec_rep_props(v);
    lemma_digits_len_all(dec_rep(v), rest);
    let s = dec_rep(v) + rest;
    let k = digits_len(s) as int;
    assert(s.take(k) =~= dec_rep(v));
    assert(s.skip(k) =~= rest);
}

/// Reading an escaped string body back gives the content and the remainder.
proof fn lemma_strbody_rt(content: Seq<char>, rest: Seq<char>)
    ensures
        p_strbody(escape(content) + seq!['"'] + rest) == Some((content, rest)),
    decreases content.len(),
{
    let s = escape(content) + seq!['"'] + rest;
    if content.len() == 0 {
        assert(escape(content) =~= Seq::<char>::empty());
        assert(s =~= seq!['"'] + rest);
        assert(s[0] == '"');
        assert(s.drop_first() =~= rest);
        assert(p_strbody(s) == Some((Seq::<char>::empty(), rest)));
    } else {
        let c = content[0];
        lemma_strbody_rt(content.drop_first(), rest);
        let s2 = escape(content.drop_first()) + seq!['"'] + rest;
        if c == '"' || c == '\\' {
            assert(escape(content) =~= seq!['\\', c] + escape(content.drop_first()));
            assert(s.len() >= 2);
            assert(s[0] == '\\');
            assert(s[1] == c);
            assert(is_escapable(c));
            assert(esc_char(c) == c);
            assert(s.skip(2) =~= s2);
            assert(seq![c] + content.drop_first() =~= content);
        } else {
            assert(escape(content) =~= seq![c] + escape(content.drop_first()));
            assert(s[0] == c);
            assert(s.drop_first() =~= s2);
            assert(seq![c] + content.drop_first() =~= content);
        }
    }
}

/// Reading a rendered string back gives the content and the remainder.
pub proof fn lemma_p_string_rt(k: Seq<char>, rest: Seq<char>)
    ensures
        p_string(jstr(k) + rest) == Some((k, rest)),
{
    let s = jstr(k) + rest;
    assert(s[0] == '"');
    assert(s.drop_first() =~= escape(k) + seq!['"'] + rest);
    lemma_strbody_rt(k, rest);
}

/// Whether a scalar's rendering reads back as itself: a string, or a
/// number that fits in 64 bits.
pub open spec fn scalar_ok(v: ScalarModel) -> bool {
    match v {
        ScalarModel::TextV(_) => true,
        ScalarModel::NumberV(n) => n < 0x10000000000000000,
        ScalarModel::OtherV => false,
    }
}

proof fn lemma_p_scalar_rt(v: ScalarModel, rest: Seq<char>)
    requires
        scalar_ok(v),
        rest.len() == 0 || rest[0] == ',' || rest[0] == '}',
    ensures
        p_scalar(jscalar(v) + rest) == Some((v, rest)),
{
    let s = jscalar(v) + rest;
    match v {
        ScalarModel::TextV(t) => {
            assert(s =~= jstr(t) + rest);
            assert(s[0] == '"');
            assert(!is_ws(s[0]));
            lemma_skip_ws_clean(s);
            lemma_p_string_rt(t, rest);
        },
        ScalarModel::NumberV(nv) => {
            lemma_dec_rep_props(nv);
            assert(s[0] == dec_rep(nv)[0]);
            assert(is_digit_char(s[0]));
            assert(s[0] != '"');
            assert(!is_ws(s[0]));
            lemma_skip_ws_clean(s);
            assert(s =~= dec_rep(nv) + rest);
            lemma_p_number_rt(nv, rest);
            assert(number_reads_clean(s));
        },
        ScalarModel::OtherV => {
            assert(false);
        },
    }
}

proof fn lemma_p_member_rt(k: Seq<char>, v: ScalarModel, rest: Seq<char>)
    requires
        scalar_ok(v),
        rest.len() == 0 || rest[0] == ',' || rest[0] == '}',
    ensures
        p_member(jmember(k, v) + rest) == Some(((k, v), rest)),
{
    let s = jmember(k, v) + rest;
    let rest1 = seq![':'] + (jscalar(v) + rest);
    assert(s =~= jstr(k) + rest1);
    assert(s[0] == '"');
    lemma_skip_ws_clean(s);
    lemma_p_string_rt(k, rest1);
    assert(rest1[0] == ':');
    lemma_skip_ws_clean(rest1);
    assert(rest1.drop_first() =~= jscalar(v) + rest);
    lemma_p_scalar_rt(v, rest);
}

proof fn lemma_p_members_rt(ms: Seq<(Seq<char>, ScalarModel)>, rest: Seq<char>)
    requires
        ms.len() >= 1,
        scalars_bounded(ms),
        rest.len() >= 1,
        rest[0] == '}',
    ensures
        p_members(jmembers(ms) + rest) == Some((ms, rest)),
    decreases ms.len(),
{
    let s = jmembers(ms) + rest;
    assert(scalar_ok(ms[0].1));
    if ms.len() == 1 {
        assert(jmembers(ms) == jmember(ms[0].0, ms[0].1));
        lemma_p_member_rt(ms[0].0, ms[0].1, rest);
        assert(p_member(s) == Some(((ms[0].0, ms[0].1), rest)));
        lemma_skip_ws_clean(rest);
        assert(rest[0] != ',');
        assert(seq![(ms[0].0, ms[0].1)] =~= ms);
    } else {
        let tail = jmembers(ms.drop_first());
        let rest1 = seq![','] + (tail + rest);
        assert(jmembers(ms) == jmember(ms[0].0, ms[0].1) + seq![','] + tail);
        assert(s =~= jmember(ms[0].0, ms[0].1) + rest1);
        lemma_p_member_rt(ms[0].0, ms[0].1, rest1);
        lemma_skip_ws_clean(rest1);
        assert(rest1[0] == ',');
        assert(rest1.drop_first() =~= tail + rest);
        assert(scalars_bounded(ms.drop_first()));
        lemma_p_members_rt(ms.drop_first(), rest);
        assert(seq![(ms[0].0, ms[0].1)] + ms.drop_first() =~= ms);
    }
}

/// Round trip: the parser reads a rendered object back as exactly the
/// member list it was rendered from, whatever the keys and values hold.
pub proof fn lemma_object_roundtrip(ms: Seq<(Seq<char>, ScalarModel)>)
    requires
        scalars_bounded(ms),
    ensures
        parse_object_spec(jobject(ms)) == Some(ms),
{
    let s = jobject(ms);
    assert(s[0] == '{');
    lemma_skip_ws_clean(s);
    assert(s.drop_first() =~= jmembers(ms) + seq!['}']);
    if ms.len() == 0 {
        assert(jmembers(ms) =~= Seq::<char>::empty());
        assert(s.drop_first() =~= seq!['}']);
        lemma_skip_ws_clean(s.drop_first());
        assert(seq!['}'].drop_first() =~= Seq::<char>::empty());
    } else {
        let u = jmembers(ms) + seq!['}'];
        assert(jmembers(ms)[0] == jmember(ms[0].0, ms[0].1)[0]);
        assert(jmember(ms[0].0, ms[0].1)[0] == '"');
        assert(u[0] == '"');
        lemma_skip_ws_clean(u);
        assert(u[0] != '}');
        lemma_p_members_rt(ms, seq!['}']);
        assert(seq!['}'].drop_first() =~= Seq::<char>::empty());
    }
    lemma_skip_ws_clean(Seq::<char>::empty());
}

} // verus!
