//! Minimal parser for the path behind `MAIL FROM:` and `RCPT TO:`. It takes what
//! SMTP clients send:
//!
//! - `<a@b.com>`
//! - `<>`, the null sender
//! - `<a@b.com> SIZE=12345 BODY=8BITMIME SMTPUTF8`
//! - `a@b.com`, without angle brackets
//! - `<"odd name"@host>`, with a quoted local part

use vstd::prelude::*;
use vstd::string::*;

use crate::error::Error;
use crate::text::chars;
use crate::text::number;
use crate::text::unicode;
use crate::text::words;

verus! {

/// The parameters behind a path.
#[derive(Debug, Clone)]
pub struct PathExtensions {
    pub size: Option<u64>,
    pub body_8bitmime: bool,
    pub smtputf8: bool,
    /// The parameters that are not recognised, with their keys in capitals.
    pub extras: Vec<(String, Option<String>)>,
}

/// A path and the parameters behind it.
#[derive(Debug, Clone)]
pub struct ParsedPath {
    /// The mailbox, such as `a@b.com`. Empty for the null sender.
    pub mailbox: String,
    pub extensions: PathExtensions,
}

/// Parameters as a mathematical value.
#[verifier::ext_equal]
pub struct ExtensionsModel {
    pub size: Option<u64>,
    pub body_8bitmime: bool,
    pub smtputf8: bool,
    pub extras: Seq<(Seq<char>, Option<Seq<char>>)>,
}

/// A parameter as characters.
pub open spec fn extra_view(e: (String, Option<String>)) -> (Seq<char>, Option<Seq<char>>) {
    (e.0@, chars::opt_view(e.1))
}

impl View for PathExtensions {
    type V = ExtensionsModel;

    open spec fn view(&self) -> ExtensionsModel {
        ExtensionsModel {
            size: self.size,
            body_8bitmime: self.body_8bitmime,
            smtputf8: self.smtputf8,
            extras: self.extras@.map_values(|e: (String, Option<String>)| extra_view(e)),
        }
    }
}

/// No parameters.
pub open spec fn no_extensions() -> ExtensionsModel {
    ExtensionsModel { size: None, body_8bitmime: false, smtputf8: false, extras: Seq::empty() }
}

impl Default for PathExtensions {
    fn default() -> (r: Self)
        ensures
            r@ == no_extensions(),
    {
        let r = PathExtensions {
            size: None,
            body_8bitmime: false,
            smtputf8: false,
            extras: Vec::new(),
        };
        assert(r@ =~= no_extensions());
        r
    }
}

/// Whether the end of `s` lies inside a quoted string, and behind a backslash
/// that escapes what follows.
pub open spec fn quote_state(s: Seq<char>) -> (bool, bool)
    decreases s.len(),
{
    if s.len() == 0 {
        (false, false)
    } else {
        let (quoted, escaped) = quote_state(s.drop_last());
        if s.last() == '\\' && quoted {
            (quoted, !escaped)
        } else if s.last() == '"' && !escaped {
            (!quoted, false)
        } else {
            (quoted, false)
        }
    }
}

/// A closing bracket that stands outside quotes.
pub open spec fn closes_at(s: Seq<char>, i: int) -> bool {
    s[i] == '>' && !quote_state(s.take(i)).0
}

/// The first closing bracket of `s` outside quotes, from `k` on.
pub open spec fn closing_from(s: Seq<char>, k: int) -> Option<int>
    decreases s.len() - k,
{
    if k < 0 || k >= s.len() {
        None
    } else if closes_at(s, k) {
        Some(k)
    } else {
        closing_from(s, k + 1)
    }
}

/// The mailbox of a path and what follows it; nothing where an opening bracket
/// is never closed.
pub open spec fn split_path(input: Seq<char>) -> Option<(Seq<char>, Seq<char>)> {
    let s = words::trim_start(input);
    if s.len() > 0 && s[0] == '<' {
        let t = s.skip(1);
        match closing_from(t, 0) {
            Some(i) => Some((t.take(i), words::trim(t.skip(i + 1)))),
            None => None,
        }
    } else {
        let n = words::word_len(s, words::any_space()) as int;
        Some((s.take(n), words::trim(s.skip(n))))
    }
}

/// The separator between the key and the value of a parameter.
pub open spec fn equals_sign() -> spec_fn(char) -> bool {
    |c: char| c == '='
}

/// The key of a parameter, in capitals.
pub open spec fn key_of(part: Seq<char>) -> Seq<char> {
    unicode::ascii_upper(part.take(words::word_len(part, equals_sign()) as int))
}

/// The value of a parameter: what stands behind the first equals sign.
pub open spec fn value_of(part: Seq<char>) -> Option<Seq<char>> {
    let n = words::word_len(part, equals_sign()) as int;
    if n < part.len() {
        Some(part.skip(n + 1))
    } else {
        None
    }
}

/// The parameters after one more.
pub open spec fn with_param(e: ExtensionsModel, part: Seq<char>) -> ExtensionsModel {
    let key = key_of(part);
    let value = value_of(part);
    if key == "SIZE"@ && value is Some {
        ExtensionsModel { size: number::parsed_u64(value->0), ..e }
    } else if key == "BODY"@ && value is Some && unicode::same_ignoring_case(
        value->0,
        "8BITMIME"@,
    ) {
        ExtensionsModel { body_8bitmime: true, ..e }
    } else if key == "SMTPUTF8"@ {
        ExtensionsModel { smtputf8: true, ..e }
    } else {
        ExtensionsModel { extras: e.extras.push((key, value)), ..e }
    }
}

/// The parameters that a list of words writes.
pub open spec fn params_of(parts: Seq<Seq<char>>) -> ExtensionsModel
    decreases parts.len(),
{
    if parts.len() == 0 {
        no_extensions()
    } else {
        with_param(params_of(parts.drop_last()), parts.last())
    }
}

/// The parameters that the text behind a path writes.
pub open spec fn extensions_of(tail: Seq<char>) -> ExtensionsModel {
    params_of(words::words(tail, words::ascii_spaces()))
}

/// Parses the text behind `MAIL FROM:` or `RCPT TO:`.
pub fn parse_path(input: &str) -> (r: Result<ParsedPath, Error>)
    ensures
        match split_path(input@) {
            Some((mailbox, tail)) => r matches Ok(p) && p.mailbox@ == mailbox && p.extensions@
                == extensions_of(tail),
            None => r matches Err(Error::SmtpProto(m)) && m@ == "unterminated <...> in path"@,
        },
{
    let s: String = words::trimmed_start(input);
    let v: Vec<char> = chars::chars_of(s.as_str());
    if v.len() > 0 && v[0] == '<' {
        let t: &[char] = vstd::slice::slice_subrange(v.as_slice(), 1, v.len());
        assert(t@ =~= s@.skip(1));
        match find_closing(t) {
            Some(end) => {
                let mailbox: String = chars::string_of(t, 0, end);
                let rest: String = chars::string_of(t, end + 1, t.len());
                assert(mailbox@ =~= t@.take(end as int));
                assert(rest@ =~= t@.skip(end + 1));
                let extensions = parse_extensions(words::trimmed(rest.as_str()).as_str());
                Ok(ParsedPath { mailbox, extensions })
            },
            None => Err(Error::SmtpProto("unterminated <...> in path".to_owned())),
        }
    } else {
        let n: usize = find_space(v.as_slice());
        let mailbox: String = chars::string_of(v.as_slice(), 0, n);
        let rest: String = chars::string_of(v.as_slice(), n, v.len());
        assert(mailbox@ =~= s@.take(n as int));
        assert(rest@ =~= s@.skip(n as int));
        let extensions = parse_extensions(words::trimmed(rest.as_str()).as_str());
        Ok(ParsedPath { mailbox, extensions })
    }
}

/// Where the path ends: the first closing bracket outside quotes.
fn find_closing(s: &[char]) -> (r: Option<usize>)
    ensures
        match r {
            Some(i) => i < s@.len() && closing_from(s@, 0) == Some(i as int),
            None => closing_from(s@, 0) is None,
        },
{
    let mut in_quote: bool = false;
    let mut escaped: bool = false;
    let mut i: usize = 0;
    while i < s.len()
        invariant
            i <= s@.len(),
            quote_state(s@.take(i as int)) == (in_quote, escaped),
            closing_from(s@, 0) == closing_from(s@, i as int),
        decreases s@.len() - i,
    {
        let c: char = s[i];
        assert(s@.take(i + 1).drop_last() =~= s@.take(i as int));
        if c == '\\' && in_quote {
            escaped = !escaped;
        } else {
            if c == '"' && !escaped {
                in_quote = !in_quote;
            } else if c == '>' && !in_quote {
                return Some(i);
            }
            escaped = false;
        }
        i = i + 1;
    }
    None
}

/// How far the first word reaches.
fn find_space(s: &[char]) -> (r: usize)
    ensures
        r <= s@.len(),
        r == words::word_len(s@, words::any_space()),
{
    let mut i: usize = 0;
    assert(s@.skip(0) =~= s@);
    while i < s.len() && !s[i].is_whitespace()
        invariant
            i <= s@.len(),
            words::word_len(s@, words::any_space()) == i + words::word_len(
                s@.skip(i as int),
                words::any_space(),
            ),
        decreases s@.len() - i,
    {
        assert(s@.skip(i as int).drop_first() =~= s@.skip(i + 1));
        i = i + 1;
    }
    i
}

/// Where the key of a parameter ends.
fn find_equals(s: &[char]) -> (r: usize)
    ensures
        r <= s@.len(),
        r == words::word_len(s@, equals_sign()),
{
    let mut i: usize = 0;
    assert(s@.skip(0) =~= s@);
    while i < s.len() && s[i] != '='
        invariant
            i <= s@.len(),
            words::word_len(s@, equals_sign()) == i + words::word_len(
                s@.skip(i as int),
                equals_sign(),
            ),
        decreases s@.len() - i,
    {
        assert(s@.skip(i as int).drop_first() =~= s@.skip(i + 1));
        i = i + 1;
    }
    i
}

/// Takes one more parameter in.
fn take_param(ext: &mut PathExtensions, part: &str)
    ensures
        final(ext)@ == with_param(old(ext)@, part@),
{
    let v: Vec<char> = chars::chars_of(part);
    let n: usize = find_equals(v.as_slice());
    let k: String = chars::string_of(v.as_slice(), 0, n);
    assert(k@ =~= part@.take(n as int));
    let key: String = unicode::to_ascii_upper(k.as_str());
    let value: Option<String> = if n < v.len() {
        let s: String = chars::string_of(v.as_slice(), n + 1, v.len());
        assert(s@ =~= part@.skip(n + 1));
        Some(s)
    } else {
        None
    };
    assert(key@ == key_of(part@));
    assert(chars::opt_view(value) == value_of(part@));
    let ghost before = ext@;
    let ghost extras = ext.extras@;
    if let Some(s) = &value {
        if chars::str_eq(key.as_str(), "SIZE") {
            ext.size = number::parse_u64(s.as_str());
            assert(ext@ =~= with_param(before, part@));
            return ;
        }
        if chars::str_eq(key.as_str(), "BODY") && unicode::eq_ignoring_case(
            s.as_str(),
            "8BITMIME",
        ) {
            assert(key@ != "SIZE"@);
            ext.body_8bitmime = true;
            assert(ext@ =~= with_param(before, part@));
            return ;
        }
    }
    if chars::str_eq(key.as_str(), "SMTPUTF8") {
        assert(key@ != "SIZE"@ && key@ != "BODY"@) by {
            reveal_strlit("SIZE");
            reveal_strlit("BODY");
            reveal_strlit("SMTPUTF8");
        }
        ext.smtputf8 = true;
        assert(ext@ =~= with_param(before, part@));
    } else {
        let extra = (key, value);
        ext.extras.push(extra);
        assert(ext@.extras =~= before.extras.push(extra_view(extra)));
        assert(ext@ =~= with_param(before, part@));
    }
}

/// The parameters behind a path.
fn parse_extensions(tail: &str) -> (r: PathExtensions)
    ensures
        r@ == extensions_of(tail@),
{
    let parts: Vec<String> = words::split_ascii_whitespace(tail);
    let mut ext = PathExtensions::default();
    let ghost ps = chars::seq_views(parts@);
    let mut i: usize = 0;
    while i < parts.len()
        invariant
            i <= parts@.len(),
            ps == chars::seq_views(parts@),
            ext@ == params_of(ps.take(i as int)),
        decreases parts@.len() - i,
    {
        take_param(&mut ext, parts[i].as_str());
        assert(ps.take(i + 1).drop_last() =~= ps.take(i as int));
        i = i + 1;
    }
    assert(ps.take(i as int) =~= ps);
    ext
}

/// A mailbox in which no closing bracket stands outside quotes, and which closes its
/// quotes.
pub open spec fn can_be_bracketed(mailbox: Seq<char>) -> bool {
    &&& forall|i: int| 0 <= i < mailbox.len() ==> !#[trigger] closes_at(mailbox, i)
    &&& !quote_state(mailbox).0
}

/// A mailbox survives being put in angle brackets, even where brackets stand inside
/// its quotes; the empty one is the null sender.
pub proof fn law_bracketed_mailbox_is_kept(mailbox: Seq<char>)
    requires
        can_be_bracketed(mailbox),
    ensures
        split_path(seq!['<'] + mailbox + seq!['>']) == Some((mailbox, Seq::<char>::empty())),
        extensions_of(Seq::empty()) == no_extensions(),
{
    let s = seq!['<'] + mailbox + seq!['>'];
    let t = mailbox.push('>');
    assert(s.skip(1) =~= t);
    lemma_closes_at_end(mailbox, 0);
    assert(t.take(mailbox.len() as int) =~= mailbox);
    assert(t.skip(mailbox.len() as int + 1) =~= Seq::empty());
}

/// The search for the closing bracket passes over a mailbox to the bracket behind it.
proof fn lemma_closes_at_end(mailbox: Seq<char>, k: int)
    requires
        0 <= k <= mailbox.len(),
        can_be_bracketed(mailbox),
    ensures
        closing_from(mailbox.push('>'), k) == Some(mailbox.len() as int),
    decreases mailbox.len() - k,
{
    let t = mailbox.push('>');
    assert(t.take(k) =~= mailbox.take(k));
    if k < mailbox.len() {
        assert(!closes_at(mailbox, k));
        lemma_closes_at_end(mailbox, k + 1);
    } else {
        assert(mailbox.take(k) =~= mailbox);
    }
}

/// A mailbox without quotes and closing brackets can be put in angle brackets, and so
/// can one whose local part is quoted, whatever stands between the quotes but quotes
/// and backslashes.
pub proof fn law_usual_mailboxes_can_be_bracketed(plain: Seq<char>, quoted: Seq<char>)
    requires
        forall|i: int| 0 <= i < plain.len() ==> #[trigger] plain[i] != '"' && plain[i] != '>',
        forall|i: int| 0 <= i < quoted.len() ==> #[trigger] quoted[i] != '"' && quoted[i] != '\\',
    ensures
        can_be_bracketed(plain),
        can_be_bracketed(seq!['"'] + quoted + seq!['"'] + plain),
{
    lemma_stays(plain, Seq::empty(), plain.len() as int);
    assert(Seq::<char>::empty() + plain =~= plain);
    assert(plain.take(plain.len() as int) =~= plain);
    assert forall|i: int| 0 <= i < plain.len() implies !#[trigger] closes_at(plain, i) by {
        assert(plain[i] != '>');
    }
    let open = seq!['"'];
    assert(open.drop_last() =~= Seq::empty());
    assert(quote_state(open.drop_last()) == (false, false));
    assert(quote_state(open) == (true, false));
    lemma_stays_quoted(quoted, quoted.len() as int);
    let inner = open + quoted;
    assert(quoted.take(quoted.len() as int) =~= quoted);
    let closed = inner.push('"');
    assert(closed.drop_last() =~= inner);
    assert(quote_state(closed) == (false, false));
    lemma_stays(plain, closed, plain.len() as int);
    let m = seq!['"'] + quoted + seq!['"'] + plain;
    assert(m =~= closed + plain);
    assert forall|i: int| 0 <= i < m.len() implies !#[trigger] closes_at(m, i) by {
        if 1 <= i <= quoted.len() {
            lemma_stays_quoted(quoted, i - 1);
            assert(m.take(i) =~= open + quoted.take(i - 1));
        } else if i > quoted.len() + 1 {
            assert(m[i] == plain[i - quoted.len() - 2]);
        }
    }
}

/// What is no quote keeps the state outside of quotes.
proof fn lemma_stays(t: Seq<char>, front: Seq<char>, k: int)
    requires
        0 <= k <= t.len(),
        quote_state(front) == (false, false),
        forall|i: int| 0 <= i < t.len() ==> #[trigger] t[i] != '"',
    ensures
        quote_state(front + t.take(k)) == (false, false),
    decreases k,
{
    let s = front + t.take(k);
    if k > 0 {
        lemma_stays(t, front, k - 1);
        assert(s.drop_last() =~= front + t.take(k - 1));
        assert(s.last() == t[k - 1]);
    } else {
        assert(s =~= front);
    }
}

/// What is neither a quote nor a backslash keeps the state inside of quotes.
proof fn lemma_stays_quoted(t: Seq<char>, k: int)
    requires
        0 <= k <= t.len(),
        forall|i: int| 0 <= i < t.len() ==> #[trigger] t[i] != '"' && t[i] != '\\',
    ensures
        quote_state(seq!['"'] + t.take(k)) == (true, false),
    decreases k,
{
    let s = seq!['"'] + t.take(k);
    if k > 0 {
        lemma_stays_quoted(t, k - 1);
        assert(s.drop_last() =~= seq!['"'] + t.take(k - 1));
        assert(s.last() == t[k - 1]);
    } else {
        assert(s =~= seq!['"']);
        assert(s.drop_last() =~= Seq::empty());
        assert(quote_state(s.drop_last()) == (false, false));
    }
}

/// A mailbox without white space that does not start with a bracket is taken as
/// it stands, without parameters.
pub proof fn law_bare_mailbox_is_kept(mailbox: Seq<char>)
    requires
        mailbox.len() > 0 ==> mailbox[0] != '<',
        forall|i: int|
            0 <= i < mailbox.len() ==> !unicode::is_white_space(#[trigger] mailbox[i]),
    ensures
        split_path(mailbox) == Some((mailbox, Seq::<char>::empty())),
{
    let sep = words::any_space();
    words::lemma_word_len(mailbox, sep);
    let n = words::word_len(mailbox, sep) as int;
    assert(n == mailbox.len()) by {
        if n < mailbox.len() {
            assert(sep(mailbox[n]));
        }
    }
    assert(mailbox.take(n) =~= mailbox);
    assert(mailbox.skip(n) =~= Seq::empty());
}

/// A parameter as it is written.
pub open spec fn written(e: (Seq<char>, Option<Seq<char>>)) -> Seq<char> {
    match e.1 {
        Some(v) => e.0 + seq!['='] + v,
        None => e.0,
    }
}

/// A parameter that none of the recognised keys claims: a key in capitals,
/// without equals sign and ASCII white space, and a value without ASCII white
/// space.
pub open spec fn is_extra(e: (Seq<char>, Option<Seq<char>>)) -> bool {
    &&& e.0.len() > 0
    &&& e.0 != "SIZE"@
    &&& e.0 != "BODY"@
    &&& e.0 != "SMTPUTF8"@
    &&& unicode::ascii_upper(e.0) == e.0
    &&& forall|i: int|
        0 <= i < e.0.len() ==> #[trigger] e.0[i] != '=' && !unicode::is_ascii_space(e.0[i])
    &&& e.1 matches Some(v) ==> forall|i: int|
        0 <= i < v.len() ==> !unicode::is_ascii_space(#[trigger] v[i])
}

/// The texts of a list of parameters.
pub open spec fn written_all(es: Seq<(Seq<char>, Option<Seq<char>>)>) -> Seq<Seq<char>> {
    es.map_values(|e: (Seq<char>, Option<Seq<char>>)| written(e))
}

/// Parameters that are not recognised survive being written out, with a space
/// between each two, and read again: all of them, in their order.
pub proof fn law_extras_survive(es: Seq<(Seq<char>, Option<Seq<char>>)>)
    requires
        forall|i: int| 0 <= i < es.len() ==> is_extra(#[trigger] es[i]),
    ensures
        extensions_of(words::joined(written_all(es), seq![' '])) == (ExtensionsModel {
            extras: es,
            ..no_extensions()
        }),
{
    let parts = written_all(es);
    assert forall|i: int| 0 <= i < parts.len() implies #[trigger] parts[i].len() > 0 && (forall|
        j: int,
    |
        0 <= j < parts[i].len() ==> !words::ascii_spaces()(#[trigger] parts[i][j])) by {
        let e = es[i];
        assert(is_extra(e));
        assert(parts[i] == written(e));
        assert forall|j: int| 0 <= j < parts[i].len() implies !words::ascii_spaces()(
            #[trigger] parts[i][j],
        ) by {
            if j < e.0.len() {
                assert(parts[i][j] == e.0[j]);
            } else if j > e.0.len() {
                assert(parts[i][j] == e.1->0[j - e.0.len() - 1]);
            }
        }
    }
    words::lemma_words_of_joined(parts, words::ascii_spaces());
    lemma_extras(es);
}

proof fn lemma_extras(es: Seq<(Seq<char>, Option<Seq<char>>)>)
    requires
        forall|i: int| 0 <= i < es.len() ==> is_extra(#[trigger] es[i]),
    ensures
        params_of(written_all(es)) == (ExtensionsModel { extras: es, ..no_extensions() }),
    decreases es.len(),
{
    let all = ExtensionsModel { extras: es, ..no_extensions() };
    if es.len() == 0 {
        assert(params_of(written_all(es)) =~= all);
    } else {
        lemma_extras(es.drop_last());
        assert(written_all(es).drop_last() =~= written_all(es.drop_last()));
        let e = es.last();
        assert(is_extra(e));
        let part = written(e);
        let n = words::word_len(part, equals_sign()) as int;
        words::lemma_word_len(part, equals_sign());
        assert(n == e.0.len()) by {
            if n < e.0.len() {
                assert(part[n] == e.0[n]);
            } else if n > e.0.len() {
                assert(part[e.0.len() as int] == '=');
            }
        }
        assert(part.take(n) =~= e.0);
        assert(value_of(part) == e.1) by {
            if let Some(v) = e.1 {
                assert(part.skip(n + 1) =~= v);
            }
        }
        assert(es.drop_last().push(e) =~= es);
        assert(params_of(written_all(es)) =~= all);
    }
}

/// A path in angle brackets is found whatever white space stands before it, and what is
/// behind it is left for the parameters.
pub proof fn law_parameters_follow_the_bracket(
    before: Seq<char>,
    mailbox: Seq<char>,
    tail: Seq<char>,
)
    requires
        can_be_bracketed(mailbox),
        forall|i: int| 0 <= i < before.len() ==> unicode::is_white_space(#[trigger] before[i]),
    ensures
        split_path(before + (seq!['<'] + mailbox + seq!['>'] + tail)) == Some(
            (mailbox, words::trim(tail)),
        ),
{
    let s = seq!['<'] + mailbox + seq!['>'] + tail;
    lemma_space_before(before, s);
    let t = mailbox.push('>') + tail;
    assert(s.skip(1) =~= t);
    lemma_closes_behind(mailbox, tail, 0);
    assert(t.take(mailbox.len() as int) =~= mailbox);
    assert(t.skip(mailbox.len() as int + 1) =~= tail);
}

proof fn lemma_space_before(before: Seq<char>, s: Seq<char>)
    requires
        forall|i: int| 0 <= i < before.len() ==> unicode::is_white_space(#[trigger] before[i]),
        s.len() > 0,
        !unicode::is_white_space(s[0]),
    ensures
        words::trim_start(before + s) == s,
    decreases before.len(),
{
    if before.len() > 0 {
        assert((before + s)[0] == before[0]);
        assert((before + s).drop_first() =~= before.drop_first() + s);
        assert forall|i: int| 0 <= i < before.drop_first().len() implies unicode::is_white_space(
            #[trigger] before.drop_first()[i],
        ) by {
            assert(unicode::is_white_space(before[i + 1]));
        }
        lemma_space_before(before.drop_first(), s);
    } else {
        assert(before + s =~= s);
    }
}

proof fn lemma_closes_behind(mailbox: Seq<char>, tail: Seq<char>, k: int)
    requires
        0 <= k <= mailbox.len(),
        can_be_bracketed(mailbox),
    ensures
        closing_from(mailbox.push('>') + tail, k) == Some(mailbox.len() as int),
    decreases mailbox.len() - k,
{
    let t = mailbox.push('>') + tail;
    assert(t.take(k) =~= mailbox.take(k));
    if k < mailbox.len() {
        assert(!closes_at(mailbox, k));
        lemma_closes_behind(mailbox, tail, k + 1);
    } else {
        assert(mailbox.take(k) =~= mailbox);
    }
}

/// A path without brackets ends at the first white space; what is behind that is left for
/// the parameters.
pub proof fn law_parameters_follow_the_word(
    before: Seq<char>,
    mailbox: Seq<char>,
    space: char,
    tail: Seq<char>,
)
    requires
        mailbox.len() > 0,
        mailbox[0] != '<',
        forall|i: int| 0 <= i < mailbox.len() ==> !unicode::is_white_space(#[trigger] mailbox[i]),
        unicode::is_white_space(space),
        forall|i: int| 0 <= i < before.len() ==> unicode::is_white_space(#[trigger] before[i]),
    ensures
        split_path(before + (mailbox + seq![space] + tail)) == Some(
            (mailbox, words::trim(seq![space] + tail)),
        ),
{
    let s = mailbox + seq![space] + tail;
    assert(s[0] == mailbox[0]);
    lemma_space_before(before, s);
    let sep = words::any_space();
    words::lemma_word_len(s, sep);
    let n = words::word_len(s, sep) as int;
    assert(n == mailbox.len()) by {
        if n < mailbox.len() {
            assert(sep(s[n]));
            assert(s[n] == mailbox[n]);
        } else if n > mailbox.len() {
            assert(!sep(s[mailbox.len() as int]));
        }
    }
    assert(s.take(n) =~= mailbox);
    assert(s.skip(n) =~= seq![space] + tail);
}

/// A bracket that is never closed is no path.
pub proof fn law_unclosed_bracket_is_refused(s: Seq<char>)
    requires
        !s.contains('>'),
    ensures
        split_path(seq!['<'] + s) is None,
{
    let t = seq!['<'] + s;
    assert(t.skip(1) =~= s);
    lemma_never_closes(s, 0);
}

proof fn lemma_never_closes(s: Seq<char>, k: int)
    requires
        0 <= k <= s.len(),
        !s.contains('>'),
    ensures
        closing_from(s, k) is None,
    decreases s.len() - k,
{
    if k < s.len() {
        assert(s.contains(s[k]));
        lemma_never_closes(s, k + 1);
    }
}

/// A text that can stand between quotes: a quote or a backslash stands there only behind
/// a backslash.
pub open spec fn is_escaped(s: Seq<char>) -> bool
    decreases s.len(),
{
    if s.len() == 0 {
        true
    } else if s[0] == '\\' {
        s.len() >= 2 && is_escaped(s.skip(2))
    } else {
        s[0] != '"' && is_escaped(s.skip(1))
    }
}

/// A quoted local part can hold quotes and backslashes that are escaped, and brackets in
/// any place.
pub proof fn law_escaped_mailboxes_can_be_bracketed(plain: Seq<char>, quoted: Seq<char>)
    requires
        forall|i: int| 0 <= i < plain.len() ==> #[trigger] plain[i] != '"' && plain[i] != '>',
        is_escaped(quoted),
    ensures
        can_be_bracketed(seq!['"'] + quoted + seq!['"'] + plain),
{
    let open = seq!['"'];
    assert(open.drop_last() =~= Seq::empty());
    assert(quote_state(open.drop_last()) == (false, false));
    assert(quote_state(open) == (true, false));
    lemma_escaped(open, quoted);
    let inner = open + quoted;
    let closed = inner.push('"');
    assert(closed.drop_last() =~= inner);
    assert(quote_state(closed) == (false, false));
    let m = seq!['"'] + quoted + seq!['"'] + plain;
    assert(m =~= closed + plain);
    assert(plain.take(plain.len() as int) =~= plain);
    lemma_stays(plain, closed, plain.len() as int);
    assert forall|i: int| 0 <= i < m.len() implies !#[trigger] closes_at(m, i) by {
        if 1 <= i <= quoted.len() {
            assert(m.take(i) =~= inner.take(i));
        } else if i > quoted.len() + 1 {
            assert(m[i] == plain[i - quoted.len() - 2]);
        }
    }
}

proof fn lemma_escaped(front: Seq<char>, s: Seq<char>)
    requires
        quote_state(front) == (true, false),
        is_escaped(s),
    ensures
        quote_state(front + s) == (true, false),
        forall|i: int|
            front.len() <= i <= front.len() + s.len() ==> quote_state(
                #[trigger] (front + s).take(i),
            ).0,
    decreases s.len(),
{
    let all = front + s;
    if s.len() == 0 {
        assert(all =~= front);
        assert(all.take(front.len() as int) =~= front);
    } else {
        let one = front.push(s[0]);
        assert(one.drop_last() =~= front);
        if s[0] == '\\' {
            let two = one.push(s[1]);
            assert(two.drop_last() =~= one);
            assert(quote_state(one) == (true, true));
            assert(quote_state(two) == (true, false));
            lemma_escaped(two, s.skip(2));
            assert(two + s.skip(2) =~= all);
            assert(all.take(front.len() as int + 1) =~= one);
        } else {
            lemma_escaped(one, s.skip(1));
            assert(one + s.skip(1) =~= all);
        }
        assert(all.take(front.len() as int) =~= front);
    }
}

/// What one more parameter does, written as a key, an equals sign and a value. The case of
/// the letters of the key does not matter. `SIZE` sets the size to the number, or to none
/// where the value is no number; `BODY` with `8BITMIME` and `SMTPUTF8` set their marks; any
/// other parameter is kept behind those before it. Nothing else changes.
pub proof fn law_parameter_with_value(e: ExtensionsModel, key: Seq<char>, value: Seq<char>)
    requires
        !key.contains('='),
    ensures
        ({
            let r = with_param(e, key + seq!['='] + value);
            let k = unicode::ascii_upper(key);
            let is_8bit = k == "BODY"@ && unicode::ascii_upper(value) == "8BITMIME"@;
            &&& r.size == if k == "SIZE"@ {
                number::parsed_u64(value)
            } else {
                e.size
            }
            &&& r.body_8bitmime == (e.body_8bitmime || is_8bit)
            &&& r.smtputf8 == (e.smtputf8 || k == "SMTPUTF8"@)
            &&& r.extras == if k == "SIZE"@ || is_8bit || k == "SMTPUTF8"@ {
                e.extras
            } else {
                e.extras.push((k, Some(value)))
            }
        }),
{
    let part = key + seq!['='] + value;
    lemma_key_and_value(key, value);
    lemma_upper_is_enough(value, "8BITMIME"@);
    reveal_strlit("SIZE");
    reveal_strlit("BODY");
    reveal_strlit("SMTPUTF8");
    reveal_strlit("8BITMIME");
    assert("SIZE"@.len() == 4 && "BODY"@.len() == 4 && "SMTPUTF8"@.len() == 8);
    assert("SIZE"@[0] != "BODY"@[0]);
    assert(unicode::ascii_upper("8BITMIME"@) =~= "8BITMIME"@);
}

/// What one more parameter does that has no value: `SMTPUTF8` sets its mark, any other is
/// kept.
pub proof fn law_parameter_without_value(e: ExtensionsModel, key: Seq<char>)
    requires
        !key.contains('='),
    ensures
        ({
            let r = with_param(e, key);
            let k = unicode::ascii_upper(key);
            &&& r.size == e.size
            &&& r.body_8bitmime == e.body_8bitmime
            &&& r.smtputf8 == (e.smtputf8 || k == "SMTPUTF8"@)
            &&& r.extras == if k == "SMTPUTF8"@ {
                e.extras
            } else {
                e.extras.push((k, None))
            }
        }),
{
    words::lemma_word_len(key, equals_sign());
    let n = words::word_len(key, equals_sign()) as int;
    if n < key.len() {
        assert(key[n] == '=');
        assert(key.contains(key[n]));
    }
    assert(key.take(n) =~= key);
}

proof fn lemma_key_and_value(key: Seq<char>, value: Seq<char>)
    requires
        !key.contains('='),
    ensures
        key_of(key + seq!['='] + value) == unicode::ascii_upper(key),
        value_of(key + seq!['='] + value) == Some(value),
{
    let part = key + seq!['='] + value;
    words::lemma_word_len(part, equals_sign());
    let n = words::word_len(part, equals_sign()) as int;
    assert(n == key.len()) by {
        if n < key.len() {
            assert(part[n] == key[n]);
            assert(key.contains(key[n]));
        } else if n > key.len() {
            assert(part[key.len() as int] == '=');
        }
    }
    assert(part.take(n) =~= key);
    assert(part.skip(n + 1) =~= value);
}

/// Two texts are the same but for the case of ASCII letters exactly where their capitals
/// are the same.
proof fn lemma_upper_is_enough(a: Seq<char>, b: Seq<char>)
    ensures
        unicode::same_ignoring_case(a, b) == (unicode::ascii_upper(a) == unicode::ascii_upper(b)),
{
    let la = unicode::ascii_lower(a);
    let lb = unicode::ascii_lower(b);
    let ua = unicode::ascii_upper(a);
    let ub = unicode::ascii_upper(b);
    if la == lb {
        assert(a.len() == la.len() && b.len() == lb.len());
        assert forall|i: int| 0 <= i < ua.len() implies ua[i] == ub[i] by {
            assert(la[i] == lb[i]);
            lemma_case(a[i], b[i]);
        }
        assert(ua =~= ub);
    }
    if ua == ub {
        assert(a.len() == ua.len() && b.len() == ub.len());
        assert forall|i: int| 0 <= i < la.len() implies la[i] == lb[i] by {
            assert(ua[i] == ub[i]);
            lemma_case(a[i], b[i]);
        }
        assert(la =~= lb);
    }
}

proof fn lemma_case(a: char, b: char)
    ensures
        (unicode::lower_char(a) == unicode::lower_char(b)) == (unicode::upper_char(a)
            == unicode::upper_char(b)),
{
}

/// The parameters are taken one after the other: those of a text with one more word
/// behind it are those of the text and then that word.
pub proof fn law_parameters_are_taken_in_order(tail: Seq<char>, space: char, part: Seq<char>)
    requires
        unicode::is_ascii_space(space),
        part.len() > 0,
        forall|i: int| 0 <= i < part.len() ==> !unicode::is_ascii_space(#[trigger] part[i]),
    ensures
        extensions_of(tail + seq![space] + part) == with_param(extensions_of(tail), part),
        extensions_of(Seq::empty()) == no_extensions(),
        extensions_of(part) == with_param(no_extensions(), part),
{
    let sep = words::ascii_spaces();
    words::law_words(tail, space, part, sep);
    assert forall|i: int| 0 <= i < part.len() implies !sep(#[trigger] part[i]) by {}
    words::law_words(part, space, Seq::empty(), sep);
    let ws = words::words(tail, sep);
    assert((ws + seq![part]).drop_last() =~= ws);
    assert(seq![part].drop_last() =~= Seq::empty());
}

/// The values of parameters are those of their fields.
pub proof fn law_values_of_parameters(e: PathExtensions, i: int)
    ensures
        e@.size == e.size && e@.body_8bitmime == e.body_8bitmime && e@.smtputf8 == e.smtputf8,
        e@.extras.len() == e.extras@.len(),
        0 <= i < e.extras@.len() ==> {
            &&& e@.extras[i].0 == e.extras@[i].0@
            &&& e@.extras[i].1 == chars::opt_view(e.extras@[i].1)
        },
{
}

} // verus!
