//! Trimming, splitting into words and joining.

use vstd::prelude::*;
use vstd::string::*;

use crate::text::chars;
use crate::text::unicode;

verus! {

/// `s` without the white space it begins with.
pub open spec fn trim_start(s: Seq<char>) -> Seq<char>
    decreases s.len(),
{
    if s.len() > 0 && unicode::is_white_space(s[0]) {
        trim_start(s.drop_first())
    } else {
        s
    }
}

/// `s` without the white space it ends with.
pub open spec fn trim_end(s: Seq<char>) -> Seq<char>
    decreases s.len(),
{
    if s.len() > 0 && unicode::is_white_space(s.last()) {
        trim_end(s.drop_last())
    } else {
        s
    }
}

/// `s` without the white space around it.
pub open spec fn trim(s: Seq<char>) -> Seq<char> {
    trim_end(trim_start(s))
}

/// How many characters `s` begins with that are no separators.
pub open spec fn word_len(s: Seq<char>, sep: spec_fn(char) -> bool) -> nat
    decreases s.len(),
{
    if s.len() == 0 || sep(s[0]) {
        0
    } else {
        1 + word_len(s.drop_first(), sep)
    }
}

/// A word is no longer than the text it begins.
pub proof fn lemma_word_len(s: Seq<char>, sep: spec_fn(char) -> bool)
    ensures
        word_len(s, sep) <= s.len(),
        s.len() > 0 && !sep(s[0]) ==> word_len(s, sep) > 0,
        forall|i: int| 0 <= i < word_len(s, sep) ==> !sep(#[trigger] s[i]),
        word_len(s, sep) < s.len() ==> sep(s[word_len(s, sep) as int]),
    decreases s.len(),
{
    if s.len() == 0 || sep(s[0]) {
    } else {
        let t = s.drop_first();
        lemma_word_len(t, sep);
        assert forall|i: int| 0 <= i < word_len(s, sep) implies !sep(#[trigger] s[i]) by {
            if i > 0 {
                assert(s[i] == t[i - 1]);
            }
        }
    }
}

/// The maximal runs of non-separators in `s`, in order.
pub open spec fn words(s: Seq<char>, sep: spec_fn(char) -> bool) -> Seq<Seq<char>>
    decreases s.len(),
    via words_decreases
{
    if s.len() == 0 {
        Seq::empty()
    } else if sep(s[0]) {
        words(s.drop_first(), sep)
    } else {
        let n = word_len(s, sep) as int;
        seq![s.take(n)] + words(s.skip(n), sep)
    }
}

#[via_fn]
proof fn words_decreases(s: Seq<char>, sep: spec_fn(char) -> bool) {
    lemma_word_len(s, sep);
}

/// The separators of a split at white space of any kind.
pub open spec fn any_space() -> spec_fn(char) -> bool {
    |c: char| unicode::is_white_space(c)
}

/// The separators of a split at ASCII white space.
pub open spec fn ascii_spaces() -> spec_fn(char) -> bool {
    |c: char| unicode::is_ascii_space(c)
}

/// The parts joined, with `sep` between each two.
pub open spec fn joined(parts: Seq<Seq<char>>, sep: Seq<char>) -> Seq<char>
    decreases parts.len(),
{
    if parts.len() == 0 {
        Seq::empty()
    } else if parts.len() == 1 {
        parts[0]
    } else {
        joined(parts.drop_last(), sep) + sep + parts.last()
    }
}

/// Words without separators are read back from their join by one separator.
pub proof fn lemma_words_of_joined(parts: Seq<Seq<char>>, sep: spec_fn(char) -> bool)
    requires
        sep(' '),
        forall|i: int|
            0 <= i < parts.len() ==> #[trigger] parts[i].len() > 0 && (forall|j: int|
                0 <= j < parts[i].len() ==> !sep(#[trigger] parts[i][j])),
    ensures
        words(joined(parts, seq![' ']), sep) == parts,
    decreases parts.len(),
{
    if parts.len() == 0 {
        assert(parts =~= Seq::empty());
    } else {
        let front = parts.drop_last();
        let w = parts.last();
        assert(parts[parts.len() - 1].len() > 0);
        assert forall|i: int| 0 <= i < front.len() implies #[trigger] front[i].len() > 0 && (
        forall|j: int| 0 <= j < front[i].len() ==> !sep(#[trigger] front[i][j])) by {
            assert(parts[i].len() > 0);
        }
        lemma_words_of_joined(front, sep);
        lemma_one_word(w, sep);
        if parts.len() == 1 {
            assert(parts =~= seq![w]);
        } else {
            let a = joined(front, seq![' ']);
            lemma_words_of_tail(a, w, sep);
            assert(a + seq![' '] + w =~= a + (seq![' '] + w));
            assert(front + seq![w] =~= parts);
        }
    }
}

/// A text without separators is one word.
proof fn lemma_one_word(w: Seq<char>, sep: spec_fn(char) -> bool)
    requires
        w.len() > 0,
        forall|j: int| 0 <= j < w.len() ==> !sep(#[trigger] w[j]),
    ensures
        words(w, sep) == seq![w],
{
    lemma_word_len(w, sep);
    let n = word_len(w, sep) as int;
    assert(n == w.len());
    assert(w.take(n) =~= w);
    assert(w.skip(n) =~= Seq::empty());
    assert(words(Seq::<char>::empty(), sep) =~= Seq::empty());
    assert(words(w, sep) =~= seq![w]);
}

/// The words of a text with a separator and one more word behind it.
proof fn lemma_words_of_tail(a: Seq<char>, w: Seq<char>, sep: spec_fn(char) -> bool)
    requires
        sep(' '),
        w.len() > 0,
        forall|j: int| 0 <= j < w.len() ==> !sep(#[trigger] w[j]),
    ensures
        words(a + (seq![' '] + w), sep) == words(a, sep) + seq![w],
    decreases a.len(),
{
    let s = a + (seq![' '] + w);
    if a.len() == 0 {
        assert(s.drop_first() =~= w);
        lemma_one_word(w, sep);
        assert(words(a, sep) + seq![w] =~= seq![w]);
    } else if sep(a[0]) {
        assert(s.drop_first() =~= a.drop_first() + (seq![' '] + w));
        lemma_words_of_tail(a.drop_first(), w, sep);
    } else {
        lemma_word_len(a, sep);
        lemma_word_len(s, sep);
        let n = word_len(a, sep) as int;
        let m = word_len(s, sep) as int;
        assert(m == n) by {
            if m < n {
                assert(s[m] == a[m]);
            } else if m > n {
                assert(sep(s[n]));
            }
        }
        assert(s.take(m) =~= a.take(n));
        assert(s.skip(m) =~= a.skip(n) + (seq![' '] + w));
        lemma_words_of_tail(a.skip(n), w, sep);
        assert(seq![a.take(n)] + (words(a.skip(n), sep) + seq![w]) =~= words(a, sep) + seq![w]);
    }
}

/// Every character of `s` is one that `ok` holds of.
pub open spec fn all_chars(s: Seq<char>, ok: spec_fn(char) -> bool) -> bool {
    forall|i: int| 0 <= i < s.len() ==> ok(#[trigger] s[i])
}

/// Trimming adds no characters.
pub proof fn lemma_trim_chars(s: Seq<char>, ok: spec_fn(char) -> bool)
    requires
        all_chars(s, ok),
    ensures
        all_chars(trim(s), ok),
{
    lemma_trim_start_chars(s, ok);
    lemma_trim_end_chars(trim_start(s), ok);
}

proof fn lemma_trim_start_chars(s: Seq<char>, ok: spec_fn(char) -> bool)
    requires
        all_chars(s, ok),
    ensures
        all_chars(trim_start(s), ok),
    decreases s.len(),
{
    if s.len() > 0 {
        assert(all_chars(s.drop_first(), ok)) by {
            assert forall|i: int| 0 <= i < s.drop_first().len() implies ok(
                #[trigger] s.drop_first()[i],
            ) by {
                assert(ok(s[i + 1]));
            }
        }
        lemma_trim_start_chars(s.drop_first(), ok);
    }
}

proof fn lemma_trim_end_chars(s: Seq<char>, ok: spec_fn(char) -> bool)
    requires
        all_chars(s, ok),
    ensures
        all_chars(trim_end(s), ok),
    decreases s.len(),
{
    if s.len() > 0 {
        assert(all_chars(s.drop_last(), ok)) by {
            assert forall|i: int| 0 <= i < s.drop_last().len() implies ok(
                #[trigger] s.drop_last()[i],
            ) by {
                assert(ok(s[i]));
            }
        }
        lemma_trim_end_chars(s.drop_last(), ok);
    }
}

/// Splitting into words adds no characters.
pub proof fn lemma_word_chars(s: Seq<char>, sep: spec_fn(char) -> bool, ok: spec_fn(char) -> bool)
    requires
        all_chars(s, ok),
    ensures
        forall|k: int| 0 <= k < words(s, sep).len() ==> all_chars(#[trigger] words(s, sep)[k], ok),
    decreases s.len(),
{
    if s.len() > 0 {
        if sep(s[0]) {
            assert(all_chars(s.drop_first(), ok)) by {
                assert forall|i: int| 0 <= i < s.drop_first().len() implies ok(
                    #[trigger] s.drop_first()[i],
                ) by {
                    assert(ok(s[i + 1]));
                }
            }
            lemma_word_chars(s.drop_first(), sep, ok);
            assert(words(s, sep) == words(s.drop_first(), sep));
        } else {
            lemma_word_len(s, sep);
            let n = word_len(s, sep) as int;
            assert(all_chars(s.skip(n), ok)) by {
                assert forall|i: int| 0 <= i < s.skip(n).len() implies ok(
                    #[trigger] s.skip(n)[i],
                ) by {
                    assert(ok(s[i + n]));
                }
            }
            assert(all_chars(s.take(n), ok)) by {
                assert forall|i: int| 0 <= i < n implies ok(#[trigger] s.take(n)[i]) by {
                    assert(ok(s[i]));
                }
            }
            lemma_word_chars(s.skip(n), sep, ok);
            assert forall|k: int| 0 <= k < words(s, sep).len() implies all_chars(
                #[trigger] words(s, sep)[k],
                ok,
            ) by {
                if k > 0 {
                    assert(words(s, sep)[k] == words(s.skip(n), sep)[k - 1]);
                }
            }
        }
    }
}

/// Joining adds no characters but those of the separator.
pub proof fn lemma_joined_chars(
    parts: Seq<Seq<char>>,
    sep: Seq<char>,
    ok: spec_fn(char) -> bool,
)
    requires
        forall|k: int| 0 <= k < parts.len() ==> all_chars(#[trigger] parts[k], ok),
        all_chars(sep, ok),
    ensures
        all_chars(joined(parts, sep), ok),
    decreases parts.len(),
{
    if parts.len() > 1 {
        assert forall|k: int| 0 <= k < parts.drop_last().len() implies all_chars(
            #[trigger] parts.drop_last()[k],
            ok,
        ) by {
            assert(all_chars(parts[k], ok));
        }
        lemma_joined_chars(parts.drop_last(), sep, ok);
        assert(all_chars(parts[parts.len() - 1], ok));
        let a = joined(parts.drop_last(), sep);
        let j = joined(parts, sep);
        assert forall|i: int| 0 <= i < j.len() implies ok(#[trigger] j[i]) by {
            if i < a.len() {
                assert(j[i] == a[i]);
            } else if i < a.len() + sep.len() {
                assert(j[i] == sep[i - a.len()]);
            } else {
                assert(j[i] == parts.last()[i - a.len() - sep.len()]);
            }
        }
    }
}

/// A trimmed text that is not empty does not begin with white space.
pub proof fn lemma_trim_first(s: Seq<char>)
    ensures
        trim(s).len() > 0 ==> !unicode::is_white_space(trim(s)[0]),
{
    lemma_trim_start_first(s);
    lemma_trim_end_front(trim_start(s));
}

proof fn lemma_trim_start_first(s: Seq<char>)
    ensures
        trim_start(s).len() > 0 ==> !unicode::is_white_space(trim_start(s)[0]),
    decreases s.len(),
{
    if s.len() > 0 {
        lemma_trim_start_first(s.drop_first());
    }
}

proof fn lemma_trim_end_front(s: Seq<char>)
    ensures
        trim_end(s).len() <= s.len(),
        trim_end(s).len() > 0 ==> trim_end(s)[0] == s[0],
    decreases s.len(),
{
    if s.len() > 0 {
        lemma_trim_end_front(s.drop_last());
    }
}

/// A join is at least as long as each of its parts.
pub proof fn lemma_joined_len(parts: Seq<Seq<char>>, sep: Seq<char>, k: int)
    requires
        0 <= k < parts.len(),
    ensures
        joined(parts, sep).len() >= parts[k].len(),
    decreases parts.len(),
{
    if parts.len() > 1 && k < parts.len() - 1 {
        lemma_joined_len(parts.drop_last(), sep, k);
    }
}

/// Cutting the white space off the front of `v` from `lo` on.
fn skip_space(v: &[char], lo: usize) -> (i: usize)
    requires
        lo <= v@.len(),
    ensures
        lo <= i <= v@.len(),
        trim_start(v@.skip(lo as int)) == v@.skip(i as int),
        i < v@.len() ==> !unicode::is_white_space(v@[i as int]),
{
    let mut i: usize = lo;
    while i < v.len() && v[i].is_whitespace()
        invariant
            lo <= i <= v@.len(),
            trim_start(v@.skip(lo as int)) == trim_start(v@.skip(i as int)),
        decreases v@.len() - i,
    {
        assert(v@.skip(i as int).drop_first() =~= v@.skip(i + 1));
        i = i + 1;
    }
    i
}

/// Cutting the white space off the back of `v[lo..]`.
fn drop_space(v: &[char], lo: usize) -> (hi: usize)
    requires
        lo <= v@.len(),
    ensures
        lo <= hi <= v@.len(),
        trim_end(v@.skip(lo as int)) == v@.subrange(lo as int, hi as int),
{
    let mut hi: usize = v.len();
    assert(v@.skip(lo as int) =~= v@.subrange(lo as int, hi as int));
    while hi > lo && v[hi - 1].is_whitespace()
        invariant
            lo <= hi <= v@.len(),
            trim_end(v@.skip(lo as int)) == trim_end(v@.subrange(lo as int, hi as int)),
        decreases hi,
    {
        assert(v@.subrange(lo as int, hi as int).drop_last() =~= v@.subrange(
            lo as int,
            hi - 1,
        ));
        hi = hi - 1;
    }
    hi
}

/// `s` without the white space it begins with.
pub fn trimmed_start(s: &str) -> (r: String)
    ensures
        r@ == trim_start(s@),
{
    let v: Vec<char> = chars::chars_of(s);
    let i: usize = skip_space(v.as_slice(), 0);
    assert(v@.skip(0) =~= v@);
    assert(v@.subrange(i as int, v@.len() as int) =~= v@.skip(i as int));
    chars::string_of(v.as_slice(), i, v.len())
}

/// `s` without the white space around it.
pub fn trimmed(s: &str) -> (r: String)
    ensures
        r@ == trim(s@),
{
    let v: Vec<char> = chars::chars_of(s);
    let i: usize = skip_space(v.as_slice(), 0);
    assert(v@.skip(0) =~= v@);
    let hi: usize = drop_space(v.as_slice(), i);
    chars::string_of(v.as_slice(), i, hi)
}

/// Splits `s` at white space, of any kind or of the ASCII kind alone.
fn split_words(s: &str, ascii_only: bool, Ghost(sep): Ghost<spec_fn(char) -> bool>) -> (r: Vec<
    String,
>)
    requires
        sep == if ascii_only {
            ascii_spaces()
        } else {
            any_space()
        },
    ensures
        chars::seq_views(r@) == words(s@, sep),
{
    let v: Vec<char> = chars::chars_of(s);
    let mut r: Vec<String> = Vec::new();
    let mut i: usize = 0;
    assert(v@.skip(0) =~= v@);
    assert(chars::seq_views(r@) + words(v@, sep) =~= words(v@, sep));
    while i < v.len()
        invariant
            i <= v@.len(),
            v@ == s@,
            sep == if ascii_only {
                ascii_spaces()
            } else {
                any_space()
            },
            chars::seq_views(r@) + words(v@.skip(i as int), sep) == words(s@, sep),
        decreases v@.len() - i,
    {
        let ghost rest = v@.skip(i as int);
        assert(rest[0] == v@[i as int]);
        if is_sep(v[i], ascii_only) {
            assert(rest.drop_first() =~= v@.skip(i + 1));
            i = i + 1;
        } else {
            let lo: usize = i;
            proof {
                lemma_word_len(rest, sep);
            }
            while i < v.len() && !is_sep(v[i], ascii_only)
                invariant
                    lo <= i <= v@.len(),
                    sep == if ascii_only {
                        ascii_spaces()
                    } else {
                        any_space()
                    },
                    rest == v@.skip(lo as int),
                    word_len(rest, sep) == (i - lo) + word_len(v@.skip(i as int), sep),
                decreases v@.len() - i,
            {
                let ghost here = v@.skip(i as int);
                assert(here[0] == v@[i as int]);
                assert(here.drop_first() =~= v@.skip(i + 1));
                i = i + 1;
            }
            proof {
                let here = v@.skip(i as int);
                if i < v@.len() {
                    assert(here[0] == v@[i as int]);
                }
                assert(word_len(here, sep) == 0);
                assert(rest.take((i - lo) as int) =~= v@.subrange(lo as int, i as int));
                assert(rest.skip((i - lo) as int) =~= v@.skip(i as int));
            }
            let ghost before = chars::seq_views(r@);
            let w: String = chars::string_of(v.as_slice(), lo, i);
            r.push(w);
            proof {
                assert(chars::seq_views(r@) =~= before + seq![w@]);
                assert(before + words(rest, sep) =~= chars::seq_views(r@) + words(
                    v@.skip(i as int),
                    sep,
                ));
            }
        }
    }
    assert(v@.skip(i as int).len() == 0);
    assert(chars::seq_views(r@) + words(v@.skip(i as int), sep) =~= chars::seq_views(r@));
    r
}

fn is_sep(c: char, ascii_only: bool) -> (r: bool)
    ensures
        r == (if ascii_only {
            unicode::is_ascii_space(c)
        } else {
            unicode::is_white_space(c)
        }),
{
    if ascii_only {
        unicode::ascii_space(c)
    } else {
        c.is_whitespace()
    }
}

/// The words of `s` between white space.
pub fn split_whitespace(s: &str) -> (r: Vec<String>)
    ensures
        chars::seq_views(r@) == words(s@, any_space()),
{
    split_words(s, false, Ghost(any_space()))
}

/// The words of `s` between ASCII white space.
pub fn split_ascii_whitespace(s: &str) -> (r: Vec<String>)
    ensures
        chars::seq_views(r@) == words(s@, ascii_spaces()),
{
    split_words(s, true, Ghost(ascii_spaces()))
}

/// The strings joined, with `sep` between each two.
pub fn join(parts: &Vec<String>, sep: &str) -> (r: String)
    ensures
        r@ == joined(chars::seq_views(parts@), sep@),
{
    let mut r = String::new();
    let mut i: usize = 0;
    let ghost views = chars::seq_views(parts@);
    while i < parts.len()
        invariant
            i <= parts@.len(),
            views == chars::seq_views(parts@),
            r@ == joined(views.take(i as int), sep@),
        decreases parts@.len() - i,
    {
        if i > 0 {
            r.append(sep);
        }
        r.append(parts[i].as_str());
        i = i + 1;
        proof {
            let now = views.take(i as int);
            assert(now.drop_last() =~= views.take(i - 1));
            assert(now.last() == parts@[i - 1]@);
            assert(r@ =~= joined(now, sep@));
        }
    }
    assert(views.take(i as int) =~= views);
    r
}

/// `a` and then `b`.
pub fn cat(a: &str, b: &str) -> (r: String)
    ensures
        r@ == a@ + b@,
{
    let mut r: String = a.to_owned();
    r.append(b);
    r
}

/// `a`, then `b`, then `c`.
pub fn cat3(a: &str, b: &str, c: &str) -> (r: String)
    ensures
        r@ == a@ + b@ + c@,
{
    let mut r: String = a.to_owned();
    r.append(b);
    r.append(c);
    r
}

/// Joining nothing gives nothing, joining one part gives that part, and joining two rows
/// of parts gives the one, the separator and the other.
pub proof fn law_joined(a: Seq<Seq<char>>, b: Seq<Seq<char>>, x: Seq<char>, sep: Seq<char>)
    ensures
        joined(Seq::empty(), sep) == Seq::<char>::empty(),
        joined(seq![x], sep) == x,
        a.len() > 0 && b.len() > 0 ==> joined(a + b, sep) == joined(a, sep) + sep + joined(b, sep),
    decreases b.len(),
{
    if a.len() > 0 && b.len() > 0 {
        assert((a + b).last() == b.last());
        assert((a + b).drop_last() =~= a + b.drop_last());
        if b.len() == 1 {
            assert(a + b.drop_last() =~= a);
        } else {
            law_joined(a, b.drop_last(), x, sep);
            assert(joined(a + b, sep) =~= joined(a, sep) + sep + joined(b, sep));
        }
    }
}

/// Trimming takes white space away on both sides and nothing else: what is left, if
/// anything, begins and ends with something else.
pub proof fn law_trimmed(s: Seq<char>) -> (r: (Seq<char>, Seq<char>))
    ensures
        s == r.0 + trim(s) + r.1,
        forall|i: int| 0 <= i < r.0.len() ==> unicode::is_white_space(#[trigger] r.0[i]),
        forall|i: int| 0 <= i < r.1.len() ==> unicode::is_white_space(#[trigger] r.1[i]),
        trim(s).len() > 0 ==> !unicode::is_white_space(trim(s)[0]) && !unicode::is_white_space(
            trim(s).last(),
        ),
{
    let a = lemma_trimmed_start(s);
    let b = lemma_trimmed_end(trim_start(s));
    lemma_trim_first(s);
    assert(s =~= a + trim(s) + b);
    (a, b)
}

proof fn lemma_trimmed_start(s: Seq<char>) -> (r: Seq<char>)
    ensures
        s == r + trim_start(s),
        forall|i: int| 0 <= i < r.len() ==> unicode::is_white_space(#[trigger] r[i]),
    decreases s.len(),
{
    if s.len() > 0 && unicode::is_white_space(s[0]) {
        let t = lemma_trimmed_start(s.drop_first());
        let r = seq![s[0]] + t;
        let x = trim_start(s);
        assert(x == trim_start(s.drop_first()));
        assert(s =~= seq![s[0]] + s.drop_first());
        assert(r + x =~= seq![s[0]] + (t + x));
        assert(s =~= r + trim_start(s));
        r
    } else {
        assert(s =~= Seq::empty() + s);
        Seq::empty()
    }
}

proof fn lemma_trimmed_end(s: Seq<char>) -> (r: Seq<char>)
    ensures
        s == trim_end(s) + r,
        forall|i: int| 0 <= i < r.len() ==> unicode::is_white_space(#[trigger] r[i]),
        trim_end(s).len() > 0 ==> !unicode::is_white_space(trim_end(s).last()),
    decreases s.len(),
{
    if s.len() > 0 && unicode::is_white_space(s.last()) {
        let t = lemma_trimmed_end(s.drop_last());
        let r = t.push(s.last());
        let x = trim_end(s);
        assert(x == trim_end(s.drop_last()));
        assert(s =~= s.drop_last().push(s.last()));
        assert(x + r =~= (x + t).push(s.last()));
        assert(s =~= trim_end(s) + r);
        r
    } else {
        assert(s =~= s + Seq::empty());
        Seq::empty()
    }
}

/// Splitting into words: a text without a separator is one word, and the words of two
/// texts with a separator between them are those of the one and those of the other.
pub proof fn law_words(a: Seq<char>, c: char, b: Seq<char>, sep: spec_fn(char) -> bool)
    requires
        sep(c),
    ensures
        words(Seq::empty(), sep) == Seq::<Seq<char>>::empty(),
        a.len() > 0 && (forall|i: int| 0 <= i < a.len() ==> !sep(#[trigger] a[i])) ==> words(a, sep)
            == seq![a],
        words(a + seq![c] + b, sep) == words(a, sep) + words(b, sep),
    decreases a.len(),
{
    if a.len() > 0 && (forall|i: int| 0 <= i < a.len() ==> !sep(#[trigger] a[i])) {
        lemma_one_word(a, sep);
    }
    let s = a + seq![c] + b;
    if a.len() == 0 {
        assert(s.drop_first() =~= b);
        assert(words(a, sep) + words(b, sep) =~= words(b, sep));
    } else if sep(a[0]) {
        assert(s.drop_first() =~= a.drop_first() + seq![c] + b);
        law_words(a.drop_first(), c, b, sep);
    } else {
        lemma_word_len(a, sep);
        lemma_word_len(s, sep);
        let n = word_len(a, sep) as int;
        let m = word_len(s, sep) as int;
        assert(m == n) by {
            if m < n {
                assert(s[m] == a[m]);
            } else if m > n {
                assert(sep(s[n]));
            }
        }
        assert(s.take(m) =~= a.take(n));
        assert(s.skip(m) =~= a.skip(n) + seq![c] + b);
        law_words(a.skip(n), c, b, sep);
        assert(seq![a.take(n)] + (words(a.skip(n), sep) + words(b, sep)) =~= words(a, sep) + words(
            b,
            sep,
        ));
    }
}

} // verus!
