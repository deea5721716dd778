//! Project names: how a destination directory's name becomes the name of
//! the generated project.
//!
//! The name is split into words, the maximal runs of ASCII letters and
//! digits, at the separators `-`, `_`, `.` and space. The project name is
//! the words, lowercased, joined by single hyphens. Any other character is
//! refused, and so is a name with no word or with a result longer than 63
//! characters.

use vstd::prelude::*;

use crate::error::{Error, OPERATION_EXIT_CODE};
use crate::text::{char_debug, chars_of, debug_char, push_char};

verus! {

/// The longest project name accepted.
pub const MAX_PROJECT_NAME_LEN: usize = 63;

/// Start of the message for a character that may not appear in a name.
pub const UNSUPPORTED_CHARACTER: &'static str = "project directory name contains an unsupported character: ";

/// Message for a name without a letter or digit.
pub const NO_LETTER_OR_DIGIT: &'static str = "project directory name must contain an ASCII letter or digit";

/// Message for a name whose normalized form is too long.
pub const NAME_TOO_LONG: &'static str = "normalized project name must be at most 63 characters";

/// An ASCII letter or digit.
pub open spec fn is_ascii_alnum(c: char) -> bool {
    ||| (48 <= c as u32 && c as u32 <= 57)
    ||| (65 <= c as u32 && c as u32 <= 90)
    ||| (97 <= c as u32 && c as u32 <= 122)
}

/// A character that separates words: `-`, `_`, `.` or space.
pub open spec fn is_separator(c: char) -> bool {
    c == '-' || c == '_' || c == '.' || c == ' '
}

/// A character that may appear in a directory name.
pub open spec fn is_supported(c: char) -> bool {
    is_ascii_alnum(c) || is_separator(c)
}

/// The ASCII lowercase of a character; any other character is unchanged.
pub open spec fn ascii_lower(c: char) -> char {
    if 65 <= c as u32 && c as u32 <= 90 {
        ((c as u32) + 32) as char
    } else {
        c
    }
}

/// The first character of `s` that may not appear in a name, if any.
pub open spec fn first_unsupported(s: Seq<char>) -> Option<char>
    decreases s.len(),
{
    if s.len() == 0 {
        None
    } else if !is_supported(s[0]) {
        Some(s[0])
    } else {
        first_unsupported(s.drop_first())
    }
}

/// The words of `s`: its maximal runs of ASCII letters and digits, in order.
pub open spec fn words(s: Seq<char>) -> Seq<Seq<char>>
    decreases s.len(),
{
    if s.len() == 0 {
        seq![]
    } else {
        let ws = words(s.drop_last());
        let c = s.last();
        if !is_ascii_alnum(c) {
            ws
        } else if s.len() > 1 && is_ascii_alnum(s[s.len() - 2]) {
            ws.update(ws.len() - 1, ws.last().push(c))
        } else {
            ws.push(seq![c])
        }
    }
}

/// The words joined, with `sep` between each two.
pub open spec fn join(ws: Seq<Seq<char>>, sep: char) -> Seq<char>
    decreases ws.len(),
{
    if ws.len() == 0 {
        seq![]
    } else if ws.len() == 1 {
        ws[0]
    } else {
        join(ws.drop_last(), sep).push(sep) + ws.last()
    }
}

/// Every character lowercased.
pub open spec fn lower(s: Seq<char>) -> Seq<char> {
    s.map_values(|c: char| ascii_lower(c))
}

/// The normalized form of a name: its words, lowercased, joined by hyphens.
pub open spec fn normalized(s: Seq<char>) -> Seq<char> {
    lower(join(words(s), '-'))
}

/// What normalizing `name` gives: the project name, or the message of the
/// error.
pub open spec fn project_name_outcome(name: Seq<char>) -> Result<Seq<char>, Seq<char>> {
    match first_unsupported(name) {
        Some(c) => Err(UNSUPPORTED_CHARACTER@ + char_debug(c)),
        None => {
            let n = normalized(name);
            if n.len() == 0 {
                Err(NO_LETTER_OR_DIGIT@)
            } else if n.len() > MAX_PROJECT_NAME_LEN {
                Err(NAME_TOO_LONG@)
            } else {
                Ok(n)
            }
        },
    }
}

/// A well-formed project name: 1 to 63 lowercase ASCII letters, digits and
/// hyphens, neither starting nor ending with a hyphen, with no two hyphens
/// in a row.
pub open spec fn is_project_name(p: Seq<char>) -> bool {
    &&& 0 < p.len() <= MAX_PROJECT_NAME_LEN
    &&& forall|i: int|
        0 <= i < p.len() ==> (#[trigger] p[i] == '-' || (is_ascii_alnum(p[i]) && ascii_lower(
            p[i],
        ) == p[i]))
    &&& p[0] != '-'
    &&& p.last() != '-'
    &&& forall|i: int| 0 <= i < p.len() - 1 ==> !(#[trigger] p[i] == '-' && p[i + 1] == '-')
}

proof fn lemma_first_unsupported(s: Seq<char>, k: int)
    requires
        0 <= k <= s.len(),
        forall|j: int| 0 <= j < k ==> is_supported(#[trigger] s[j]),
    ensures
        k == s.len() ==> first_unsupported(s) is None,
        k < s.len() && !is_supported(s[k]) ==> first_unsupported(s) == Some(s[k]),
    decreases s.len(),
{
    if s.len() > 0 && k > 0 {
        lemma_first_unsupported(s.drop_first(), k - 1);
    }
}

proof fn lemma_join_push(ws: Seq<Seq<char>>, w: Seq<char>, sep: char)
    requires
        ws.len() > 0,
    ensures
        join(ws.push(w), sep) == join(ws, sep).push(sep) + w,
{
    assert(ws.push(w).drop_last() =~= ws);
}

proof fn lemma_join_extend(ws: Seq<Seq<char>>, c: char, sep: char)
    requires
        ws.len() > 0,
    ensures
        join(ws.update(ws.len() - 1, ws.last().push(c)), sep) == join(ws, sep).push(c),
{
    let vs = ws.update(ws.len() - 1, ws.last().push(c));
    if ws.len() > 1 {
        assert(vs.drop_last() =~= ws.drop_last());
        assert(join(vs, sep) =~= join(ws, sep).push(c));
    }
}

proof fn lemma_lower_push(s: Seq<char>, c: char)
    ensures
        lower(s.push(c)) == lower(s).push(ascii_lower(c)),
{
    assert(lower(s.push(c)) =~= lower(s).push(ascii_lower(c)));
}

proof fn lemma_words_nonempty_when_last_alnum(s: Seq<char>)
    requires
        s.len() > 0,
        is_ascii_alnum(s.last()),
    ensures
        words(s).len() > 0,
    decreases s.len(),
{
    if s.len() > 1 && is_ascii_alnum(s[s.len() - 2]) {
        lemma_words_nonempty_when_last_alnum(s.drop_last());
    }
}

proof fn lemma_join_empty_iff(ws: Seq<Seq<char>>, sep: char)
    requires
        forall|k: int| 0 <= k < ws.len() ==> (#[trigger] ws[k]).len() > 0,
    ensures
        (join(ws, sep).len() == 0) <==> (ws.len() == 0),
    decreases ws.len(),
{
    if ws.len() > 1 {
        lemma_join_empty_iff(ws.drop_last(), sep);
    }
}

/// Every word is a nonempty run of ASCII letters and digits.
proof fn lemma_words_shape(s: Seq<char>)
    ensures
        forall|k: int| 0 <= k < words(s).len() ==> (#[trigger] words(s)[k]).len() > 0,
        forall|k: int, j: int|
            0 <= k < words(s).len() && 0 <= j < words(s)[k].len() ==> is_ascii_alnum(
                #[trigger] words(s)[k][j],
            ),
    decreases s.len(),
{
    if s.len() > 0 {
        lemma_words_shape(s.drop_last());
        let ws = words(s.drop_last());
        let c = s.last();
        if is_ascii_alnum(c) && s.len() > 1 && is_ascii_alnum(s[s.len() - 2]) {
            lemma_words_nonempty_when_last_alnum(s.drop_last());
            let w = ws.last().push(c);
            assert forall|k: int, j: int|
                0 <= k < words(s).len() && 0 <= j < words(s)[k].len() implies is_ascii_alnum(
                #[trigger] words(s)[k][j],
            ) by {
                if k == ws.len() - 1 {
                    assert(words(s)[k] == w);
                    if j < ws.last().len() {
                        assert(w[j] == ws[k][j]);
                    }
                }
            }
        }
    }
}


/// Letters and digits separated by single hyphens, not starting with one:
/// the shape of every prefix of a well-formed project name.
spec fn is_hyphenated_prefix(q: Seq<char>) -> bool {
    &&& forall|i: int| 0 <= i < q.len() ==> (#[trigger] q[i] == '-' || is_ascii_alnum(q[i]))
    &&& q.len() > 0 ==> q[0] != '-'
    &&& forall|i: int| 0 <= i < q.len() - 1 ==> !(#[trigger] q[i] == '-' && q[i + 1] == '-')
}

proof fn lemma_join_words_of_hyphenated(q: Seq<char>)
    requires
        is_hyphenated_prefix(q),
    ensures
        join(words(q), '-') == (if q.len() > 0 && q.last() == '-' {
            q.drop_last()
        } else {
            q
        }),
    decreases q.len(),
{
    if q.len() > 0 {
        let q1 = q.drop_last();
        assert(is_hyphenated_prefix(q1)) by {
            assert forall|i: int| 0 <= i < q1.len() - 1 implies !(#[trigger] q1[i] == '-' && q1[i
                + 1] == '-') by {
                assert(q1[i] == q[i] && q1[i + 1] == q[i + 1]);
            }
        }
        lemma_join_words_of_hyphenated(q1);
        let c = q.last();
        let ws = words(q1);
        if c == '-' {
            assert(q1.len() > 0);
            assert(q1.last() != '-') by {
                assert(q[q.len() - 2] == q1.last());
            }
        } else if q.len() > 1 && is_ascii_alnum(q[q.len() - 2]) {
            assert(q1.last() == q[q.len() - 2]);
            lemma_words_nonempty_when_last_alnum(q1);
            lemma_join_extend(ws, c, '-');
            assert(q1.push(c) =~= q);
        } else if q.len() == 1 {
            assert(q1.len() == 0);
            assert(ws.push(seq![c]) =~= seq![seq![c]]);
            assert(seq![c] =~= q);
        } else {
            assert(q1.last() == '-');
            let q2 = q1.drop_last();
            assert(q1.len() >= 2);
            assert(q2.last() == q[q.len() - 3]);
            assert(q[q.len() - 3] != '-');
            assert(words(q1) == words(q2));
            lemma_words_nonempty_when_last_alnum(q2);
            lemma_join_push(ws, seq![c], '-');
            assert(q2.push('-') =~= q1);
            assert(q2.push('-') + seq![c] =~= q);
        }
    }
}

proof fn lemma_join_hyphenated(ws: Seq<Seq<char>>)
    requires
        ws.len() > 0,
        forall|k: int| 0 <= k < ws.len() ==> (#[trigger] ws[k]).len() > 0,
        forall|k: int, j: int|
            0 <= k < ws.len() && 0 <= j < ws[k].len() ==> is_ascii_alnum(#[trigger] ws[k][j]),
    ensures
        is_hyphenated_prefix(join(ws, '-')),
        join(ws, '-').last() != '-',
    decreases ws.len(),
{
    let w = ws.last();
    assert(w == ws[ws.len() - 1]);
    assert(is_ascii_alnum(w[w.len() - 1]));
    if ws.len() == 1 {
        assert forall|i: int| 0 <= i < w.len() implies (#[trigger] w[i] == '-' || is_ascii_alnum(
            w[i],
        )) by {
            assert(is_ascii_alnum(ws[0][i]));
        }
        assert(is_ascii_alnum(ws[0][0]));
    } else {
        let vs = ws.drop_last();
        assert forall|k: int, j: int|
            0 <= k < vs.len() && 0 <= j < vs[k].len() implies is_ascii_alnum(
            #[trigger] vs[k][j],
        ) by {
            assert(vs[k] == ws[k]);
        }
        assert forall|k: int| 0 <= k < vs.len() implies (#[trigger] vs[k]).len() > 0 by {
            assert(vs[k] == ws[k]);
        }
        lemma_join_hyphenated(vs);
        let a = join(vs, '-');
        let r = a.push('-') + w;
        assert forall|i: int| 0 <= i < r.len() implies (#[trigger] r[i] == '-' || is_ascii_alnum(
            r[i],
        )) by {
            if i < a.len() {
                assert(r[i] == a[i]);
            } else if i > a.len() {
                assert(r[i] == w[i - a.len() - 1]);
                assert(is_ascii_alnum(ws[ws.len() - 1][i - a.len() - 1]));
            }
        }
        assert forall|i: int| 0 <= i < r.len() - 1 implies !(#[trigger] r[i] == '-' && r[i + 1]
            == '-') by {
            if i < a.len() - 1 {
                assert(r[i] == a[i] && r[i + 1] == a[i + 1]);
            } else if i == a.len() - 1 {
                assert(r[i] == a.last());
            } else {
                assert(r[i + 1] == w[i + 1 - a.len() - 1]);
                assert(is_ascii_alnum(ws[ws.len() - 1][i + 1 - a.len() - 1]));
            }
        }
        assert(r[0] == a[0]);
        assert(r.last() == w.last());
    }
}

proof fn lemma_lower_keeps_shape(x: Seq<char>)
    requires
        is_hyphenated_prefix(x),
        x.len() > 0,
        x.last() != '-',
    ensures
        lower(x).len() == x.len(),
        lower(x)[0] != '-',
        lower(x).last() != '-',
        forall|i: int|
            0 <= i < x.len() ==> (#[trigger] lower(x)[i] == '-' || (is_ascii_alnum(lower(x)[i])
                && ascii_lower(lower(x)[i]) == lower(x)[i])),
        forall|i: int|
            0 <= i < x.len() - 1 ==> !(#[trigger] lower(x)[i] == '-' && lower(x)[i + 1] == '-'),
{
    let y = lower(x);
    assert forall|i: int| 0 <= i < x.len() implies (#[trigger] y[i] == '-') == (x[i] == '-') by {
        assert(x[i] == '-' || is_ascii_alnum(x[i]));
    }
    assert forall|i: int| 0 <= i < x.len() - 1 implies !(#[trigger] y[i] == '-' && y[i + 1]
        == '-') by {
        assert((y[i + 1] == '-') == (x[i + 1] == '-'));
    }
    assert(y.last() == y[x.len() - 1]);
    assert(x.last() == x[x.len() - 1]);
}

/// Every project name that normalization produces is well formed: 1 to 63
/// lowercase ASCII letters, digits and single hyphens between them.
pub proof fn normalized_names_are_well_formed(name: Seq<char>)
    requires
        project_name_outcome(name) is Ok,
    ensures
        is_project_name(project_name_outcome(name)->Ok_0),
{
    let ws = words(name);
    lemma_words_shape(name);
    lemma_join_empty_iff(ws, '-');
    lemma_join_hyphenated(ws);
    lemma_lower_keeps_shape(join(ws, '-'));
}

/// Normalizing is idempotent: a project name normalizes to itself.
pub proof fn normalization_is_idempotent(name: Seq<char>)
    requires
        project_name_outcome(name) is Ok,
    ensures
        project_name_outcome(project_name_outcome(name)->Ok_0) == project_name_outcome(name),
{
    let p = project_name_outcome(name)->Ok_0;
    normalized_names_are_well_formed(name);
    assert(is_hyphenated_prefix(p)) by {
        assert forall|i: int| 0 <= i < p.len() - 1 implies !(#[trigger] p[i] == '-' && p[i + 1]
            == '-') by {}
    }
    assert forall|j: int| 0 <= j < p.len() implies is_supported(#[trigger] p[j]) by {}
    lemma_first_unsupported(p, p.len() as int);
    lemma_join_words_of_hyphenated(p);
    assert(lower(p) =~= p);
}


/// Two characters that a name may spell either way: the same character,
/// one letter in either case, or two separators.
pub open spec fn spelled_alike(a: char, b: char) -> bool {
    ||| a == b
    ||| (is_ascii_alnum(a) && is_ascii_alnum(b) && ascii_lower(a) == ascii_lower(b))
    ||| (is_separator(a) && is_separator(b))
}

/// Two names that differ only in the case of letters and in which
/// separators they use.
pub open spec fn names_alike(s: Seq<char>, t: Seq<char>) -> bool {
    &&& s.len() == t.len()
    &&& forall|k: int| 0 <= k < s.len() ==> spelled_alike(#[trigger] s[k], t[k])
}

/// Every word lowercased.
spec fn lower_words(ws: Seq<Seq<char>>) -> Seq<Seq<char>> {
    ws.map_values(|w: Seq<char>| lower(w))
}

proof fn lemma_lower_join(ws: Seq<Seq<char>>)
    ensures
        lower(join(ws, '-')) == join(lower_words(ws), '-'),
    decreases ws.len(),
{
    if ws.len() == 0 {
        assert(lower(join(ws, '-')) =~= Seq::<char>::empty());
    } else if ws.len() == 1 {
        assert(lower_words(ws).len() == 1);
    } else {
        lemma_lower_join(ws.drop_last());
        assert(lower_words(ws).drop_last() =~= lower_words(ws.drop_last()));
        let a = join(ws.drop_last(), '-');
        assert(lower(a.push('-') + ws.last()) =~= lower(a).push('-') + lower(ws.last()));
    }
}

proof fn lemma_words_alike(s: Seq<char>, t: Seq<char>)
    requires
        names_alike(s, t),
    ensures
        lower_words(words(s)) == lower_words(words(t)),
    decreases s.len(),
{
    if s.len() > 0 {
        let s1 = s.drop_last();
        let t1 = t.drop_last();
        assert(names_alike(s1, t1)) by {
            assert forall|k: int| 0 <= k < s1.len() implies spelled_alike(#[trigger] s1[k], t1[k]) by {
                assert(spelled_alike(s[k], t[k]));
            }
        }
        lemma_words_alike(s1, t1);
        let n = s.len() - 1;
        assert(spelled_alike(s[n], t[n]));
        let ws = words(s1);
        let vs = words(t1);
        let c = s.last();
        let d = t.last();
        if is_ascii_alnum(c) {
            if s.len() > 1 && is_ascii_alnum(s[s.len() - 2]) {
                assert(spelled_alike(s[n - 1], t[n - 1]));
                assert(s1.last() == s[n - 1]);
                lemma_words_nonempty_when_last_alnum(s1);
                assert(lower_words(ws).len() == lower_words(vs).len());
                assert(lower_words(ws)[ws.len() - 1] == lower_words(vs)[vs.len() - 1]);
                lemma_lower_push(ws.last(), c);
                lemma_lower_push(vs.last(), d);
                assert(ascii_lower(c) == ascii_lower(d));
                let a = lower_words(ws.update(ws.len() - 1, ws.last().push(c)));
                let b = lower_words(vs.update(vs.len() - 1, vs.last().push(d)));
                assert forall|k: int| 0 <= k < a.len() implies a[k] == b[k] by {
                    if k < ws.len() - 1 {
                        assert(lower_words(ws)[k] == lower_words(vs)[k]);
                    } else {
                        assert(lower(ws.last()) == lower_words(ws)[ws.len() - 1]);
                        assert(lower(vs.last()) == lower_words(vs)[vs.len() - 1]);
                    }
                }
                assert(a =~= b);
            } else {
                if s.len() > 1 {
                    assert(spelled_alike(s[n - 1], t[n - 1]));
                }
                assert(lower(seq![c]) =~= lower(seq![d]));
                assert(lower_words(ws.push(seq![c])) =~= lower_words(ws).push(lower(seq![c])));
                assert(lower_words(vs.push(seq![d])) =~= lower_words(vs).push(lower(seq![d])));
            }
        }
    }
}

proof fn lemma_first_unsupported_alike(s: Seq<char>, t: Seq<char>)
    requires
        names_alike(s, t),
    ensures
        first_unsupported(s) == first_unsupported(t),
    decreases s.len(),
{
    if s.len() > 0 {
        assert(spelled_alike(s[0], t[0]));
        let s1 = s.drop_first();
        let t1 = t.drop_first();
        assert(names_alike(s1, t1)) by {
            assert forall|k: int| 0 <= k < s1.len() implies spelled_alike(#[trigger] s1[k], t1[k]) by {
                assert(spelled_alike(s[k + 1], t[k + 1]));
            }
        }
        lemma_first_unsupported_alike(s1, t1);
    }
}

/// Normalizing ignores the case of letters and which separators are used:
/// two names that differ only in these give the same project name, or the
/// same error.
pub proof fn normalization_ignores_case_and_separator_choice(s: Seq<char>, t: Seq<char>)
    requires
        names_alike(s, t),
    ensures
        project_name_outcome(s) == project_name_outcome(t),
{
    lemma_first_unsupported_alike(s, t);
    lemma_words_alike(s, t);
    lemma_lower_join(words(s));
    lemma_lower_join(words(t));
}

proof fn lemma_words_doubled(s: Seq<char>, i: int, n: int)
    requires
        0 <= i < s.len(),
        is_separator(s[i]),
        i + 1 <= n <= s.len() + 1,
    ensures
        words(s.insert(i, s[i]).take(n)) == words(s.take(n - 1)),
    decreases n,
{
    let t = s.insert(i, s[i]);
    assert(t.len() == s.len() + 1);
    if n == i + 1 {
        assert(t.take(n) =~= s.take(i + 1));
        assert(s.take(i + 1).drop_last() =~= s.take(i));
        assert(s.take(i + 1).last() == s[i]);
    } else {
        lemma_words_doubled(s, i, n - 1);
        let tn = t.take(n);
        let sn = s.take(n - 1);
        assert(tn.drop_last() =~= t.take(n - 1));
        assert(sn.drop_last() =~= s.take(n - 2));
        assert(tn.last() == t[n - 1]);
        assert(t[n - 1] == s[n - 2]);
        assert(sn.last() == s[n - 2]);
        if n >= i + 3 {
            assert(tn[tn.len() - 2] == t[n - 2]);
            assert(t[n - 2] == s[n - 3]);
            assert(sn[sn.len() - 2] == s[n - 3]);
        }
    }
}

proof fn lemma_first_unsupported_doubled(s: Seq<char>, i: int)
    requires
        0 <= i < s.len(),
        is_separator(s[i]),
    ensures
        first_unsupported(s.insert(i, s[i])) == first_unsupported(s),
    decreases i,
{
    let t = s.insert(i, s[i]);
    if i == 0 {
        assert(t.drop_first() =~= s);
    } else {
        assert(t[0] == s[0]);
        if is_supported(s[0]) {
            lemma_first_unsupported_doubled(s.drop_first(), i - 1);
            assert(t.drop_first() =~= s.drop_first().insert(i - 1, s[i]));
        }
    }
}

/// Normalizing ignores doubled separators: writing a separator twice gives
/// the same project name, or the same error.
pub proof fn normalization_ignores_doubled_separators(s: Seq<char>, i: int)
    requires
        0 <= i < s.len(),
        is_separator(s[i]),
    ensures
        project_name_outcome(s.insert(i, s[i])) == project_name_outcome(s),
{
    let t = s.insert(i, s[i]);
    lemma_first_unsupported_doubled(s, i);
    lemma_words_doubled(s, i, t.len() as int);
    assert(t.take(t.len() as int) =~= t);
    assert(s.take(s.len() as int) =~= s);
}


/// An ASCII letter or digit, by character ranges.
pub open spec fn letter_or_digit(c: char) -> bool {
    ('0' <= c && c <= '9') || ('A' <= c && c <= 'Z') || ('a' <= c && c <= 'z')
}

/// The lowercase of an uppercase ASCII letter (the letter 32 code points
/// above it); every other character unchanged.
pub open spec fn to_lowercase(c: char) -> char {
    if 'A' <= c && c <= 'Z' {
        ((c as u32) + 32) as char
    } else {
        c
    }
}

/// The ASCII letters and digits of `s`, lowercased, in order.
pub open spec fn letters_and_digits(s: Seq<char>) -> Seq<char>
    decreases s.len(),
{
    if s.len() == 0 {
        seq![]
    } else if letter_or_digit(s.last()) {
        letters_and_digits(s.drop_last()).push(to_lowercase(s.last()))
    } else {
        letters_and_digits(s.drop_last())
    }
}

/// `s` without its hyphens.
pub open spec fn without_hyphens(s: Seq<char>) -> Seq<char>
    decreases s.len(),
{
    if s.len() == 0 {
        seq![]
    } else if s.last() == '-' {
        without_hyphens(s.drop_last())
    } else {
        without_hyphens(s.drop_last()).push(s.last())
    }
}

/// The characters kept in a project name are exactly the ASCII letters and
/// digits `'0'..='9'`, `'A'..='Z'`, `'a'..='z'`, and an uppercase letter
/// becomes the lowercase letter 32 code points above it.
pub proof fn ascii_letters_and_digits(c: char)
    ensures
        is_ascii_alnum(c) <==> letter_or_digit(c),
        is_separator(c) <==> (c == '-' || c == '_' || c == '.' || c == ' '),
        ascii_lower(c) == to_lowercase(c),
        ('A' <= c && c <= 'Z') ==> ('a' <= ascii_lower(c) && ascii_lower(c) <= 'z'),
        !('A' <= c && c <= 'Z') ==> ascii_lower(c) == c,
{
}

proof fn lemma_without_hyphens_push(s: Seq<char>, c: char)
    ensures
        without_hyphens(s.push(c)) == if c == '-' {
            without_hyphens(s)
        } else {
            without_hyphens(s).push(c)
        },
{
    assert(s.push(c).drop_last() =~= s);
}

proof fn lemma_letters_and_digits(s: Seq<char>)
    ensures
        without_hyphens(normalized(s)) == letters_and_digits(s),
    decreases s.len(),
{
    if s.len() > 0 {
        let s1 = s.drop_last();
        lemma_letters_and_digits(s1);
        let c = s.last();
        ascii_letters_and_digits(c);
        let ws = words(s1);
        let j = join(ws, '-');
        if is_ascii_alnum(c) {
            let lc = ascii_lower(c);
            assert(lc != '-');
            if s.len() > 1 && is_ascii_alnum(s[s.len() - 2]) {
                assert(s1.last() == s[s.len() - 2]);
                lemma_words_nonempty_when_last_alnum(s1);
                lemma_join_extend(ws, c, '-');
                lemma_lower_push(j, c);
                lemma_without_hyphens_push(lower(j), lc);
            } else if ws.len() > 0 {
                lemma_join_push(ws, seq![c], '-');
                assert(j.push('-') + seq![c] =~= j.push('-').push(c));
                lemma_lower_push(j.push('-'), c);
                lemma_lower_push(j, '-');
                lemma_without_hyphens_push(lower(j).push('-'), lc);
                lemma_without_hyphens_push(lower(j), '-');
            } else {
                assert(ws.push(seq![c]) =~= seq![seq![c]]);
                assert(lower(seq![c]) =~= seq![lc]);
                assert(j =~= Seq::<char>::empty());
                assert(lower(j) =~= Seq::<char>::empty());
                lemma_without_hyphens_push(Seq::<char>::empty(), lc);
                assert(seq![lc] =~= Seq::<char>::empty().push(lc));
            }
        }
    }
}

/// What normalization keeps: a project name consists only of `-`, the
/// digits `'0'..='9'` and the lowercase letters `'a'..='z'`, and without its
/// hyphens it is exactly the name's ASCII letters and digits, lowercased, in
/// order: no letter or digit is dropped, added, reordered or left uppercase.
pub proof fn normalization_keeps_every_letter_and_digit(name: Seq<char>)
    requires
        project_name_outcome(name) is Ok,
    ensures
        forall|i: int|
            0 <= i < project_name_outcome(name)->Ok_0.len() ==> {
                let c = #[trigger] project_name_outcome(name)->Ok_0[i];
                c == '-' || ('0' <= c && c <= '9') || ('a' <= c && c <= 'z')
            },
        1 <= project_name_outcome(name)->Ok_0.len() <= 63,
        without_hyphens(project_name_outcome(name)->Ok_0) == letters_and_digits(name),
{
    let p = project_name_outcome(name)->Ok_0;
    normalized_names_are_well_formed(name);
    lemma_letters_and_digits(name);
    assert forall|i: int| 0 <= i < p.len() implies {
        let c = #[trigger] p[i];
        c == '-' || ('0' <= c && c <= '9') || ('a' <= c && c <= 'z')
    } by {
        ascii_letters_and_digits(p[i]);
    }
}

proof fn lemma_letters_and_digits_nonempty(s: Seq<char>, k: int)
    requires
        0 <= k < s.len(),
        letter_or_digit(s[k]),
    ensures
        letters_and_digits(s).len() > 0,
    decreases s.len(),
{
    if k < s.len() - 1 {
        assert(s.drop_last()[k] == s[k]);
        lemma_letters_and_digits_nonempty(s.drop_last(), k);
    }
}

/// A name made only of the ASCII letters and digits `'0'..='9'`,
/// `'A'..='Z'`, `'a'..='z'` and the separators, with at least one letter or
/// digit and a result of at most 63 characters, is accepted: no letter or
/// digit is refused.
pub proof fn names_of_letters_digits_and_separators_are_accepted(name: Seq<char>)
    requires
        forall|i: int|
            0 <= i < name.len() ==> letter_or_digit(#[trigger] name[i]) || name[i] == '-' || name[i]
                == '_' || name[i] == '.' || name[i] == ' ',
        exists|i: int| 0 <= i < name.len() && letter_or_digit(#[trigger] name[i]),
        normalized(name).len() <= MAX_PROJECT_NAME_LEN,
    ensures
        project_name_outcome(name) is Ok,
        project_name_outcome(name)->Ok_0 == normalized(name),
{
    assert forall|j: int| 0 <= j < name.len() implies is_supported(#[trigger] name[j]) by {
        ascii_letters_and_digits(name[j]);
    }
    lemma_first_unsupported(name, name.len() as int);
    lemma_letters_and_digits(name);
    let k = choose|i: int| 0 <= i < name.len() && letter_or_digit(#[trigger] name[i]);
    lemma_letters_and_digits_nonempty(name, k);
    if normalized(name).len() == 0 {
        assert(without_hyphens(normalized(name)) =~= Seq::<char>::empty());
    }
}

/// Normalization, followed one character at a time (returns `Err(c)` for the
/// first character that may not appear).
fn normalize_chars(name: &str) -> (res: Result<String, char>)
    ensures
        match res {
            Ok(n) => first_unsupported(name@) is None && n@ == normalized(name@),
            Err(c) => first_unsupported(name@) == Some(c),
        },
{
    let mut normalized_out = String::new();
    let mut separator_pending = false;
    let mut is_empty = true;
    let chars = chars_of(name);
    let ghost s = name@;
    let len = chars.len();
    let mut i: usize = 0;
    while i < len
        invariant
            s == name@,
            chars@ == s,
            len == s.len(),
            0 <= i <= len,
            forall|j: int| 0 <= j < i ==> is_supported(#[trigger] s[j]),
            normalized_out@ == lower(join(words(s.take(i as int)), '-')),
            is_empty == (words(s.take(i as int)).len() == 0),
            separator_pending == (i > 0 && !is_ascii_alnum(s[i - 1]) && words(
                s.take(i as int),
            ).len() > 0),
        decreases len - i,
    {
        let c = chars[i];
        assert(c == s[i as int]);
        let ghost prefix = s.take(i as int);
        let ghost next = s.take(i + 1);
        assert(next.drop_last() =~= prefix);
        assert(next.last() == c);
        let code = c as u32;
        let alnum = (48 <= code && code <= 57) || (65 <= code && code <= 90) || (97 <= code && code
            <= 122);
        if alnum {
            if separator_pending && !is_empty {
                push_char(&mut normalized_out, '-');
                proof {
                    lemma_lower_push(join(words(prefix), '-'), '-');
                }
            }
            let lowered = if 65 <= code && code <= 90 {
                ((code as u8) + 32u8) as char
            } else {
                c
            };
            push_char(&mut normalized_out, lowered);
            proof {
                let ws = words(prefix);
                if i > 0 && is_ascii_alnum(s[i - 1]) {
                    assert(prefix.last() == s[i - 1]);
                    lemma_words_nonempty_when_last_alnum(prefix);
                    lemma_join_extend(ws, c, '-');
                    lemma_lower_push(join(ws, '-'), c);
                } else if ws.len() > 0 {
                    lemma_join_push(ws, seq![c], '-');
                    lemma_lower_push(join(ws, '-').push('-'), c);
                    assert(join(ws, '-').push('-') + seq![c] =~= join(ws, '-').push('-').push(c));
                } else {
                    assert(ws.push(seq![c]) =~= seq![seq![c]]);
                    assert(lower(seq![c]) =~= seq![ascii_lower(c)]);
                    assert(normalized_out@ =~= seq![ascii_lower(c)]);
                }
            }
            is_empty = false;
            separator_pending = false;
        } else if c == '-' || c == '_' || c == '.' || c == ' ' {
            separator_pending = !is_empty;
        } else {
            proof {
                lemma_first_unsupported(s, i as int);
            }
            return Err(c);
        }
        i = i + 1;
    }
    proof {
        lemma_first_unsupported(s, i as int);
        assert(s.take(i as int) =~= s);
    }
    Ok(normalized_out)
}

/// Turns the name of the destination directory into the project name.
///
/// Fails (exit code 1) on the first character that is neither an ASCII
/// letter or digit nor one of `-`, `_`, `.` and space; on a name without a
/// letter or digit; and on a result longer than 63 characters.
pub fn normalize_project_name(name: &str) -> (res: Result<String, Error>)
    ensures
        match res {
            Ok(p) => project_name_outcome(name@) == Ok::<Seq<char>, Seq<char>>(p@),
            Err(e) => project_name_outcome(name@) == Err::<Seq<char>, Seq<char>>(e.text())
                && e.code() == OPERATION_EXIT_CODE,
        },
{
    match normalize_chars(name) {
        Err(c) => {
            let mut message = UNSUPPORTED_CHARACTER.to_owned();
            let shown = debug_char(c);
            message.append(shown.as_str());
            Err(Error::operation(message))
        },
        Ok(n) => {
            let count = n.as_str().unicode_len();
            if count == 0 {
                Err(Error::operation(NO_LETTER_OR_DIGIT.to_owned()))
            } else if count > MAX_PROJECT_NAME_LEN {
                Err(Error::operation(NAME_TOO_LONG.to_owned()))
            } else {
                Ok(n)
            }
        },
    }
}

} // verus!
