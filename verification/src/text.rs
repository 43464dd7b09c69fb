//! Verified text utilities for the directive format: whitespace
//! tokenization, trimming, joining, and substring search, each with a
//! mathematical model over `Seq<char>`.

use vstd::prelude::*;

verus! {

// ---------------------------------------------------------------------
// character classes
// ---------------------------------------------------------------------

/// Whitespace for the directive format: blank, tab, carriage return, line
/// feed.
pub open spec fn is_ws(c: char) -> bool {
    c == ' ' || c == '\t' || c == '\r' || c == '\n'
}

pub fn is_ws_exec(c: char) -> (r: bool)
    ensures
        r == is_ws(c),
{
    c == ' ' || c == '\t' || c == '\r' || c == '\n'
}

/// The views of a sequence of owned strings.
pub open spec fn views_of(v: Seq<String>) -> Seq<Seq<char>> {
    v.map_values(|x: String| x@)
}

// ---------------------------------------------------------------------
// trusted string building
// ---------------------------------------------------------------------

/// Relies on `String::push`: appends the given character to the end of the
/// string.
#[verifier::external_body]
pub fn string_push(s: &mut String, c: char)
    ensures
        final(s)@ == old(s)@.push(c),
{
    s.push(c);
}

// ---------------------------------------------------------------------
// whitespace tokenization
// ---------------------------------------------------------------------

/// Tokens of `s` split on whitespace, with `cur` the partial token read so
/// far.
pub open spec fn split_ws_acc(s: Seq<char>, cur: Seq<char>) -> Seq<Seq<char>>
    decreases s.len(),
{
    if s.len() == 0 {
        if cur.len() == 0 {
            Seq::empty()
        } else {
            seq![cur]
        }
    } else if is_ws(s[0]) {
        if cur.len() == 0 {
            split_ws_acc(s.drop_first(), Seq::empty())
        } else {
            seq![cur] + split_ws_acc(s.drop_first(), Seq::empty())
        }
    } else {
        split_ws_acc(s.drop_first(), cur.push(s[0]))
    }
}

/// The whitespace-separated tokens of `s`: its maximal runs of
/// non-whitespace characters, in order.
pub open spec fn split_ws(s: Seq<char>) -> Seq<Seq<char>> {
    split_ws_acc(s, Seq::empty())
}

/// How one character advances the tokenizer.
proof fn lemma_split_ws_acc_step(s: Seq<char>, i: int, cur: Seq<char>)
    requires
        0 <= i < s.len(),
    ensures
        split_ws_acc(s.skip(i), cur) == (if is_ws(s[i]) {
            if cur.len() == 0 {
                split_ws_acc(s.skip(i + 1), Seq::<char>::empty())
            } else {
                seq![cur] + split_ws_acc(s.skip(i + 1), Seq::<char>::empty())
            }
        } else {
            split_ws_acc(s.skip(i + 1), cur.push(s[i]))
        }),
{
    assert(s.skip(i)[0] == s[i]);
    assert(s.skip(i).drop_first() =~= s.skip(i + 1));
}

/// Splits `s` into its whitespace-separated tokens.
pub fn split_whitespace_tokens(s: &str) -> (r: Vec<String>)
    ensures
        views_of(r@) == split_ws(s@),
{
    let n = s.unicode_len();
    let mut out: Vec<String> = Vec::new();
    let mut cur: String = String::new();
    let mut i: usize = 0;
    proof {
        assert(s@.skip(0) =~= s@);
        assert(views_of(out@) =~= Seq::<Seq<char>>::empty());
        assert(views_of(out@) + split_ws_acc(s@, cur@) =~= split_ws(s@));
    }
    while i < n
        invariant
            i <= n,
            n == s@.len(),
            views_of(out@) + split_ws_acc(s@.skip(i as int), cur@) == split_ws(s@),
        decreases n - i,
    {
        let c = s.get_char(i);
        proof {
            lemma_split_ws_acc_step(s@, i as int, cur@);
        }
        if is_ws_exec(c) {
            proof {
                if cur@.len() == 0 {
                    assert(cur@ =~= Seq::<char>::empty());
                }
            }
            if !cur.as_str().is_empty() {
                let ghost prev = views_of(out@);
                let ghost curv = cur@;
                out.push(cur);
                cur = String::new();
                proof {
                    assert(views_of(out@) =~= prev + seq![curv]);
                    assert(views_of(out@) + split_ws_acc(s@.skip(i as int + 1), cur@) =~= split_ws(
                        s@,
                    ));
                }
            }
        } else {
            string_push(&mut cur, c);
        }
        i = i + 1;
    }
    proof {
        assert(s@.skip(n as int) =~= Seq::<char>::empty());
    }
    if !cur.as_str().is_empty() {
        let ghost prev = views_of(out@);
        let ghost curv = cur@;
        out.push(cur);
        proof {
            assert(views_of(out@) =~= prev + seq![curv]);
        }
    }
    proof {
        assert(views_of(out@) =~= split_ws(s@));
    }
    out
}

// ---------------------------------------------------------------------
// trimming
// ---------------------------------------------------------------------

/// `s` without its leading whitespace.
pub open spec fn trim_start(s: Seq<char>) -> Seq<char>
    decreases s.len(),
{
    if s.len() > 0 && is_ws(s[0]) {
        trim_start(s.drop_first())
    } else {
        s
    }
}

/// `s` without its trailing whitespace.
pub open spec fn trim_end(s: Seq<char>) -> Seq<char>
    decreases s.len(),
{
    if s.len() > 0 && is_ws(s.last()) {
        trim_end(s.drop_last())
    } else {
        s
    }
}

/// `s` without leading and trailing whitespace.
pub open spec fn trim(s: Seq<char>) -> Seq<char> {
    trim_end(trim_start(s))
}

/// Copies `s` without its leading and trailing whitespace.
pub fn trim_str(s: &str) -> (r: String)
    ensures
        r@ == trim(s@),
{
    let n = s.unicode_len();
    let mut lo: usize = 0;
    proof {
        assert(s@.skip(0) =~= s@);
    }
    while lo < n && is_ws_exec(s.get_char(lo))
        invariant
            lo <= n,
            n == s@.len(),
            trim_start(s@) == trim_start(s@.skip(lo as int)),
        decreases n - lo,
    {
        proof {
            assert(s@.skip(lo as int)[0] == s@[lo as int]);
            assert(s@.skip(lo as int).drop_first() =~= s@.skip(lo as int + 1));
        }
        lo = lo + 1;
    }
    proof {
        if lo < n {
            assert(s@.skip(lo as int)[0] == s@[lo as int]);
        } else {
            assert(s@.skip(lo as int) =~= Seq::<char>::empty());
        }
        assert(trim_start(s@) == s@.skip(lo as int));
    }
    let mut hi: usize = n;
    proof {
        assert(s@.skip(lo as int) =~= s@.subrange(lo as int, n as int));
    }
    while hi > lo && is_ws_exec(s.get_char(hi - 1))
        invariant
            lo <= hi <= n,
            n == s@.len(),
            trim_start(s@) == s@.skip(lo as int),
            trim_end(s@.skip(lo as int)) == trim_end(s@.subrange(lo as int, hi as int)),
        decreases hi,
    {
        proof {
            let t = s@.subrange(lo as int, hi as int);
            assert(t.last() == s@[hi - 1]);
            assert(t.drop_last() =~= s@.subrange(lo as int, hi as int - 1));
        }
        hi = hi - 1;
    }
    proof {
        let t = s@.subrange(lo as int, hi as int);
        if hi > lo {
            assert(t.last() == s@[hi - 1]);
        }
        assert(trim_end(t) == t);
        assert(trim(s@) == s@.subrange(lo as int, hi as int));
    }
    let piece = s.substring_char(lo, hi);
    String::from_str(piece)
}

// ---------------------------------------------------------------------
// splitting on a separator character (empty pieces kept)
// ---------------------------------------------------------------------

/// Pieces of `s` split on `sep`, with `cur` the partial piece read so far.
/// Unlike whitespace tokenization, empty pieces are kept.
pub open spec fn split_sep_acc(s: Seq<char>, sep: char, cur: Seq<char>) -> Seq<Seq<char>>
    decreases s.len(),
{
    if s.len() == 0 {
        seq![cur]
    } else if s[0] == sep {
        seq![cur] + split_sep_acc(s.drop_first(), sep, Seq::<char>::empty())
    } else {
        split_sep_acc(s.drop_first(), sep, cur.push(s[0]))
    }
}

/// The pieces of `s` between occurrences of `sep`; always at least one
/// piece, and one more piece than separators.
pub open spec fn split_sep(s: Seq<char>, sep: char) -> Seq<Seq<char>> {
    split_sep_acc(s, sep, Seq::<char>::empty())
}

/// A piece under construction opens the first piece of the result.
proof fn lemma_split_sep_acc_first(s: Seq<char>, sep: char, cur: Seq<char>)
    requires
        cur.len() > 0,
    ensures
        split_sep_acc(s, sep, cur).len() >= 1,
        split_sep_acc(s, sep, cur)[0].len() > 0,
        split_sep_acc(s, sep, cur)[0][0] == cur[0],
    decreases s.len(),
{
    if s.len() == 0 {
    } else if s[0] == sep {
    } else {
        lemma_split_sep_acc_first(s.drop_first(), sep, cur.push(s[0]));
        assert(cur.push(s[0])[0] == cur[0]);
    }
}

/// When `s` does not begin with the separator, the first piece begins
/// with the first character of `s`.
pub proof fn lemma_split_sep_first(s: Seq<char>, sep: char)
    requires
        s.len() > 0,
        s[0] != sep,
    ensures
        split_sep(s, sep).len() >= 1,
        split_sep(s, sep)[0].len() > 0,
        split_sep(s, sep)[0][0] == s[0],
{
    assert(split_sep(s, sep) == split_sep_acc(s.drop_first(), sep, Seq::<char>::empty().push(
        s[0],
    )));
    lemma_split_sep_acc_first(s.drop_first(), sep, Seq::<char>::empty().push(s[0]));
    assert(Seq::<char>::empty().push(s[0])[0] == s[0]);
}

/// How one character advances the separator splitter.
proof fn lemma_split_sep_acc_step(s: Seq<char>, sep: char, i: int, cur: Seq<char>)
    requires
        0 <= i < s.len(),
    ensures
        split_sep_acc(s.skip(i), sep, cur) == (if s[i] == sep {
            seq![cur] + split_sep_acc(s.skip(i + 1), sep, Seq::<char>::empty())
        } else {
            split_sep_acc(s.skip(i + 1), sep, cur.push(s[i]))
        }),
{
    assert(s.skip(i)[0] == s[i]);
    assert(s.skip(i).drop_first() =~= s.skip(i + 1));
}

/// Splits `s` on the separator `sep`, keeping empty pieces.
pub fn split_on_char(s: &str, sep: char) -> (r: Vec<String>)
    ensures
        views_of(r@) == split_sep(s@, sep),
{
    let n = s.unicode_len();
    let mut out: Vec<String> = Vec::new();
    let mut cur: String = String::new();
    let mut i: usize = 0;
    proof {
        assert(s@.skip(0) =~= s@);
        assert(views_of(out@) =~= Seq::<Seq<char>>::empty());
        assert(views_of(out@) + split_sep_acc(s@, sep, cur@) =~= split_sep(s@, sep));
    }
    while i < n
        invariant
            i <= n,
            n == s@.len(),
            views_of(out@) + split_sep_acc(s@.skip(i as int), sep, cur@) == split_sep(s@, sep),
        decreases n - i,
    {
        let c = s.get_char(i);
        proof {
            lemma_split_sep_acc_step(s@, sep, i as int, cur@);
        }
        if c == sep {
            let ghost prev = views_of(out@);
            let ghost curv = cur@;
            out.push(cur);
            cur = String::new();
            proof {
                assert(views_of(out@) =~= prev + seq![curv]);
                assert(views_of(out@) + split_sep_acc(s@.skip(i as int + 1), sep, cur@) =~= split_sep(
                    s@,
                    sep,
                ));
            }
        } else {
            string_push(&mut cur, c);
        }
        i = i + 1;
    }
    proof {
        assert(s@.skip(n as int) =~= Seq::<char>::empty());
    }
    let ghost prev = views_of(out@);
    let ghost curv = cur@;
    out.push(cur);
    proof {
        assert(views_of(out@) =~= prev + seq![curv]);
        assert(views_of(out@) =~= split_sep(s@, sep));
    }
    out
}

// ---------------------------------------------------------------------
// joining tokens with single blanks
// ---------------------------------------------------------------------

/// The words of `ws` joined by single blanks.
pub open spec fn join_sp(ws: Seq<Seq<char>>) -> Seq<char>
    decreases ws.len(),
{
    if ws.len() == 0 {
        Seq::<char>::empty()
    } else if ws.len() == 1 {
        ws[0]
    } else {
        ws[0] + seq![' '] + join_sp(ws.drop_first())
    }
}

/// Joining one more word appends a blank and the word.
pub proof fn lemma_join_sp_snoc(ws: Seq<Seq<char>>, w: Seq<char>)
    ensures
        join_sp(ws.push(w)) == (if ws.len() == 0 {
            w
        } else {
            join_sp(ws) + seq![' '] + w
        }),
    decreases ws.len(),
{
    if ws.len() == 0 {
        assert(ws.push(w)[0] == w);
    } else if ws.len() == 1 {
        assert(ws.push(w).drop_first() =~= seq![w]);
        assert(join_sp(seq![w]) == w);
        assert(ws.push(w)[0] == ws[0]);
    } else {
        assert(ws.push(w).drop_first() =~= ws.drop_first().push(w));
        lemma_join_sp_snoc(ws.drop_first(), w);
        assert(ws.push(w)[0] == ws[0]);
        assert(join_sp(ws) + seq![' '] + w =~= ws[0] + seq![' '] + (join_sp(ws.drop_first())
            + seq![' '] + w));
    }
}

/// Joins the tokens `v[lo..hi]` with single blanks.
pub fn join_tokens(v: &Vec<String>, lo: usize, hi: usize) -> (r: String)
    requires
        lo <= hi <= v@.len(),
    ensures
        r@ == join_sp(views_of(v@).subrange(lo as int, hi as int)),
{
    let mut r = String::new();
    let mut k: usize = lo;
    proof {
        assert(views_of(v@).subrange(lo as int, lo as int) =~= Seq::<Seq<char>>::empty());
    }
    while k < hi
        invariant
            lo <= k <= hi <= v@.len(),
            r@ == join_sp(views_of(v@).subrange(lo as int, k as int)),
        decreases hi - k,
    {
        proof {
            assert(views_of(v@).subrange(lo as int, k as int + 1) =~= views_of(v@).subrange(
                lo as int,
                k as int,
            ).push(v@[k as int]@));
            lemma_join_sp_snoc(views_of(v@).subrange(lo as int, k as int), v@[k as int]@);
        }
        if k > lo {
            string_push(&mut r, ' ');
            proof {
                assert(r@ =~= join_sp(views_of(v@).subrange(lo as int, k as int)) + seq![' ']);
            }
        }
        r.append(v[k].as_str());
        k = k + 1;
    }
    r
}

// ---------------------------------------------------------------------
// facts about tokens, joins and pieces
// ---------------------------------------------------------------------

/// No character of `t` is whitespace.
pub open spec fn ws_free(t: Seq<char>) -> bool {
    forall|i: int| 0 <= i < t.len() ==> !is_ws(#[trigger] t[i])
}

/// No character of `t` is the separator `sep`.
pub open spec fn sep_free(t: Seq<char>, sep: char) -> bool {
    forall|i: int| 0 <= i < t.len() ==> #[trigger] t[i] != sep
}

/// Every word is non-empty and free of whitespace.
pub open spec fn wf_words(ws: Seq<Seq<char>>) -> bool {
    forall|i: int| 0 <= i < ws.len() ==> (#[trigger] ws[i]).len() > 0 && ws_free(ws[i])
}

proof fn lemma_split_ws_acc_wf(s: Seq<char>, cur: Seq<char>)
    requires
        ws_free(cur),
    ensures
        forall|k: int|
            0 <= k < split_ws_acc(s, cur).len() ==> (#[trigger] split_ws_acc(s, cur)[k]).len() > 0
                && ws_free(split_ws_acc(s, cur)[k]),
    decreases s.len(),
{
    let r = split_ws_acc(s, cur);
    if s.len() == 0 {
        if cur.len() > 0 {
            assert(r =~= seq![cur]);
            assert(r[0] == cur);
        }
    } else if is_ws(s[0]) {
        let rec = split_ws_acc(s.drop_first(), Seq::<char>::empty());
        lemma_split_ws_acc_wf(s.drop_first(), Seq::<char>::empty());
        if cur.len() > 0 {
            assert(r == seq![cur] + rec);
            assert(forall|k: int|
                0 <= k < r.len() ==> #[trigger] r[k] == (if k == 0 {
                    cur
                } else {
                    rec[k - 1]
                }));
        } else {
            assert(r == rec);
        }
    } else {
        let rec = split_ws_acc(s.drop_first(), cur.push(s[0]));
        assert(ws_free(cur.push(s[0]))) by {
            assert(forall|i: int| 0 <= i < cur.len() ==> cur.push(s[0])[i] == #[trigger] cur[i]);
            assert(cur.push(s[0])[cur.len() as int] == s[0]);
        }
        lemma_split_ws_acc_wf(s.drop_first(), cur.push(s[0]));
        assert(r == rec);
    }
}

/// Every whitespace token is non-empty and free of whitespace.
pub proof fn lemma_split_ws_tokens_wf(s: Seq<char>)
    ensures
        wf_words(split_ws(s)),
{
    lemma_split_ws_acc_wf(s, Seq::<char>::empty());
}

proof fn lemma_split_ws_acc_open(s: Seq<char>, cur: Seq<char>)
    requires
        cur.len() > 0,
    ensures
        split_ws_acc(s, cur).len() >= 1,
        split_ws_acc(s, cur)[0].len() > 0,
        split_ws_acc(s, cur)[0][0] == cur[0],
    decreases s.len(),
{
    if s.len() == 0 {
    } else if is_ws(s[0]) {
    } else {
        lemma_split_ws_acc_open(s.drop_first(), cur.push(s[0]));
        assert(cur.push(s[0])[0] == cur[0]);
    }
}

/// When `s` does not begin with whitespace, the first token begins with
/// the first character of `s`.
pub proof fn lemma_split_ws_first(s: Seq<char>)
    requires
        s.len() > 0,
        !is_ws(s[0]),
    ensures
        split_ws(s).len() >= 1,
        split_ws(s)[0].len() > 0,
        split_ws(s)[0][0] == s[0],
{
    assert(split_ws(s) == split_ws_acc(s.drop_first(), Seq::<char>::empty().push(s[0])));
    lemma_split_ws_acc_open(s.drop_first(), Seq::<char>::empty().push(s[0]));
    assert(Seq::<char>::empty().push(s[0])[0] == s[0]);
}

proof fn lemma_split_ws_acc_prefix(t: Seq<char>, r: Seq<char>, cur: Seq<char>)
    requires
        ws_free(t),
    ensures
        split_ws_acc(t + r, cur) == split_ws_acc(r, cur + t),
    decreases t.len(),
{
    if t.len() == 0 {
        assert(t + r =~= r);
        assert(cur + t =~= cur);
    } else {
        assert((t + r)[0] == t[0]);
        assert(!is_ws(t[0]));
        assert((t + r).drop_first() =~= t.drop_first() + r);
        assert(ws_free(t.drop_first()));
        lemma_split_ws_acc_prefix(t.drop_first(), r, cur.push(t[0]));
        assert(cur.push(t[0]) + t.drop_first() =~= cur + t);
    }
}

/// Splitting the blank-joined words gives the words back.
pub proof fn lemma_split_of_join(ws: Seq<Seq<char>>)
    requires
        wf_words(ws),
    ensures
        split_ws(join_sp(ws)) == ws,
    decreases ws.len(),
{
    if ws.len() == 0 {
        assert(split_ws(join_sp(ws)) =~= ws);
    } else if ws.len() == 1 {
        lemma_split_ws_acc_prefix(ws[0], Seq::<char>::empty(), Seq::<char>::empty());
        assert(ws[0] + Seq::<char>::empty() =~= ws[0]);
        assert(Seq::<char>::empty() + ws[0] =~= ws[0]);
        assert(split_ws_acc(Seq::<char>::empty(), ws[0]) == seq![ws[0]]);
        assert(seq![ws[0]] =~= ws);
    } else {
        let rest = ws.drop_first();
        assert(wf_words(rest));
        let tailpart = seq![' '] + join_sp(rest);
        lemma_split_ws_acc_prefix(ws[0], tailpart, Seq::<char>::empty());
        assert(ws[0] + tailpart =~= join_sp(ws));
        assert(Seq::<char>::empty() + ws[0] =~= ws[0]);
        assert(tailpart[0] == ' ');
        assert(is_ws(' '));
        assert(tailpart.drop_first() =~= join_sp(rest));
        assert(split_ws_acc(tailpart, ws[0]) == seq![ws[0]] + split_ws_acc(
            join_sp(rest),
            Seq::<char>::empty(),
        ));
        lemma_split_of_join(rest);
        assert(seq![ws[0]] + rest =~= ws);
    }
}

/// The ends of a blank-joined word sequence.
pub proof fn lemma_join_ends(ws: Seq<Seq<char>>)
    requires
        wf_words(ws),
        ws.len() > 0,
    ensures
        join_sp(ws).len() > 0,
        join_sp(ws)[0] == ws[0][0],
        join_sp(ws).last() == ws.last().last(),
        !is_ws(join_sp(ws)[0]),
        !is_ws(join_sp(ws).last()),
    decreases ws.len(),
{
    if ws.len() == 1 {
        assert(join_sp(ws) == ws[0]);
        assert(!is_ws(ws[0][0]));
        assert(!is_ws(ws[0].last()));
    } else {
        let rest = ws.drop_first();
        assert(wf_words(rest));
        lemma_join_ends(rest);
        assert(join_sp(ws) == ws[0] + seq![' '] + join_sp(rest));
        assert(join_sp(ws)[0] == ws[0][0]);
        assert(join_sp(ws).last() == join_sp(rest).last());
        assert(rest.last() == ws.last());
        assert(!is_ws(ws[0][0]));
    }
}

/// Joining two word sequences is joining their concatenation.
pub proof fn lemma_join_append(a: Seq<Seq<char>>, b: Seq<Seq<char>>)
    requires
        a.len() > 0,
        b.len() > 0,
    ensures
        join_sp(a + b) == join_sp(a) + seq![' '] + join_sp(b),
    decreases a.len(),
{
    if a.len() == 1 {
        assert((a + b)[0] == a[0]);
        assert((a + b).drop_first() =~= b);
        assert(join_sp(a) == a[0]);
    } else {
        assert((a + b)[0] == a[0]);
        assert((a + b).drop_first() =~= a.drop_first() + b);
        lemma_join_append(a.drop_first(), b);
        assert(join_sp(a + b) == a[0] + seq![' '] + (join_sp(a.drop_first()) + seq![' ']
            + join_sp(b)));
        assert(a[0] + seq![' '] + (join_sp(a.drop_first()) + seq![' '] + join_sp(b)) =~= (a[0]
            + seq![' '] + join_sp(a.drop_first())) + seq![' '] + join_sp(b));
    }
}

/// A whitespace character other than the blank never occurs in a join of
/// whitespace-free words.
pub proof fn lemma_join_sep_free(ws: Seq<Seq<char>>, sep: char)
    requires
        wf_words(ws),
        is_ws(sep),
        sep != ' ',
    ensures
        sep_free(join_sp(ws), sep),
    decreases ws.len(),
{
    if ws.len() == 0 {
    } else if ws.len() == 1 {
        assert(sep_free(join_sp(ws), sep)) by {
            assert(ws_free(ws[0]));
            assert(forall|i: int| 0 <= i < ws[0].len() ==> !is_ws(#[trigger] ws[0][i]));
        }
    } else {
        let rest = ws.drop_first();
        assert(wf_words(rest));
        lemma_join_sep_free(rest, sep);
        let j = join_sp(ws);
        let h = ws[0];
        let t = join_sp(rest);
        assert(j == h + seq![' '] + t);
        assert(sep_free(j, sep)) by {
            assert(forall|i: int|
                0 <= i < j.len() ==> #[trigger] j[i] == (if i < h.len() {
                    h[i]
                } else if i == h.len() {
                    ' '
                } else {
                    t[i - h.len() - 1]
                }));
            assert(ws_free(h));
        }
    }
}

// ---------------------------------------------------------------------
// facts about trimming
// ---------------------------------------------------------------------

proof fn lemma_trim_start_len(s: Seq<char>)
    ensures
        trim_start(s).len() <= s.len(),
        trim_start(s).len() == s.len() ==> trim_start(s) == s,
        trim_start(s).len() > 0 ==> !is_ws(trim_start(s)[0]),
    decreases s.len(),
{
    if s.len() > 0 && is_ws(s[0]) {
        lemma_trim_start_len(s.drop_first());
    }
}

proof fn lemma_trim_end_len(s: Seq<char>)
    ensures
        trim_end(s).len() <= s.len(),
        trim_end(s).len() == s.len() ==> trim_end(s) == s,
        trim_end(s).len() > 0 ==> !is_ws(trim_end(s).last()),
        trim_end(s).len() > 0 ==> trim_end(s)[0] == s[0],
    decreases s.len(),
{
    if s.len() > 0 && is_ws(s.last()) {
        lemma_trim_end_len(s.drop_last());
        if trim_end(s).len() > 0 {
            assert(s.drop_last()[0] == s[0]);
        }
    }
}

/// Trimming changes nothing when neither end is whitespace.
pub proof fn lemma_trim_noop(s: Seq<char>)
    requires
        s.len() == 0 || (!is_ws(s[0]) && !is_ws(s.last())),
    ensures
        trim(s) == s,
{
    assert(trim_start(s) == s);
    assert(trim_end(s) == s);
}

/// A trimmed string has no whitespace at either end, and trimming is
/// idempotent.
pub proof fn lemma_trim_trimmed(s: Seq<char>)
    ensures
        trim(trim(s)) == trim(s),
        trim(s).len() > 0 ==> !is_ws(trim(s)[0]) && !is_ws(trim(s).last()),
        trim(s) == s ==> trim_start(s) == s && trim_end(s) == s,
{
    lemma_trim_start_len(s);
    lemma_trim_end_len(trim_start(s));
    if trim(s).len() > 0 {
        assert(!is_ws(trim(s).last()));
        assert(trim(s)[0] == trim_start(s)[0]);
        assert(!is_ws(trim(s)[0]));
    }
    lemma_trim_noop(trim(s));
    if trim(s) == s {
        if s.len() == 0 {
        } else {
            assert(trim_start(s) == s);
            assert(trim_end(s) == s);
        }
    }
}

/// Trimming a string that begins with one blank and is otherwise trimmed
/// yields the rest.
pub proof fn lemma_trim_blank_prefix(d: Seq<char>)
    requires
        trim(d) == d,
    ensures
        trim(seq![' '] + d) == d,
{
    let s = seq![' '] + d;
    assert(s[0] == ' ');
    assert(s.drop_first() =~= d);
    lemma_trim_trimmed(d);
    assert(trim_start(s) == trim_start(d));
    assert(trim_start(d) == d);
    assert(trim_end(d) == d);
}

proof fn lemma_sep_free_trim_start(s: Seq<char>, sep: char)
    requires
        sep_free(s, sep),
    ensures
        sep_free(trim_start(s), sep),
    decreases s.len(),
{
    if s.len() > 0 && is_ws(s[0]) {
        assert(sep_free(s.drop_first(), sep)) by {
            assert(forall|i: int|
                0 <= i < s.drop_first().len() ==> #[trigger] s.drop_first()[i] == s[i + 1]);
        }
        lemma_sep_free_trim_start(s.drop_first(), sep);
    }
}

proof fn lemma_sep_free_trim_end(s: Seq<char>, sep: char)
    requires
        sep_free(s, sep),
    ensures
        sep_free(trim_end(s), sep),
    decreases s.len(),
{
    if s.len() > 0 && is_ws(s.last()) {
        assert(sep_free(s.drop_last(), sep)) by {
            assert(forall|i: int|
                0 <= i < s.drop_last().len() ==> #[trigger] s.drop_last()[i] == s[i]);
        }
        lemma_sep_free_trim_end(s.drop_last(), sep);
    }
}

proof fn lemma_sep_free_strip_hashes(s: Seq<char>, sep: char)
    requires
        sep_free(s, sep),
    ensures
        sep_free(strip_hashes(s), sep),
    decreases s.len(),
{
    if s.len() > 0 && s[0] == '#' {
        assert(sep_free(s.drop_first(), sep)) by {
            assert(forall|i: int|
                0 <= i < s.drop_first().len() ==> #[trigger] s.drop_first()[i] == s[i + 1]);
        }
        lemma_sep_free_strip_hashes(s.drop_first(), sep);
    }
}

/// A character absent from `s` stays absent after trimming and comment
/// stripping.
pub proof fn lemma_sep_free_parts(s: Seq<char>, sep: char)
    requires
        sep_free(s, sep),
    ensures
        sep_free(trim(s), sep),
        sep_free(trim(strip_hashes(s)), sep),
{
    lemma_sep_free_trim_start(s, sep);
    lemma_sep_free_trim_end(trim_start(s), sep);
    lemma_sep_free_strip_hashes(s, sep);
    lemma_sep_free_trim_start(strip_hashes(s), sep);
    lemma_sep_free_trim_end(trim_start(strip_hashes(s)), sep);
}

// ---------------------------------------------------------------------
// facts about separator pieces
// ---------------------------------------------------------------------

proof fn lemma_split_sep_acc_pieces(s: Seq<char>, sep: char, cur: Seq<char>)
    requires
        sep_free(cur, sep),
    ensures
        forall|k: int|
            0 <= k < split_sep_acc(s, sep, cur).len() ==> sep_free(
                #[trigger] split_sep_acc(s, sep, cur)[k],
                sep,
            ),
    decreases s.len(),
{
    let r = split_sep_acc(s, sep, cur);
    if s.len() == 0 {
        assert(r =~= seq![cur]);
        assert(r[0] == cur);
    } else if s[0] == sep {
        let rec = split_sep_acc(s.drop_first(), sep, Seq::<char>::empty());
        lemma_split_sep_acc_pieces(s.drop_first(), sep, Seq::<char>::empty());
        assert(r == seq![cur] + rec);
        assert(forall|k: int|
            0 <= k < r.len() ==> #[trigger] r[k] == (if k == 0 {
                cur
            } else {
                rec[k - 1]
            }));
    } else {
        let rec = split_sep_acc(s.drop_first(), sep, cur.push(s[0]));
        assert(sep_free(cur.push(s[0]), sep)) by {
            assert(forall|i: int| 0 <= i < cur.len() ==> cur.push(s[0])[i] == #[trigger] cur[i]);
            assert(cur.push(s[0])[cur.len() as int] == s[0]);
        }
        lemma_split_sep_acc_pieces(s.drop_first(), sep, cur.push(s[0]));
        assert(r == rec);
    }
}

/// No piece contains the separator it was split on.
pub proof fn lemma_split_sep_pieces(s: Seq<char>, sep: char)
    ensures
        forall|k: int|
            0 <= k < split_sep(s, sep).len() ==> sep_free(#[trigger] split_sep(s, sep)[k], sep),
{
    lemma_split_sep_acc_pieces(s, sep, Seq::<char>::empty());
}

proof fn lemma_split_sep_acc_prefix(t: Seq<char>, r: Seq<char>, sep: char, cur: Seq<char>)
    requires
        sep_free(t, sep),
    ensures
        split_sep_acc(t + r, sep, cur) == split_sep_acc(r, sep, cur + t),
    decreases t.len(),
{
    if t.len() == 0 {
        assert(t + r =~= r);
        assert(cur + t =~= cur);
    } else {
        assert((t + r)[0] == t[0]);
        assert(t[0] != sep);
        assert((t + r).drop_first() =~= t.drop_first() + r);
        assert(sep_free(t.drop_first(), sep)) by {
            assert(forall|i: int|
                0 <= i < t.drop_first().len() ==> #[trigger] t.drop_first()[i] == t[i + 1]);
        }
        lemma_split_sep_acc_prefix(t.drop_first(), r, sep, cur.push(t[0]));
        assert(cur.push(t[0]) + t.drop_first() =~= cur + t);
    }
}

/// Each line followed by the separator, concatenated.
pub open spec fn terminated(ls: Seq<Seq<char>>, sep: char) -> Seq<char>
    decreases ls.len(),
{
    if ls.len() == 0 {
        Seq::<char>::empty()
    } else {
        ls[0] + seq![sep] + terminated(ls.drop_first(), sep)
    }
}

/// Splitting separator-terminated lines gives the lines back, plus one
/// final empty piece for the trailing separator.
pub proof fn lemma_split_of_terminated(ls: Seq<Seq<char>>, sep: char)
    requires
        forall|k: int| 0 <= k < ls.len() ==> sep_free(#[trigger] ls[k], sep),
    ensures
        split_sep(terminated(ls, sep), sep) == ls + seq![Seq::<char>::empty()],
    decreases ls.len(),
{
    if ls.len() == 0 {
        assert(split_sep_acc(Seq::<char>::empty(), sep, Seq::<char>::empty()) == seq![
            Seq::<char>::empty(),
        ]);
        assert(ls + seq![Seq::<char>::empty()] =~= seq![Seq::<char>::empty()]);
    } else {
        let l = ls[0];
        let rest = ls.drop_first();
        let tailpart = seq![sep] + terminated(rest, sep);
        lemma_split_sep_acc_prefix(l, tailpart, sep, Seq::<char>::empty());
        assert(l + tailpart =~= terminated(ls, sep));
        assert(Seq::<char>::empty() + l =~= l);
        assert(tailpart[0] == sep);
        assert(tailpart.drop_first() =~= terminated(rest, sep));
        assert(split_sep_acc(tailpart, sep, l) == seq![l] + split_sep_acc(
            terminated(rest, sep),
            sep,
            Seq::<char>::empty(),
        ));
        assert(forall|k: int| 0 <= k < rest.len() ==> sep_free(#[trigger] rest[k], sep)) by {
            assert(forall|k: int| 0 <= k < rest.len() ==> rest[k] == #[trigger] ls[k + 1]);
        }
        lemma_split_of_terminated(rest, sep);
        assert(seq![l] + (rest + seq![Seq::<char>::empty()]) =~= ls + seq![Seq::<char>::empty()]);
    }
}

// ---------------------------------------------------------------------
// substring search
// ---------------------------------------------------------------------

/// `n` occurs in `h` starting at position `i`.
pub open spec fn contains_at(h: Seq<char>, n: Seq<char>, i: int) -> bool {
    0 <= i && i + n.len() <= h.len() && h.subrange(i, i + n.len()) == n
}

/// `n` occurs somewhere in `h`.
pub open spec fn contains_seq(h: Seq<char>, n: Seq<char>) -> bool {
    exists|i: int| contains_at(h, n, i)
}

/// Whether `needle` occurs in `hay` starting at position `i`.
fn matches_at(hay: &str, needle: &str, i: usize) -> (r: bool)
    requires
        i + needle@.len() <= hay@.len() <= usize::MAX,
    ensures
        r == contains_at(hay@, needle@, i as int),
{
    let nn = needle.unicode_len();
    let mut j: usize = 0;
    while j < nn
        invariant
            j <= nn,
            nn == needle@.len(),
            i + nn <= hay@.len() <= usize::MAX,
            forall|m: int| 0 <= m < j ==> hay@[i + m] == needle@[m],
        decreases nn - j,
    {
        if hay.get_char(i + j) != needle.get_char(j) {
            proof {
                assert(!contains_at(hay@, needle@, i as int)) by {
                    if hay@.subrange(i as int, i as int + needle@.len()) == needle@ {
                        assert(hay@.subrange(i as int, i as int + needle@.len())[j as int]
                            == hay@[i + j]);
                    }
                }
            }
            return false;
        }
        j = j + 1;
    }
    proof {
        assert(hay@.subrange(i as int, i as int + needle@.len()) =~= needle@);
    }
    true
}

/// Whether `needle` occurs anywhere in `hay`.
pub fn contains_sub(hay: &str, needle: &str) -> (r: bool)
    ensures
        r == contains_seq(hay@, needle@),
{
    let hn = hay.unicode_len();
    let nn = needle.unicode_len();
    if nn > hn {
        proof {
            assert(forall|i: int| !contains_at(hay@, needle@, i));
        }
        return false;
    }
    if nn == 0 {
        proof {
            assert(hay@.subrange(0, 0) =~= needle@);
            assert(contains_at(hay@, needle@, 0));
        }
        return true;
    }
    let mut i: usize = 0;
    while i <= hn - nn
        invariant
            1 <= nn <= hn,
            hn == hay@.len(),
            nn == needle@.len(),
            i <= hn - nn + 1,
            forall|k: int| 0 <= k < i ==> !contains_at(hay@, needle@, k),
        decreases hn - i,
    {
        if matches_at(hay, needle, i) {
            return true;
        }
        i = i + 1;
    }
    proof {
        assert(forall|k: int| contains_at(hay@, needle@, k) ==> 0 <= k < i);
    }
    false
}

// ---------------------------------------------------------------------
// leading comment markers
// ---------------------------------------------------------------------

/// `s` without its leading `#` characters.
pub open spec fn strip_hashes(s: Seq<char>) -> Seq<char>
    decreases s.len(),
{
    if s.len() > 0 && s[0] == '#' {
        strip_hashes(s.drop_first())
    } else {
        s
    }
}

/// Copies `s` without its leading `#` characters.
pub fn strip_hashes_str(s: &str) -> (r: String)
    ensures
        r@ == strip_hashes(s@),
{
    let n = s.unicode_len();
    let mut lo: usize = 0;
    proof {
        assert(s@.skip(0) =~= s@);
    }
    while lo < n && s.get_char(lo) == '#'
        invariant
            lo <= n,
            n == s@.len(),
            strip_hashes(s@) == strip_hashes(s@.skip(lo as int)),
        decreases n - lo,
    {
        proof {
            assert(s@.skip(lo as int)[0] == s@[lo as int]);
            assert(s@.skip(lo as int).drop_first() =~= s@.skip(lo as int + 1));
        }
        lo = lo + 1;
    }
    proof {
        if lo < n {
            assert(s@.skip(lo as int)[0] == s@[lo as int]);
        }
        assert(strip_hashes(s@) == s@.skip(lo as int));
    }
    let piece = s.substring_char(lo, n);
    String::from_str(piece)
}

} // verus!
