//! The crontab adapter's codec: parsing the scheduler's directive text
//! into jobs, rendering jobs back into directive text, and interpreting
//! one run of the scheduler's list command. The subprocesses themselves
//! live outside the library; this module does everything between their
//! plain text and the job list, and proves that a load, a save and a
//! second load agree on the persisted triples.

use vstd::prelude::*;

use crate::config::Config;
use crate::engine::get_next_execution;
use crate::job::entries_of;
use crate::job::entry_of;
use crate::job::CronJob;
use crate::text::contains_seq;
use crate::text::contains_sub;
use crate::text::join_sp;
use crate::text::join_tokens;
use crate::text::split_on_char;
use crate::text::split_sep;
use crate::text::split_whitespace_tokens;
use crate::text::split_ws;
use crate::text::strip_hashes;
use crate::text::strip_hashes_str;
use crate::text::terminated;
use crate::text::trim;
use crate::text::trim_str;
use crate::text::views_of;

verus! {

/// The persisted value of one job: (schedule, command, description).
pub type Entry = (Seq<char>, Seq<char>, Seq<char>);

// ---------------------------------------------------------------------
// the directive format, read
// ---------------------------------------------------------------------

/// Reads directive lines: blank lines are skipped, a comment line sets
/// the pending description for the next directive only, and a directive
/// line of at least six tokens yields its first five tokens as the
/// schedule and the rest as the command. Shorter lines are skipped and
/// leave the pending description in place.
pub open spec fn parse_lines(ls: Seq<Seq<char>>, pending: Seq<char>) -> Seq<Entry>
    decreases ls.len(),
{
    if ls.len() == 0 {
        Seq::<Entry>::empty()
    } else {
        let l = trim(ls[0]);
        if l.len() == 0 {
            parse_lines(ls.drop_first(), pending)
        } else if l[0] == '#' {
            parse_lines(ls.drop_first(), trim(strip_hashes(l)))
        } else {
            let toks = split_ws(l);
            if toks.len() < 6 {
                parse_lines(ls.drop_first(), pending)
            } else {
                seq![(join_sp(toks.take(5)), join_sp(toks.skip(5)), pending)] + parse_lines(
                    ls.drop_first(),
                    Seq::<char>::empty(),
                )
            }
        }
    }
}

/// The entries carried by a whole listing text.
pub open spec fn parse_text(t: Seq<char>) -> Seq<Entry> {
    parse_lines(split_sep(t, '\n'), Seq::<char>::empty())
}

// ---------------------------------------------------------------------
// the directive format, written
// ---------------------------------------------------------------------

pub open spec fn comment_line(d: Seq<char>) -> Seq<char> {
    seq!['#', ' '] + d
}

pub open spec fn directive_line(s: Seq<char>, c: Seq<char>) -> Seq<char> {
    s + seq![' '] + c
}

/// The lines one entry contributes: nothing for an empty command, else
/// an optional comment line followed by the directive line.
pub open spec fn emit_lines(e: Entry) -> Seq<Seq<char>> {
    if e.1.len() == 0 {
        Seq::<Seq<char>>::empty()
    } else if e.2.len() == 0 {
        seq![directive_line(e.0, e.1)]
    } else {
        seq![comment_line(e.2), directive_line(e.0, e.1)]
    }
}

pub open spec fn render_lines(es: Seq<Entry>) -> Seq<Seq<char>>
    decreases es.len(),
{
    if es.len() == 0 {
        Seq::<Seq<char>>::empty()
    } else {
        emit_lines(es[0]) + render_lines(es.drop_first())
    }
}

/// The whole persisted text: every line followed by a line feed.
pub open spec fn render_text(es: Seq<Entry>) -> Seq<char> {
    terminated(render_lines(es), '\n')
}

// ---------------------------------------------------------------------
// executable parsing
// ---------------------------------------------------------------------

/// One line advances the reader as its trimmed form dictates.
proof fn lemma_parse_lines_step(ls: Seq<Seq<char>>, pending: Seq<char>)
    requires
        ls.len() > 0,
    ensures
        parse_lines(ls, pending) == ({
            let l = trim(ls[0]);
            if l.len() == 0 {
                parse_lines(ls.drop_first(), pending)
            } else if l[0] == '#' {
                parse_lines(ls.drop_first(), trim(strip_hashes(l)))
            } else {
                let toks = split_ws(l);
                if toks.len() < 6 {
                    parse_lines(ls.drop_first(), pending)
                } else {
                    seq![(join_sp(toks.take(5)), join_sp(toks.skip(5)), pending)] + parse_lines(
                        ls.drop_first(),
                        Seq::<char>::empty(),
                    )
                }
            }
        }),
{
}

/// Parses a whole listing into jobs, computing each job's advisory
/// next-run display string in the configured time zone.
pub fn parse_crontab(text: &str, config: &Config) -> (r: Vec<CronJob>)
    ensures
        entries_of(r@) == parse_text(text@),
{
    let lines = split_on_char(text, '\n');
    let mut jobs: Vec<CronJob> = Vec::new();
    let mut pending: String = String::new();
    let mut li: usize = 0;
    proof {
        assert(views_of(lines@).skip(0) =~= views_of(lines@));
        assert(entries_of(jobs@) =~= Seq::<Entry>::empty());
        assert(entries_of(jobs@) + parse_lines(views_of(lines@), pending@) =~= parse_text(text@));
    }
    while li < lines.len()
        invariant
            li <= lines@.len(),
            views_of(lines@) == split_sep(text@, '\n'),
            entries_of(jobs@) + parse_lines(views_of(lines@).skip(li as int), pending@)
                == parse_text(text@),
        decreases lines@.len() - li,
    {
        proof {
            assert(views_of(lines@)[li as int] == lines@[li as int]@);
            assert(views_of(lines@).skip(li as int)[0] == views_of(lines@)[li as int]);
            assert(views_of(lines@).skip(li as int).drop_first() =~= views_of(lines@).skip(
                li as int + 1,
            ));
            lemma_parse_lines_step(views_of(lines@).skip(li as int), pending@);
        }
        let l = trim_str(lines[li].as_str());
        if l.as_str().is_empty() {
        } else if l.as_str().get_char(0) == '#' {
            let stripped = strip_hashes_str(l.as_str());
            pending = trim_str(stripped.as_str());
        } else {
            let toks = split_whitespace_tokens(l.as_str());
            if toks.len() >= 6 {
                let sched = join_tokens(&toks, 0, 5);
                let cmd = join_tokens(&toks, 5, toks.len());
                proof {
                    assert(views_of(toks@).subrange(0, 5) =~= split_ws(l@).take(5));
                    assert(views_of(toks@).subrange(5, views_of(toks@).len() as int) =~= split_ws(
                        l@,
                    ).skip(5));
                }
                let next = get_next_execution(sched.as_str(), config);
                let ghost prev = entries_of(jobs@);
                let ghost e: Entry = (sched@, cmd@, pending@);
                let j = CronJob {
                    cron_notation: sched,
                    job: cmd,
                    job_description: pending,
                    next_execution: next,
                };
                jobs.push(j);
                pending = String::new();
                proof {
                    assert(entries_of(jobs@) =~= prev + seq![e]);
                    assert(entries_of(jobs@) + parse_lines(
                        views_of(lines@).skip(li as int + 1),
                        Seq::<char>::empty(),
                    ) =~= parse_text(text@));
                }
            }
        }
        li = li + 1;
    }
    proof {
        assert(views_of(lines@).skip(lines@.len() as int) =~= Seq::<Seq<char>>::empty());
        assert(entries_of(jobs@) =~= parse_text(text@));
    }
    jobs
}

// ---------------------------------------------------------------------
// executable rendering
// ---------------------------------------------------------------------

/// Appending an entry appends the lines it contributes.
proof fn lemma_render_lines_snoc(es: Seq<Entry>, e: Entry)
    ensures
        render_lines(es.push(e)) == render_lines(es) + emit_lines(e),
    decreases es.len(),
{
    if es.len() == 0 {
        assert(es.push(e)[0] == e);
        assert(es.push(e).drop_first() =~= Seq::<Entry>::empty());
        assert(render_lines(Seq::<Entry>::empty()) =~= Seq::<Seq<char>>::empty());
        assert(render_lines(es.push(e)) =~= emit_lines(e));
        assert(render_lines(es) + emit_lines(e) =~= emit_lines(e));
    } else {
        assert(es.push(e)[0] == es[0]);
        assert(es.push(e).drop_first() =~= es.drop_first().push(e));
        lemma_render_lines_snoc(es.drop_first(), e);
        assert(emit_lines(es[0]) + (render_lines(es.drop_first()) + emit_lines(e)) =~= (emit_lines(
            es[0],
        ) + render_lines(es.drop_first())) + emit_lines(e));
    }
}

/// Terminated forms of no lines and of one line.
proof fn lemma_terminated_small(l: Seq<char>, sep: char)
    ensures
        terminated(Seq::<Seq<char>>::empty(), sep) == Seq::<char>::empty(),
        terminated(seq![l], sep) == l + seq![sep],
{
    assert(seq![l][0] == l);
    assert(seq![l].drop_first() =~= Seq::<Seq<char>>::empty());
    assert(l + seq![sep] + Seq::<char>::empty() =~= l + seq![sep]);
}

/// Termination distributes over concatenation of line lists.
proof fn lemma_terminated_app(a: Seq<Seq<char>>, b: Seq<Seq<char>>, sep: char)
    ensures
        terminated(a + b, sep) == terminated(a, sep) + terminated(b, sep),
    decreases a.len(),
{
    if a.len() == 0 {
        assert(a + b =~= b);
        assert(terminated(a, sep) + terminated(b, sep) =~= terminated(b, sep));
    } else {
        assert((a + b)[0] == a[0]);
        assert((a + b).drop_first() =~= a.drop_first() + b);
        lemma_terminated_app(a.drop_first(), b, sep);
        assert(a[0] + seq![sep] + (terminated(a.drop_first(), sep) + terminated(b, sep)) =~= (a[0]
            + seq![sep] + terminated(a.drop_first(), sep)) + terminated(b, sep));
    }
}

/// Serializes jobs to the persisted directive text: entries with an
/// empty command are skipped; each other entry is an optional comment
/// line (only when the description is non-empty) followed by
/// `<schedule> <command>`, every line closed with a line feed.
pub fn render_crontab(jobs: &Vec<CronJob>) -> (r: String)
    ensures
        r@ == render_text(entries_of(jobs@)),
{
    let mut out = String::new();
    let mut i: usize = 0;
    proof {
        assert(entries_of(jobs@.take(0)) =~= Seq::<Entry>::empty());
        assert(out@ =~= terminated(render_lines(entries_of(jobs@.take(0))), '\n'));
    }
    while i < jobs.len()
        invariant
            i <= jobs@.len(),
            out@ == terminated(render_lines(entries_of(jobs@.take(i as int))), '\n'),
        decreases jobs@.len() - i,
    {
        let ghost done = entries_of(jobs@.take(i as int));
        let ghost e = entry_of(jobs@[i as int]);
        proof {
            assert(jobs@.take(i as int + 1).drop_last() =~= jobs@.take(i as int));
            assert(jobs@.take(i as int + 1).last() == jobs@[i as int]);
            assert(entries_of(jobs@.take(i as int + 1)) =~= done.push(e));
            lemma_render_lines_snoc(done, e);
            lemma_terminated_app(render_lines(done), emit_lines(e), '\n');
        }
        if !jobs[i].job.as_str().is_empty() {
            if !jobs[i].job_description.as_str().is_empty() {
                out.append("# ");
                out.append(jobs[i].job_description.as_str());
                crate::text::string_push(&mut out, '\n');
                proof {
                    reveal_strlit("# ");
                    assert("# "@ =~= seq!['#', ' ']);
                }
            }
            out.append(jobs[i].cron_notation.as_str());
            crate::text::string_push(&mut out, ' ');
            out.append(jobs[i].job.as_str());
            crate::text::string_push(&mut out, '\n');
            proof {
                lemma_terminated_small(directive_line(e.0, e.1), '\n');
                if e.2.len() == 0 {
                    assert(emit_lines(e) =~= seq![directive_line(e.0, e.1)]);
                    assert(out@ =~= terminated(render_lines(done.push(e)), '\n'));
                } else {
                    assert(emit_lines(e)[0] == comment_line(e.2));
                    assert(emit_lines(e).drop_first() =~= seq![directive_line(e.0, e.1)]);
                    assert(terminated(emit_lines(e), '\n') == comment_line(e.2) + seq!['\n']
                        + terminated(seq![directive_line(e.0, e.1)], '\n'));
                    assert(terminated(emit_lines(e), '\n') =~= comment_line(e.2) + seq!['\n']
                        + directive_line(e.0, e.1) + seq!['\n']);
                    assert(out@ =~= terminated(render_lines(done.push(e)), '\n'));
                }
            }
        } else {
            proof {
                lemma_terminated_small(Seq::<char>::empty(), '\n');
                assert(emit_lines(e) =~= Seq::<Seq<char>>::empty());
                assert(out@ =~= terminated(render_lines(done.push(e)), '\n'));
            }
        }
        i = i + 1;
    }
    proof {
        assert(jobs@.take(jobs@.len() as int) =~= jobs@);
    }
    out
}

// ---------------------------------------------------------------------
// the load / save / load law
// ---------------------------------------------------------------------

/// The shape every entry read back from a listing has: the schedule is
/// five blank-joined tokens not opening with the comment marker, the
/// command is at least one blank-joined token, and the description is
/// trimmed and free of line feeds.
pub open spec fn canon_entry(e: Entry) -> bool {
    &&& split_ws(e.0).len() == 5
    &&& e.0 == join_sp(split_ws(e.0))
    &&& e.0.len() > 0
    &&& e.0[0] != '#'
    &&& split_ws(e.1).len() >= 1
    &&& e.1 == join_sp(split_ws(e.1))
    &&& e.2 == trim(e.2)
    &&& crate::text::sep_free(e.2, '\n')
}

/// Every entry the reader produces is canonical, as long as the lines
/// hold no line feeds and the pending description is itself trimmed and
/// line-feed free.
proof fn lemma_parse_lines_canon(ls: Seq<Seq<char>>, pending: Seq<char>)
    requires
        forall|k: int| 0 <= k < ls.len() ==> crate::text::sep_free(#[trigger] ls[k], '\n'),
        pending == trim(pending),
        crate::text::sep_free(pending, '\n'),
    ensures
        forall|k: int|
            0 <= k < parse_lines(ls, pending).len() ==> canon_entry(
                #[trigger] parse_lines(ls, pending)[k],
            ),
    decreases ls.len(),
{
    if ls.len() == 0 {
    } else {
        let rest = ls.drop_first();
        assert(forall|k: int|
            0 <= k < rest.len() ==> crate::text::sep_free(#[trigger] rest[k], '\n')) by {
            assert(forall|k: int| 0 <= k < rest.len() ==> rest[k] == #[trigger] ls[k + 1]);
        }
        let l = trim(ls[0]);
        crate::text::lemma_sep_free_parts(ls[0], '\n');
        let r = parse_lines(ls, pending);
        if l.len() == 0 {
            lemma_parse_lines_canon(rest, pending);
            let rec = parse_lines(rest, pending);
            assert(r == rec);
            assert forall|k: int| 0 <= k < r.len() implies canon_entry(#[trigger] r[k]) by {
                assert(r[k] == rec[k]);
            }
        } else if l[0] == '#' {
            let p = trim(strip_hashes(l));
            crate::text::lemma_trim_trimmed(strip_hashes(l));
            crate::text::lemma_sep_free_parts(l, '\n');
            lemma_parse_lines_canon(rest, p);
            let rec = parse_lines(rest, p);
            assert(r == rec);
            assert forall|k: int| 0 <= k < r.len() implies canon_entry(#[trigger] r[k]) by {
                assert(r[k] == rec[k]);
            }
        } else {
            let toks = split_ws(l);
            if toks.len() < 6 {
                lemma_parse_lines_canon(rest, pending);
                let rec = parse_lines(rest, pending);
                assert(r == rec);
                assert forall|k: int| 0 <= k < r.len() implies canon_entry(#[trigger] r[k]) by {
                    assert(r[k] == rec[k]);
                }
            } else {
                crate::text::lemma_split_ws_tokens_wf(l);
                let sw = toks.take(5);
                let cw = toks.skip(5);
                assert(crate::text::wf_words(sw)) by {
                    assert(forall|i: int| 0 <= i < sw.len() ==> sw[i] == #[trigger] toks[i]);
                }
                assert(crate::text::wf_words(cw)) by {
                    assert(forall|i: int| 0 <= i < cw.len() ==> cw[i] == #[trigger] toks[i + 5]);
                }
                crate::text::lemma_split_of_join(sw);
                crate::text::lemma_split_of_join(cw);
                crate::text::lemma_join_ends(sw);
                crate::text::lemma_join_ends(cw);
                crate::text::lemma_trim_trimmed(ls[0]);
                crate::text::lemma_split_ws_first(l);
                assert(sw[0] == toks[0]);
                let e: Entry = (join_sp(sw), join_sp(cw), pending);
                assert(canon_entry(e));
                lemma_parse_lines_canon(rest, Seq::<char>::empty());
                let r = parse_lines(ls, pending);
                let rec = parse_lines(rest, Seq::<char>::empty());
                assert(r == seq![e] + rec);
                assert(forall|k: int|
                    0 <= k < r.len() ==> #[trigger] r[k] == (if k == 0 {
                        e
                    } else {
                        rec[k - 1]
                    }));
            }
        }
    }
}

/// No rendered line holds a line feed.
proof fn lemma_render_lines_clean(es: Seq<Entry>)
    requires
        forall|k: int| 0 <= k < es.len() ==> canon_entry(#[trigger] es[k]),
    ensures
        forall|k: int|
            0 <= k < render_lines(es).len() ==> crate::text::sep_free(
                #[trigger] render_lines(es)[k],
                '\n',
            ),
    decreases es.len(),
{
    if es.len() == 0 {
    } else {
        let e = es[0];
        let rest = es.drop_first();
        assert(forall|k: int| 0 <= k < rest.len() ==> canon_entry(#[trigger] rest[k])) by {
            assert(forall|k: int| 0 <= k < rest.len() ==> rest[k] == #[trigger] es[k + 1]);
        }
        lemma_render_lines_clean(rest);
        assert(canon_entry(e));
        crate::text::lemma_split_ws_tokens_wf(e.0);
        crate::text::lemma_split_ws_tokens_wf(e.1);
        crate::text::lemma_join_sep_free(split_ws(e.0), '\n');
        crate::text::lemma_join_sep_free(split_ws(e.1), '\n');
        let dir = directive_line(e.0, e.1);
        assert(crate::text::sep_free(dir, '\n')) by {
            assert(forall|i: int|
                0 <= i < dir.len() ==> #[trigger] dir[i] == (if i < e.0.len() {
                    e.0[i]
                } else if i == e.0.len() {
                    ' '
                } else {
                    e.1[i - e.0.len() - 1]
                }));
        }
        let cl = comment_line(e.2);
        assert(crate::text::sep_free(cl, '\n')) by {
            assert(forall|i: int|
                0 <= i < cl.len() ==> #[trigger] cl[i] == (if i == 0 {
                    '#'
                } else if i == 1 {
                    ' '
                } else {
                    e.2[i - 2]
                }));
        }
        let r = render_lines(es);
        let em = emit_lines(e);
        let rec = render_lines(rest);
        assert(r == em + rec);
        assert(forall|k: int|
            0 <= k < r.len() ==> #[trigger] r[k] == (if k < em.len() {
                em[k]
            } else {
                rec[k - em.len()]
            }));
        assert(forall|k: int|
            0 <= k < em.len() ==> crate::text::sep_free(#[trigger] em[k], '\n')) by {
            if e.1.len() > 0 {
                if e.2.len() == 0 {
                    assert(em[0] == dir);
                } else {
                    assert(em[0] == cl);
                    assert(em[1] == dir);
                }
            }
        }
    }
}

/// Reading back the rendered lines recovers the canonical entries.
proof fn lemma_round_trip_lines(es: Seq<Entry>)
    requires
        forall|k: int| 0 <= k < es.len() ==> canon_entry(#[trigger] es[k]),
    ensures
        parse_lines(render_lines(es) + seq![Seq::<char>::empty()], Seq::<char>::empty()) == es,
    decreases es.len(),
{
    if es.len() == 0 {
        let full = render_lines(es) + seq![Seq::<char>::empty()];
        assert(full =~= seq![Seq::<char>::empty()]);
        assert(full[0] =~= Seq::<char>::empty());
        assert(trim(Seq::<char>::empty()) =~= Seq::<char>::empty());
        assert(full.drop_first() =~= Seq::<Seq<char>>::empty());
        assert(parse_lines(Seq::<Seq<char>>::empty(), Seq::<char>::empty()) =~= Seq::<
            Entry,
        >::empty());
        lemma_parse_lines_step(full, Seq::<char>::empty());
        assert(parse_lines(full, Seq::<char>::empty()) =~= es);
    } else {
        let e = es[0];
        let rest = es.drop_first();
        assert(canon_entry(e));
        assert(forall|k: int| 0 <= k < rest.len() ==> canon_entry(#[trigger] rest[k])) by {
            assert(forall|k: int| 0 <= k < rest.len() ==> rest[k] == #[trigger] es[k + 1]);
        }
        let sw = split_ws(e.0);
        let cw = split_ws(e.1);
        crate::text::lemma_split_ws_tokens_wf(e.0);
        crate::text::lemma_split_ws_tokens_wf(e.1);
        crate::text::lemma_join_append(sw, cw);
        let dir = directive_line(e.0, e.1);
        assert(dir =~= join_sp(sw + cw));
        assert(crate::text::wf_words(sw + cw)) by {
            assert(forall|i: int|
                0 <= i < sw.len() + cw.len() ==> #[trigger] (sw + cw)[i] == (if i < sw.len() {
                    sw[i]
                } else {
                    cw[i - sw.len()]
                }));
        }
        crate::text::lemma_split_of_join(sw + cw);
        crate::text::lemma_join_ends(sw + cw);
        crate::text::lemma_join_ends(sw);
        crate::text::lemma_join_ends(cw);
        assert((sw + cw)[0] == sw[0]);
        assert(dir[0] == sw[0][0]);
        assert(e.0[0] == sw[0][0]);
        crate::text::lemma_trim_noop(dir);
        let toks = split_ws(dir);
        assert(toks == sw + cw);
        assert(toks.len() >= 6);
        assert(toks.take(5) =~= sw);
        assert(toks.skip(5) =~= cw);
        lemma_round_trip_lines(rest);
        let rlr = render_lines(rest);
        let tail = rlr + seq![Seq::<char>::empty()];
        if e.2.len() == 0 {
            let full = render_lines(es) + seq![Seq::<char>::empty()];
            assert(render_lines(es) == emit_lines(e) + rlr);
            assert(emit_lines(e) == seq![dir]);
            assert(full =~= seq![dir] + tail);
            lemma_parse_lines_step(full, Seq::<char>::empty());
            assert(full[0] == dir);
            assert(full.drop_first() =~= tail);
            assert(parse_lines(full, Seq::<char>::empty()) == seq![e] + parse_lines(
                tail,
                Seq::<char>::empty(),
            )) by {
                assert((join_sp(toks.take(5)), join_sp(toks.skip(5)), Seq::<char>::empty()) == e);
            }
            assert(seq![e] + rest =~= es);
        } else {
            let cl = comment_line(e.2);
            let full = render_lines(es) + seq![Seq::<char>::empty()];
            assert(render_lines(es) == emit_lines(e) + rlr);
            assert(emit_lines(e) == seq![cl, dir]);
            assert(full =~= seq![cl] + (seq![dir] + tail));
            crate::text::lemma_trim_trimmed(e.2);
            assert(cl[0] == '#');
            assert(cl.last() == e.2.last());
            crate::text::lemma_trim_noop(cl);
            lemma_parse_lines_step(full, Seq::<char>::empty());
            assert(full[0] == cl);
            assert(full.drop_first() =~= seq![dir] + tail);
            assert(strip_hashes(cl) == seq![' '] + e.2) by {
                assert(cl.drop_first() =~= seq![' '] + e.2);
                assert((seq![' '] + e.2)[0] == ' ');
                assert(strip_hashes(seq![' '] + e.2) == seq![' '] + e.2);
                assert(strip_hashes(cl) == strip_hashes(cl.drop_first()));
            }
            crate::text::lemma_trim_blank_prefix(e.2);
            assert(trim(strip_hashes(trim(cl))) == e.2);
            let mid = seq![dir] + tail;
            lemma_parse_lines_step(mid, e.2);
            assert(mid[0] == dir);
            assert(mid.drop_first() =~= tail);
            assert(parse_lines(mid, e.2) == seq![e] + parse_lines(tail, Seq::<char>::empty()))
                by {
                assert((join_sp(toks.take(5)), join_sp(toks.skip(5)), e.2) == e);
            }
            assert(parse_lines(full, Seq::<char>::empty()) == parse_lines(mid, e.2));
            assert(seq![e] + rest =~= es);
        }
    }
}

/// Loading, then saving, then loading again is idempotent on the
/// persisted (schedule, command, description) triples: for any listing
/// text, reading the text that would be written for its entries yields
/// exactly those entries back.
pub proof fn lemma_load_save_load(text: Seq<char>)
    ensures
        parse_text(render_text(parse_text(text))) == parse_text(text),
{
    let ls = split_sep(text, '\n');
    crate::text::lemma_split_sep_pieces(text, '\n');
    assert(trim(Seq::<char>::empty()) =~= Seq::<char>::empty());
    lemma_parse_lines_canon(ls, Seq::<char>::empty());
    let es = parse_text(text);
    lemma_render_lines_clean(es);
    crate::text::lemma_split_of_terminated(render_lines(es), '\n');
    lemma_round_trip_lines(es);
}

// ---------------------------------------------------------------------
// interpreting the list command
// ---------------------------------------------------------------------

/// The marker the scheduler prints on its error stream when the operator
/// has no installed table.
pub open spec fn no_crontab_marker() -> Seq<char> {
    "no crontab for"@
}

/// The schedule column of the sentinel row shown for an empty table.
pub open spec fn sentinel_schedule() -> Seq<char> {
    "User has no crontab"@
}

/// The message reported when the listing cannot be read at all.
pub open spec fn load_error_message() -> Seq<char> {
    "Failed to read crontab"@
}

/// Interprets one run of the scheduler's list command. A successful run
/// parses to the job list; a failed run whose error stream names the
/// missing table yields the single sentinel row rather than an error;
/// any other failure is the load error.
pub fn load_from_listing(success: bool, stdout_text: &str, stderr_text: &str, config: &Config) -> (r:
    Result<Vec<CronJob>, String>)
    ensures
        success ==> r is Ok && entries_of(r->Ok_0@) == parse_text(stdout_text@),
        !success && contains_seq(stderr_text@, no_crontab_marker()) ==> r is Ok && r->Ok_0@.len()
            == 1 && entry_of(r->Ok_0@[0]) == (sentinel_schedule(), Seq::<char>::empty(), Seq::<
            char,
        >::empty()) && r->Ok_0@[0].next_execution@ == Seq::<char>::empty(),
        !success && !contains_seq(stderr_text@, no_crontab_marker()) ==> r is Err && r->Err_0@
            == load_error_message(),
{
    if success {
        Ok(parse_crontab(stdout_text, config))
    } else if contains_sub(stderr_text, "no crontab for") {
        let sentinel = CronJob {
            cron_notation: String::from_str("User has no crontab"),
            job: String::new(),
            job_description: String::new(),
            next_execution: String::new(),
        };
        let mut rows: Vec<CronJob> = Vec::new();
        rows.push(sentinel);
        Ok(rows)
    } else {
        Err(String::from_str("Failed to read crontab"))
    }
}

} // verus!
