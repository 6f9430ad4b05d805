//! Turning a desktop entry's command template into a command line: the
//! template is split at white space and its `%` field codes are dropped.

use vstd::prelude::*;
use crate::text::{is_whitespace, string_of, white_space};

verus! {

/// The words of `s` (maximal runs without white space), `cur` being a word
/// already begun before `s`.
pub open spec fn words_from(s: Seq<char>, cur: Seq<char>) -> Seq<Seq<char>>
    decreases s.len(),
{
    if s.len() == 0 {
        if cur.len() > 0 {
            seq![cur]
        } else {
            seq![]
        }
    } else if white_space(s[0]) {
        (if cur.len() > 0 {
            seq![cur]
        } else {
            seq![]
        }) + words_from(s.drop_first(), seq![])
    } else {
        words_from(s.drop_first(), cur.push(s[0]))
    }
}

/// The words of `s`, in order.
pub open spec fn words(s: Seq<char>) -> Seq<Seq<char>> {
    words_from(s, seq![])
}

/// A word that is no field code.
pub open spec fn kept_word(w: Seq<char>) -> bool {
    w.len() > 0 && w[0] != '%'
}

/// The words joined with one space between neighbours.
pub open spec fn join_words(ws: Seq<Seq<char>>) -> Seq<char>
    decreases ws.len(),
{
    if ws.len() == 0 {
        seq![]
    } else if ws.len() == 1 {
        ws[0]
    } else {
        join_words(ws.drop_last()) + seq![' '] + ws.last()
    }
}

/// The command line of a template: its words other than field codes, one
/// space apart.
pub open spec fn strip_field_codes_spec(s: Seq<char>) -> Seq<char> {
    join_words(words(s).filter(|w: Seq<char>| kept_word(w)))
}

proof fn lemma_join_push(ws: Seq<Seq<char>>, w: Seq<char>)
    ensures
        join_words(ws.push(w)) == if ws.len() == 0 {
            w
        } else {
            join_words(ws) + seq![' '] + w
        },
{
    assert(ws.push(w).drop_last() =~= ws);
}

/// Flushes the word begun so far.
proof fn lemma_flush(emitted: Seq<Seq<char>>, cur: Seq<char>)
    ensures
        (emitted + (if cur.len() > 0 {
            seq![cur]
        } else {
            seq![]
        })).filter(|w: Seq<char>| kept_word(w)) == if kept_word(cur) {
            emitted.filter(|w: Seq<char>| kept_word(w)).push(cur)
        } else {
            emitted.filter(|w: Seq<char>| kept_word(w))
        },
{
    let p = |w: Seq<char>| kept_word(w);
    if cur.len() > 0 {
        assert(emitted + seq![cur] =~= emitted.push(cur));
        emitted.lemma_filter_push(cur, p);
    } else {
        assert(emitted + seq![] =~= emitted);
    }
}

/// Builds the command line of a command template.
pub fn strip_field_codes(exec: &str) -> (r: String)
    ensures
        r@ == strip_field_codes_spec(exec@),
{
    let ghost p = |w: Seq<char>| kept_word(w);
    let n = exec.unicode_len();
    let mut out: Vec<char> = Vec::new();
    let mut cur: Vec<char> = Vec::new();
    let ghost mut emitted: Seq<Seq<char>> = seq![];
    let mut i: usize = 0;
    assert(exec@.skip(0) =~= exec@);
    assert(emitted + words_from(exec@, cur@) =~= words(exec@));
    proof {
        reveal(Seq::filter);
    }
    while i < n
        invariant
            n == exec@.len(),
            i <= n,
            p == (|w: Seq<char>| kept_word(w)),
            emitted + words_from(exec@.skip(i as int), cur@) == words(exec@),
            out@ == join_words(emitted.filter(p)),
        decreases n - i,
    {
        let c = exec.get_char(i);
        let ghost rest = exec@.skip(i as int);
        assert(rest.drop_first() =~= exec@.skip(i + 1));
        if is_whitespace(c) {
            proof {
                lemma_flush(emitted, cur@);
            }
            if cur.len() > 0 && cur[0] != '%' {
                proof {
                    lemma_join_push(emitted.filter(p), cur@);
                }
                if out.len() > 0 {
                    out.push(' ');
                }
                let mut j: usize = 0;
                let ghost out0 = out@;
                while j < cur.len()
                    invariant
                        j <= cur@.len(),
                        out@ == out0 + cur@.take(j as int),
                    decreases cur@.len() - j,
                {
                    out.push(cur[j]);
                    j = j + 1;
                    assert(out@ =~= out0 + cur@.take(j as int));
                }
                assert(cur@.take(cur@.len() as int) =~= cur@);
                assert(join_words(emitted.filter(p)).len() == 0 ==> emitted.filter(p).len() == 0)
                    by {
                    if emitted.filter(p).len() > 0 {
                        lemma_join_nonempty(emitted.filter(p));
                    }
                }
                assert(out@ =~= join_words(emitted.filter(p).push(cur@)));
            }
            proof {
                emitted = emitted + (if cur@.len() > 0 {
                    seq![cur@]
                } else {
                    seq![]
                });
                assert(emitted + words_from(exec@.skip(i + 1), seq![]) =~= words(exec@));
            }
            cur = Vec::new();
            assert(cur@ =~= seq![]);
        } else {
            cur.push(c);
        }
        i = i + 1;
    }
    proof {
        lemma_flush(emitted, cur@);
    }
    if cur.len() > 0 && cur[0] != '%' {
        proof {
            lemma_join_push(emitted.filter(p), cur@);
        }
        if out.len() > 0 {
            out.push(' ');
        }
        let mut j: usize = 0;
        let ghost out0 = out@;
        while j < cur.len()
            invariant
                j <= cur@.len(),
                out@ == out0 + cur@.take(j as int),
            decreases cur@.len() - j,
        {
            out.push(cur[j]);
            j = j + 1;
            assert(out@ =~= out0 + cur@.take(j as int));
        }
        assert(cur@.take(cur@.len() as int) =~= cur@);
        assert(join_words(emitted.filter(p)).len() == 0 ==> emitted.filter(p).len() == 0) by {
            if emitted.filter(p).len() > 0 {
                lemma_join_nonempty(emitted.filter(p));
            }
        }
        assert(out@ =~= join_words(emitted.filter(p).push(cur@)));
    }
    proof {
        let fin = emitted + (if cur@.len() > 0 {
            seq![cur@]
        } else {
            seq![]
        });
        assert(exec@.skip(n as int).len() == 0);
        assert(fin =~= words(exec@));
    }
    string_of(&out)
}

/// A join of kept words is empty only when there are none.
proof fn lemma_join_nonempty(ws: Seq<Seq<char>>)
    requires
        ws.len() > 0,
        forall|k: int| 0 <= k < ws.len() ==> kept_word(#[trigger] ws[k]),
    ensures
        join_words(ws).len() > 0,
    decreases ws.len(),
{
    if ws.len() > 1 {
        lemma_join_nonempty(ws.drop_last());
    }
}

} // verus!
