use vstd::prelude::*;

verus! {

/// Whether `b` is ASCII whitespace: space, tab, line feed, form feed or
/// carriage return — the separators a line is split on.
pub open spec fn is_ws(b: u8) -> bool {
    b == 32 || b == 9 || b == 10 || b == 13 || b == 12
}

/// The views of a list of byte strings.
pub open spec fn views_of(ts: Seq<Vec<u8>>) -> Seq<Seq<u8>> {
    ts.map(|i: int, t: Vec<u8>| t@)
}

/// The tokens of `s` from position `i` on, with `cur` the token read so
/// far: the maximal runs of non-whitespace bytes, in order.
pub open spec fn tokens_acc(s: Seq<u8>, i: int, cur: Seq<u8>) -> Seq<Seq<u8>>
    decreases s.len() - i,
{
    if i < 0 || i >= s.len() {
        if cur.len() > 0 {
            seq![cur]
        } else {
            Seq::empty()
        }
    } else if is_ws(s[i]) {
        if cur.len() > 0 {
            seq![cur] + tokens_acc(s, i + 1, Seq::empty())
        } else {
            tokens_acc(s, i + 1, Seq::empty())
        }
    } else {
        tokens_acc(s, i + 1, cur.push(s[i]))
    }
}

/// The whitespace-delimited tokens of one line.
pub open spec fn line_tokens(s: Seq<u8>) -> Seq<Seq<u8>> {
    tokens_acc(s, 0, Seq::empty())
}

/// A copy of a byte string.
pub fn copy_bytes(s: &Vec<u8>) -> (r: Vec<u8>)
    ensures
        r@ == s@,
{
    let n = s.len();
    let mut r: Vec<u8> = Vec::new();
    let mut i: usize = 0;
    while i < n
        invariant
            i <= n,
            n == s@.len(),
            r@ == s@.take(i as int),
        decreases n - i,
    {
        r.push(s[i]);
        proof {
            assert(r@ =~= s@.take(i + 1));
        }
        i += 1;
    }
    proof {
        assert(s@.take(n as int) =~= s@);
    }
    r
}

/// Splits one line into its whitespace-delimited tokens.
pub fn tokenize(line: &Vec<u8>) -> (r: Vec<Vec<u8>>)
    ensures
        views_of(r@) == line_tokens(line@),
{
    let n = line.len();
    let mut toks: Vec<Vec<u8>> = Vec::new();
    let mut cur: Vec<u8> = Vec::new();
    let mut i: usize = 0;
    proof {
        assert(views_of(toks@) =~= Seq::<Seq<u8>>::empty());
        assert(views_of(toks@) + tokens_acc(line@, 0, cur@) =~= tokens_acc(line@, 0, cur@));
    }
    while i < n
        invariant
            i <= n,
            n == line@.len(),
            line_tokens(line@) == views_of(toks@) + tokens_acc(line@, i as int, cur@),
        decreases n - i,
    {
        let c = line[i];
        if c == 32 || c == 9 || c == 10 || c == 13 || c == 12 {
            if cur.len() > 0 {
                let ghost old_toks = toks@;
                let ghost tok = cur@;
                proof {
                    assert(tokens_acc(line@, i as int, tok) == seq![tok] + tokens_acc(
                        line@,
                        i + 1,
                        Seq::empty(),
                    ));
                }
                toks.push(cur);
                cur = Vec::new();
                proof {
                    assert(cur@ =~= Seq::<u8>::empty());
                    assert(views_of(toks@) =~= views_of(old_toks) + seq![tok]);
                    assert((views_of(old_toks) + seq![tok]) + tokens_acc(line@, i + 1, cur@)
                        =~= views_of(old_toks) + (seq![tok] + tokens_acc(line@, i + 1, cur@)));
                }
            } else {
                proof {
                    assert(cur@ =~= Seq::<u8>::empty());
                    assert(tokens_acc(line@, i as int, cur@) == tokens_acc(line@, i + 1, cur@));
                }
            }
        } else {
            cur.push(c);
        }
        i += 1;
    }
    if cur.len() > 0 {
        let ghost old_toks = toks@;
        let ghost tok = cur@;
        proof {
            assert(tokens_acc(line@, n as int, tok) == seq![tok]);
        }
        toks.push(cur);
        proof {
            assert(views_of(toks@) =~= views_of(old_toks) + seq![tok]);
        }
    } else {
        proof {
            assert(cur@ =~= Seq::<u8>::empty());
            assert(tokens_acc(line@, n as int, cur@) =~= Seq::<Seq<u8>>::empty());
        }
    }
    proof {
        assert(views_of(toks@) + Seq::<Seq<u8>>::empty() =~= views_of(toks@));
    }
    toks
}

} // verus!
