//! Splitting text into lines the way `str::lines` does.
use vstd::prelude::*;

verus! {

/// The pieces of `s` between `\n` characters (one more piece than there are
/// `\n`s).
pub open spec fn split_nl(s: Seq<char>) -> Seq<Seq<char>>
    decreases s.len(),
{
    if s.len() == 0 {
        seq![Seq::<char>::empty()]
    } else {
        let p = split_nl(s.drop_last());
        if s.last() == '\n' {
            p.push(Seq::<char>::empty())
        } else {
            p.update(p.len() - 1, p.last().push(s.last()))
        }
    }
}

/// `l` without one trailing `\r`.
pub open spec fn strip_cr(l: Seq<char>) -> Seq<char> {
    if l.len() > 0 && l.last() == '\r' {
        l.drop_last()
    } else {
        l
    }
}

/// The lines of `s` as `str::lines` gives them: split at `\n`, a `\r` just
/// before a `\n` dropped, and no empty line after a final `\n`.
pub open spec fn lines_spec(s: Seq<char>) -> Seq<Seq<char>> {
    let p = split_nl(s);
    let n = p.len() - 1;
    Seq::new(n as nat, |k: int| strip_cr(p[k])) + (if p[n].len() > 0 {
        seq![p[n]]
    } else {
        Seq::<Seq<char>>::empty()
    })
}

/// The views of a sequence of character vectors.
pub open spec fn char_seqs(v: Seq<Vec<char>>) -> Seq<Seq<char>> {
    v.map_values(|x: Vec<char>| x@)
}

proof fn lemma_split_nl_nonempty(s: Seq<char>)
    ensures
        split_nl(s).len() >= 1,
    decreases s.len(),
{
    if s.len() > 0 {
        lemma_split_nl_nonempty(s.drop_last());
    }
}

fn strip_cr_exec(l: Vec<char>) -> (r: Vec<char>)
    ensures
        r@ == strip_cr(l@),
{
    let mut l = l;
    if l.len() > 0 && l[l.len() - 1] == '\r' {
        l.pop();
    }
    l
}

/// The lines of `cs`: `lines_spec`.
pub fn split_lines(cs: &Vec<char>) -> (lines: Vec<Vec<char>>)
    ensures
        char_seqs(lines@) == lines_spec(cs@),
{
    let mut done: Vec<Vec<char>> = Vec::new();
    let mut cur: Vec<char> = Vec::new();
    proof {
        assert(cs@.subrange(0, 0) =~= Seq::<char>::empty());
    }
    for i in 0..cs.len()
        invariant
            split_nl(cs@.subrange(0, i as int)).len() == done@.len() + 1,
            forall|k: int| 0 <= k < done@.len() ==> (#[trigger] done@[k])@ == strip_cr(
                split_nl(cs@.subrange(0, i as int))[k],
            ),
            cur@ == split_nl(cs@.subrange(0, i as int)).last(),
    {
        let ghost prefix = cs@.subrange(0, i as int);
        let ghost next = cs@.subrange(0, i + 1);
        proof {
            assert(next.drop_last() =~= prefix);
            assert(next.last() == cs@[i as int]);
            lemma_split_nl_nonempty(prefix);
        }
        let c = cs[i];
        if c == '\n' {
            let mut finished: Vec<char> = Vec::new();
            std::mem::swap(&mut finished, &mut cur);
            done.push(strip_cr_exec(finished));
        } else {
            cur.push(c);
        }
    }
    let ghost p = split_nl(cs@);
    proof {
        assert(cs@.subrange(0, cs@.len() as int) == cs@);
    }
    let ghost n = done@.len();
    if cur.len() > 0 {
        done.push(cur);
    }
    assert(char_seqs(done@) =~= lines_spec(cs@));
    done
}

} // verus!
