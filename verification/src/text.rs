use vstd::prelude::*;

verus! {

use vstd::string::StrSliceExecFns;

/// Relies on std's String::push: appends the given character to the end of the string.
pub assume_specification[ String::push ](s: &mut String, ch: char)
    ensures
        final(s)@ == old(s)@.push(ch),
;

/// The term with every space turned into an underscore, all other characters kept.
pub open spec fn underscored(s: Seq<char>) -> Seq<char> {
    s.map_values(|c: char| if c == ' ' { '_' } else { c })
}

/// Every space is replaced with an underscore; other characters and their order
/// are untouched.
pub proof fn lemma_underscored_spaces(s: Seq<char>)
    ensures
        underscored(s).len() == s.len(),
        forall|i: int| 0 <= i < s.len() && s[i] == ' ' ==> underscored(s)[i] == '_',
        forall|i: int| 0 <= i < s.len() && s[i] != ' ' ==> underscored(s)[i] == s[i],
{
}

pub fn replace_spaces(term: &str) -> (r: String)
    ensures
        r@ == underscored(term@),
{
    let n = term.unicode_len();
    let mut out = String::new();
    let mut i: usize = 0;
    while i < n
        invariant
            n == term@.len(),
            i <= n,
            out@ == underscored(term@).take(i as int),
        decreases n - i,
    {
        let c = term.get_char(i);
        if c == ' ' {
            out.push('_');
        } else {
            out.push(c);
        }
        i = i + 1;
        proof {
            assert(out@ =~= underscored(term@).take(i as int));
        }
    }
    proof {
        assert(underscored(term@).take(n as int) =~= underscored(term@));
    }
    out
}

pub(crate) fn to_chars(s: &str) -> (v: Vec<char>)
    ensures
        v@ == s@,
{
    let n = s.unicode_len();
    let mut v: Vec<char> = Vec::new();
    let mut i: usize = 0;
    while i < n
        invariant
            n == s@.len(),
            i <= n,
            v@ == s@.take(i as int),
        decreases n - i,
    {
        v.push(s.get_char(i));
        i = i + 1;
        proof {
            assert(v@ =~= s@.take(i as int));
        }
    }
    proof {
        assert(s@.take(n as int) =~= s@);
    }
    v
}

fn from_chars(v: &Vec<char>) -> (r: String)
    ensures
        r@ == v@,
{
    let mut out = String::new();
    let mut i: usize = 0;
    while i < v.len()
        invariant
            i <= v@.len(),
            out@ == v@.take(i as int),
        decreases v@.len() - i,
    {
        out.push(v[i]);
        i = i + 1;
        proof {
            assert(out@ =~= v@.take(i as int));
        }
    }
    proof {
        assert(v@.take(v@.len() as int) =~= v@);
    }
    out
}

/// The string with every non-overlapping occurrence of `pat` removed, scanning
/// left to right; an empty pattern removes nothing.
pub open spec fn remove_all(s: Seq<char>, pat: Seq<char>) -> Seq<char>
    decreases s.len(),
{
    if pat.len() == 0 || s.len() < pat.len() {
        s
    } else if s.take(pat.len() as int) == pat {
        remove_all(s.skip(pat.len() as int), pat)
    } else {
        seq![s[0]] + remove_all(s.skip(1), pat)
    }
}

fn prefix_eq_at(sc: &Vec<char>, i: usize, pc: &Vec<char>) -> (b: bool)
    requires
        i as int + pc@.len() <= sc@.len(),
    ensures
        b == (sc@.subrange(i as int, i as int + pc@.len() as int) == pc@),
{
    let n = sc.len();
    let mut j: usize = 0;
    while j < pc.len()
        invariant
            j <= pc@.len(),
            i as int + pc@.len() <= sc@.len(),
            sc@.len() == n,
            forall|k: int| 0 <= k < j ==> sc@[i as int + k] == pc@[k],
        decreases pc@.len() - j,
    {
        if sc[i + j] != pc[j] {
            proof {
                assert(sc@.subrange(i as int, i as int + pc@.len() as int)[j as int]
                    == sc@[i as int + j as int]);
            }
            return false;
        }
        j = j + 1;
    }
    proof {
        assert(sc@.subrange(i as int, i as int + pc@.len() as int) =~= pc@);
    }
    true
}

pub fn remove_substr(s: &str, pat: &str) -> (r: String)
    ensures
        r@ == remove_all(s@, pat@),
{
    let sc = to_chars(s);
    let pc = to_chars(pat);
    if pc.len() == 0 {
        return from_chars(&sc);
    }
    let mut out: Vec<char> = Vec::new();
    let mut i: usize = 0;
    proof {
        assert(s@.skip(0) =~= s@);
        assert(Seq::<char>::empty() + remove_all(s@, pat@) =~= remove_all(s@, pat@));
    }
    while i < sc.len()
        invariant
            sc@ == s@,
            pc@ == pat@,
            pc@.len() >= 1,
            i <= sc@.len(),
            remove_all(s@, pat@) == out@ + remove_all(s@.skip(i as int), pat@),
        decreases sc@.len() - i,
    {
        let tail_long_enough = pc.len() <= sc.len() - i;
        let matched = if tail_long_enough {
            prefix_eq_at(&sc, i, &pc)
        } else {
            false
        };
        if matched {
            proof {
                assert(s@.skip(i as int).take(pc@.len() as int)
                    =~= s@.subrange(i as int, i as int + pc@.len() as int));
                assert(s@.skip(i as int).skip(pc@.len() as int)
                    =~= s@.skip(i as int + pc@.len() as int));
            }
            i = i + pc.len();
        } else {
            let c = sc[i];
            proof {
                let tail = s@.skip(i as int);
                if pc@.len() <= s@.len() - i as int {
                    assert(tail.take(pc@.len() as int)
                        =~= s@.subrange(i as int, i as int + pc@.len() as int));
                    assert(tail.take(pc@.len() as int) != pat@);
                } else {
                    assert(tail.len() < pat@.len());
                }
                assert(tail[0] == s@[i as int]);
                assert(tail.skip(1) =~= s@.skip(i as int + 1));
                assert(remove_all(tail, pat@) == seq![s@[i as int]] + remove_all(
                    s@.skip(i as int + 1),
                    pat@,
                ));
                assert(out@.push(s@[i as int]) + remove_all(s@.skip(i as int + 1), pat@) =~= out@
                    + remove_all(tail, pat@));
            }
            out.push(c);
            i = i + 1;
        }
    }
    proof {
        assert(s@.skip(s@.len() as int) =~= Seq::<char>::empty());
        assert(remove_all(Seq::<char>::empty(), pat@) =~= Seq::<char>::empty());
        assert(out@ + Seq::<char>::empty() =~= out@);
    }
    from_chars(&out)
}

} // verus!
