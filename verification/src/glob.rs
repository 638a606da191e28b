use vstd::prelude::*;
use vstd::string::StrSliceExecFns;

verus! {

/// Pattern language modeled for key enumeration: `*` matches any
/// (possibly empty) run of characters and `?` matches exactly one; every
/// other character, `[` and `\` included, only matches itself. The
/// server's bracket classes and escapes are not modeled: patterns using
/// them read differently here than on a real store.
pub open spec fn glob_matches(p: Seq<char>, s: Seq<char>) -> bool
    decreases p.len() + s.len(),
{
    if p.len() == 0 {
        s.len() == 0
    } else if p[0] == '*' {
        glob_matches(p.skip(1), s) || (s.len() > 0 && glob_matches(p, s.skip(1)))
    } else if s.len() == 0 {
        false
    } else {
        (p[0] == '?' || p[0] == s[0]) && glob_matches(p.skip(1), s.skip(1))
    }
}

fn glob_step(p: &str, s: &str, plen: usize, slen: usize, pi: usize, si: usize) -> (r: bool)
    requires
        plen == p@.len(),
        slen == s@.len(),
        pi <= plen,
        si <= slen,
    ensures
        r == glob_matches(p@.skip(pi as int), s@.skip(si as int)),
    decreases plen - pi + slen - si,
{
    proof {
        assert(p@.skip(pi as int).len() == plen - pi);
        assert(s@.skip(si as int).len() == slen - si);
    }
    if pi == plen {
        si == slen
    } else {
        let c = p.get_char(pi);
        proof {
            assert(p@.skip(pi as int)[0] == p@[pi as int]);
            assert(p@.skip(pi as int).skip(1) =~= p@.skip(pi as int + 1));
        }
        if c == '*' {
            if glob_step(p, s, plen, slen, pi + 1, si) {
                true
            } else if si < slen {
                proof {
                    assert(s@.skip(si as int).skip(1) =~= s@.skip(si as int + 1));
                }
                glob_step(p, s, plen, slen, pi, si + 1)
            } else {
                false
            }
        } else if si == slen {
            false
        } else {
            let sc = s.get_char(si);
            proof {
                assert(s@.skip(si as int)[0] == s@[si as int]);
                assert(s@.skip(si as int).skip(1) =~= s@.skip(si as int + 1));
            }
            if c == '?' || c == sc {
                glob_step(p, s, plen, slen, pi + 1, si + 1)
            } else {
                false
            }
        }
    }
}

/// Decides whether `text` matches the glob `pattern`.
pub fn glob_match(pattern: &str, text: &str) -> (r: bool)
    ensures
        r == glob_matches(pattern@, text@),
{
    let plen = pattern.unicode_len();
    let slen = text.unicode_len();
    let r = glob_step(pattern, text, plen, slen, 0, 0);
    proof {
        assert(pattern@.skip(0) =~= pattern@);
        assert(text@.skip(0) =~= text@);
    }
    r
}

} // verus!
