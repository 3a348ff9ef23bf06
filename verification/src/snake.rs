//! `UPPER_SNAKE` names for environment variables, and what they keep of their input.
use vstd::prelude::*;

use crate::text::{ascii_upper, ascii_upper_exec, chars_of, is_ascii_alnum, is_ascii_alnum_exec, string_of};

verus! {

/// One left-to-right pass over `s`: ASCII alphanumerics are kept upper-cased,
/// each run of other characters after some output becomes one `'_'`.
/// The flag says whether the last thing emitted was a separator (or nothing yet).
pub open spec fn snake_scan(s: Seq<char>) -> (Seq<char>, bool)
    decreases s.len(),
{
    if s.len() == 0 {
        (seq![], true)
    } else {
        let prev = snake_scan(s.drop_last());
        let c = s.last();
        if is_ascii_alnum(c) {
            (prev.0.push(ascii_upper(c)), false)
        } else if !prev.1 {
            (prev.0.push('_'), true)
        } else {
            prev
        }
    }
}

/// `s` without its trailing underscores.
pub open spec fn trim_end_underscores(s: Seq<char>) -> Seq<char>
    decreases s.len(),
{
    if s.len() > 0 && s.last() == '_' {
        trim_end_underscores(s.drop_last())
    } else {
        s
    }
}

/// What `upper_snake` returns for the characters `s`.
pub open spec fn upper_snake_of(s: Seq<char>) -> Seq<char> {
    trim_end_underscores(snake_scan(s).0)
}

pub open spec fn is_upper_alnum(c: char) -> bool {
    ('A' <= c && c <= 'Z') || ('0' <= c && c <= '9')
}

/// Upper-case ASCII letters and digits in words joined by single underscores.
pub open spec fn is_upper_snake(t: Seq<char>) -> bool {
    &&& forall|k: int| 0 <= k < t.len() ==> is_upper_alnum(#[trigger] t[k]) || t[k] == '_'
    &&& t.len() > 0 ==> t[0] != '_' && t.last() != '_'
    &&& forall|k: int| 0 <= k < t.len() - 1 ==> !(#[trigger] t[k] == '_' && t[k + 1] == '_')
}

/// The ASCII alphanumerics of `s`, upper-cased, in order.
pub open spec fn upper_alnums(s: Seq<char>) -> Seq<char>
    decreases s.len(),
{
    if s.len() == 0 {
        seq![]
    } else if is_ascii_alnum(s.last()) {
        upper_alnums(s.drop_last()).push(ascii_upper(s.last()))
    } else {
        upper_alnums(s.drop_last())
    }
}

/// `t` with every underscore removed.
pub open spec fn without_underscores(t: Seq<char>) -> Seq<char>
    decreases t.len(),
{
    if t.len() == 0 {
        seq![]
    } else if t.last() == '_' {
        without_underscores(t.drop_last())
    } else {
        without_underscores(t.drop_last()).push(t.last())
    }
}

/// What the scan builds has the shape of an upper snake name, except that it
/// may end in one underscore, and its flag says whether it is empty or ends so.
proof fn lemma_scan_shape(s: Seq<char>)
    ensures
        ({
            let (o, sep) = snake_scan(s);
            &&& forall|k: int| 0 <= k < o.len() ==> is_upper_alnum(#[trigger] o[k]) || o[k] == '_'
            &&& o.len() > 0 ==> o[0] != '_'
            &&& forall|k: int| 0 <= k < o.len() - 1 ==> !(#[trigger] o[k] == '_' && o[k + 1] == '_')
            &&& sep == (o.len() == 0 || o.last() == '_')
        }),
    decreases s.len(),
{
    if s.len() > 0 {
        lemma_scan_shape(s.drop_last());
        let (p, psep) = snake_scan(s.drop_last());
        let (o, sep) = snake_scan(s);
        let c = s.last();
        if is_ascii_alnum(c) {
            assert(o == p.push(ascii_upper(c)));
            assert(is_upper_alnum(ascii_upper(c))) by {
                if 'a' <= c && c <= 'z' {
                    assert((c as u32) - 32 >= 'A' as u32);
                }
            }
            assert forall|k: int| 0 <= k < o.len() - 1 implies !(#[trigger] o[k] == '_' && o[k + 1] == '_') by {
                if k < p.len() - 1 {
                    assert(o[k] == p[k] && o[k + 1] == p[k + 1]);
                }
            }
        } else if !psep {
            assert(o == p.push('_'));
            assert forall|k: int| 0 <= k < o.len() - 1 implies !(#[trigger] o[k] == '_' && o[k + 1] == '_') by {
                if k < p.len() - 1 {
                    assert(o[k] == p[k] && o[k + 1] == p[k + 1]);
                } else {
                    assert(o[k] == p.last());
                }
            }
        }
    }
}

/// Trimming trailing underscores keeps a prefix, ending in no underscore.
proof fn lemma_trim_end_underscores(s: Seq<char>)
    ensures
        ({
            let t = trim_end_underscores(s);
            &&& t.len() <= s.len()
            &&& t == s.subrange(0, t.len() as int)
            &&& forall|k: int| t.len() <= k < s.len() ==> s[k] == '_'
            &&& t.len() > 0 ==> t.last() != '_'
            &&& without_underscores(t) == without_underscores(s)
        }),
    decreases s.len(),
{
    if s.len() > 0 && s.last() == '_' {
        lemma_trim_end_underscores(s.drop_last());
        let t = trim_end_underscores(s);
        assert(t == s.drop_last().subrange(0, t.len() as int));
        assert(t =~= s.subrange(0, t.len() as int));
        assert forall|k: int| t.len() <= k < s.len() implies s[k] == '_' by {
            if k < s.len() - 1 {
                assert(s.drop_last()[k] == s[k]);
            }
        }
    } else {
        assert(s.subrange(0, s.len() as int) =~= s);
    }
}

/// Law: the output of `upper_snake` is an upper snake name.
pub proof fn lemma_upper_snake_shape(s: Seq<char>)
    ensures
        is_upper_snake(upper_snake_of(s)),
{
    lemma_scan_shape(s);
    lemma_trim_end_underscores(snake_scan(s).0);
    let o = snake_scan(s).0;
    let t = upper_snake_of(s);
    assert forall|k: int| 0 <= k < t.len() implies is_upper_alnum(#[trigger] t[k]) || t[k] == '_' by {
        assert(t[k] == o[k]);
    }
    assert forall|k: int| 0 <= k < t.len() - 1 implies !(#[trigger] t[k] == '_' && t[k + 1] == '_') by {
        assert(t[k] == o[k] && t[k + 1] == o[k + 1]);
    }
    if t.len() > 0 {
        assert(t[0] == o[0]);
    }
}

/// Removing the separators from the scan leaves the upper-cased alphanumerics.
proof fn lemma_scan_letters(s: Seq<char>)
    ensures
        without_underscores(snake_scan(s).0) == upper_alnums(s),
    decreases s.len(),
{
    if s.len() > 0 {
        lemma_scan_letters(s.drop_last());
        let (p, psep) = snake_scan(s.drop_last());
        let c = s.last();
        if is_ascii_alnum(c) {
            let u = ascii_upper(c);
            assert(u != '_') by {
                if 'a' <= c && c <= 'z' {
                    assert((c as u32) - 32 >= 'A' as u32);
                }
            }
            assert(p.push(u).drop_last() =~= p);
        } else if !psep {
            assert(p.push('_').drop_last() =~= p);
        }
    }
}

/// Law: `upper_snake` keeps exactly the ASCII letters and digits of its input,
/// upper-cased and in order; everything else it drops or turns into separators.
pub proof fn lemma_upper_snake_letters(s: Seq<char>)
    ensures
        without_underscores(upper_snake_of(s)) == upper_alnums(s),
{
    lemma_scan_letters(s);
    lemma_trim_end_underscores(snake_scan(s).0);
}

/// Scanning an upper snake name gives it back unchanged.
proof fn lemma_scan_of_snake(t: Seq<char>)
    requires
        forall|k: int| 0 <= k < t.len() ==> is_upper_alnum(#[trigger] t[k]) || t[k] == '_',
        t.len() > 0 ==> t[0] != '_',
        forall|k: int| 0 <= k < t.len() - 1 ==> !(#[trigger] t[k] == '_' && t[k + 1] == '_'),
    ensures
        snake_scan(t) == (t, t.len() == 0 || t.last() == '_'),
    decreases t.len(),
{
    if t.len() > 0 {
        let p = t.drop_last();
        assert forall|k: int| 0 <= k < p.len() - 1 implies !(#[trigger] p[k] == '_' && p[k + 1] == '_') by {
            assert(p[k] == t[k] && p[k + 1] == t[k + 1]);
        }
        assert forall|k: int| 0 <= k < p.len() implies is_upper_alnum(#[trigger] p[k]) || p[k] == '_' by {
            assert(p[k] == t[k]);
        }
        if p.len() > 0 {
            assert(p[0] == t[0]);
        }
        lemma_scan_of_snake(p);
        let c = t.last();
        assert(is_upper_alnum(c) || c == '_');
        if c == '_' {
            if p.len() > 0 {
                assert(!(t[p.len() - 1] == '_' && t[p.len() as int] == '_'));
                assert(p.last() == t[p.len() - 1]);
            }
        }
        assert(p.push(c) =~= t);
    }
}

/// Law: `upper_snake` is idempotent; a name it produced comes back unchanged.
pub proof fn lemma_upper_snake_idempotent(s: Seq<char>)
    ensures
        upper_snake_of(upper_snake_of(s)) == upper_snake_of(s),
{
    let t = upper_snake_of(s);
    lemma_upper_snake_shape(s);
    lemma_scan_of_snake(t);
}

/// Upper-cases the ASCII letters and digits of `value` and joins each group of
/// them with a single underscore, dropping every other character.
pub fn upper_snake(value: &str) -> (r: String)
    ensures
        r@ == upper_snake_of(value@),
        is_upper_snake(r@),
{
    let v = chars_of(value);
    let mut out: Vec<char> = Vec::new();
    let mut previous_was_separator = true;
    let mut i: usize = 0;
    while i < v.len()
        invariant
            i <= v.len(),
            v@ == value@,
            (out@, previous_was_separator) == snake_scan(v@.take(i as int)),
        decreases v.len() - i,
    {
        let ch = v[i];
        assert(v@.take(i + 1).drop_last() =~= v@.take(i as int));
        if is_ascii_alnum_exec(ch) {
            out.push(ascii_upper_exec(ch));
            previous_was_separator = false;
        } else if !previous_was_separator {
            out.push('_');
            previous_was_separator = true;
        }
        i = i + 1;
    }
    assert(v@.take(v.len() as int) =~= v@);
    assert(out@.subrange(0, out.len() as int) =~= out@);
    let mut end = out.len();
    while end > 0 && out[end - 1] == '_'
        invariant
            end <= out.len(),
            trim_end_underscores(out@) == trim_end_underscores(out@.subrange(0, end as int)),
        decreases end,
    {
        assert(out@.subrange(0, end as int).drop_last() =~= out@.subrange(0, end - 1));
        end = end - 1;
    }
    proof {
        lemma_upper_snake_shape(value@);
    }
    string_of(&out, 0, end)
}

} // verus!
