//! The `devc.toml` format: `key = "value"` lines, blank lines and `#` comments.
use vstd::prelude::*;

use crate::text::{
    chars_of, decimal, decimal_string, first_index, lines_of, strip_cr, string_of, trim,
    trim_bounds,
};

verus! {

/// The map that a list of key/value pairs gives when later pairs win.
pub open spec fn map_of(e: Seq<(Seq<char>, Seq<char>)>) -> Map<Seq<char>, Seq<char>>
    decreases e.len(),
{
    if e.len() == 0 {
        Map::empty()
    } else {
        map_of(e.drop_last()).insert(e.last().0, e.last().1)
    }
}

pub open spec fn keys_distinct(e: Seq<(Seq<char>, Seq<char>)>) -> bool {
    forall|i: int, j: int| 0 <= i < j < e.len() ==> #[trigger] e[i].0 != #[trigger] e[j].0
}

proof fn lemma_map_of_lookup(e: Seq<(Seq<char>, Seq<char>)>, k: Seq<char>)
    requires
        keys_distinct(e),
    ensures
        map_of(e).contains_key(k) <==> exists|i: int| 0 <= i < e.len() && #[trigger] e[i].0 == k,
        forall|i: int| 0 <= i < e.len() && #[trigger] e[i].0 == k ==> map_of(e)[k] == e[i].1,
    decreases e.len(),
{
    if e.len() > 0 {
        let p = e.drop_last();
        assert(keys_distinct(p)) by {
            assert forall|i: int, j: int| 0 <= i < j < p.len() implies #[trigger] p[i].0 != #[trigger] p[j].0 by {
                assert(p[i] == e[i] && p[j] == e[j]);
            }
        }
        lemma_map_of_lookup(p, k);
        if map_of(p).contains_key(k) {
            let w = choose|i: int| 0 <= i < p.len() && #[trigger] p[i].0 == k;
            assert(e[w].0 == k);
        }
        assert forall|i: int| 0 <= i < e.len() && #[trigger] e[i].0 == k implies map_of(e)[k] == e[i].1 by {
            if i < e.len() - 1 {
                assert(p[i] == e[i]);
                assert(e[i].0 != e[e.len() - 1].0);
            }
        }
        if exists|i: int| 0 <= i < e.len() && #[trigger] e[i].0 == k {
            let w = choose|i: int| 0 <= i < e.len() && #[trigger] e[i].0 == k;
            if w < e.len() - 1 {
                assert(p[w] == e[w]);
            }
        }
    }
}

proof fn lemma_map_of_update(e: Seq<(Seq<char>, Seq<char>)>, j: int, v: Seq<char>)
    requires
        keys_distinct(e),
        0 <= j < e.len(),
    ensures
        map_of(e.update(j, (e[j].0, v))) == map_of(e).insert(e[j].0, v),
        keys_distinct(e.update(j, (e[j].0, v))),
    decreases e.len(),
{
    let k = e[j].0;
    let u = e.update(j, (k, v));
    let p = e.drop_last();
    assert(keys_distinct(u)) by {
        assert forall|a: int, b: int| 0 <= a < b < u.len() implies #[trigger] u[a].0 != #[trigger] u[b].0 by {
            assert(u[a].0 == e[a].0 && u[b].0 == e[b].0);
        }
    }
    if j == e.len() - 1 {
        assert(u.drop_last() =~= p);
        assert(map_of(u) =~= map_of(e).insert(k, v));
    } else {
        assert(keys_distinct(p)) by {
            assert forall|a: int, b: int| 0 <= a < b < p.len() implies #[trigger] p[a].0 != #[trigger] p[b].0 by {
                assert(p[a] == e[a] && p[b] == e[b]);
            }
        }
        lemma_map_of_update(p, j, v);
        assert(u.drop_last() =~= p.update(j, (k, v)));
        assert(e.last().0 != k);
        assert(u.last() == e.last());
        assert(map_of(u) =~= map_of(e).insert(k, v));
    }
}

/// The key/value pairs of a manifest; each key occurs once.
pub struct Manifest {
    entries: Vec<(String, String)>,
}

impl Manifest {
    pub closed spec fn pairs(&self) -> Seq<(Seq<char>, Seq<char>)> {
        self.entries@.map_values(|p: (String, String)| (p.0@, p.1@))
    }

    #[verifier::type_invariant]
    closed spec fn keys_unique(&self) -> bool {
        keys_distinct(self.pairs())
    }

    pub fn new() -> (r: Manifest)
        ensures
            r@ == Map::<Seq<char>, Seq<char>>::empty(),
    {
        let r = Manifest { entries: Vec::new() };
        assert(r.pairs() =~= Seq::<(Seq<char>, Seq<char>)>::empty());
        r
    }

    /// Sets `key` to `value`, replacing what it held.
    pub fn insert(&mut self, key: String, value: String)
        ensures
            final(self)@ == old(self)@.insert(key@, value@),
    {
        proof {
            use_type_invariant(&*self);
        }
        let ghost e = self.pairs();
        let mut entries: Vec<(String, String)> = Vec::new();
        std::mem::swap(&mut entries, &mut self.entries);
        assert(entries@.map_values(|p: (String, String)| (p.0@, p.1@)) == e);
        let mut i: usize = 0;
        while i < entries.len()
            invariant
                i <= entries.len(),
                e == entries@.map_values(|p: (String, String)| (p.0@, p.1@)),
                keys_distinct(e),
                old(self)@ == map_of(e),
                forall|a: int| 0 <= a < i ==> (#[trigger] e[a]).0 != key@,
            decreases entries.len() - i,
        {
            assert(e[i as int] == (entries@[i as int].0@, entries@[i as int].1@));
            if entries[i].0 == key {
                proof {
                    lemma_map_of_update(e, i as int, value@);
                }
                entries.set(i, (key, value));
                assert(entries@.map_values(|p: (String, String)| (p.0@, p.1@)) =~= e.update(
                    i as int,
                    (e[i as int].0, value@),
                ));
                self.entries = entries;
                return;
            }
            i = i + 1;
        }
        entries.push((key, value));
        let ghost q = entries@.map_values(|p: (String, String)| (p.0@, p.1@));
        assert(q =~= e.push((key@, value@)));
        assert(q.drop_last() =~= e);
        assert(keys_distinct(q)) by {
            assert forall|a: int, b: int| 0 <= a < b < q.len() implies #[trigger] q[a].0
                != #[trigger] q[b].0 by {
                if b < e.len() {
                    assert(q[a] == e[a] && q[b] == e[b]);
                } else {
                    assert(q[a] == e[a]);
                }
            }
        }
        self.entries = entries;
    }

    /// The value held by `key`, if any.
    pub fn get(&self, key: &str) -> (r: Option<String>)
        ensures
            r is Some <==> self@.contains_key(key@),
            r matches Some(v) ==> v@ == self@[key@],
    {
        proof {
            use_type_invariant(self);
            lemma_map_of_lookup(self.pairs(), key@);
        }
        let ghost e = self.pairs();
        let ghost found = self@.contains_key(key@);
        let k = key.to_owned();
        let mut i: usize = 0;
        while i < self.entries.len()
            invariant
                i <= self.entries.len(),
                e == self.pairs(),
                k@ == key@,
                keys_distinct(e),
                self@ == map_of(e),
                forall|a: int| 0 <= a < i ==> (#[trigger] e[a]).0 != key@,
                found == self@.contains_key(key@),
                found <==> exists|a: int| 0 <= a < e.len() && #[trigger] e[a].0 == key@,
            decreases self.entries.len() - i,
        {
            assert(e[i as int] == (self.entries@[i as int].0@, self.entries@[i as int].1@));
            if self.entries[i].0 == k {
                proof {
                    assert(e[i as int].0 == key@);
                    lemma_map_of_lookup(e, key@);
                }
                return Some(self.entries[i].1.clone());
            }
            i = i + 1;
        }
        None
    }
}

impl View for Manifest {
    type V = Map<Seq<char>, Seq<char>>;

    closed spec fn view(&self) -> Map<Seq<char>, Seq<char>> {
        map_of(self.pairs())
    }
}

/// The error for a line with no `=`; `number` counts from one.
pub open spec fn invalid_line_message(number: nat, raw: Seq<char>) -> Seq<char> {
    "invalid manifest line "@ + decimal(number) + ": `"@ + raw + "`"@
}

/// The error for a value that is not in double quotes.
pub open spec fn unquoted_value_message(raw: Seq<char>) -> Seq<char> {
    "manifest values must be double-quoted strings: `"@ + raw + "`"@
}

/// Whether a line, once trimmed, is blank or a `#` comment.
pub open spec fn is_ignored_line(raw: Seq<char>) -> bool {
    trim(raw).len() == 0 || trim(raw)[0] == '#'
}

/// The trimmed text before the first `=` of the trimmed line.
pub open spec fn line_key(raw: Seq<char>) -> Seq<char> {
    let line = trim(raw);
    trim(line.take(first_index(line, '=') as int))
}

/// The trimmed text after the first `=` of the trimmed line.
pub open spec fn line_value(raw: Seq<char>) -> Seq<char> {
    let line = trim(raw);
    trim(line.skip(first_index(line, '=') + 1 as int))
}

pub open spec fn is_quoted(v: Seq<char>) -> bool {
    v.len() >= 2 && v[0] == '"' && v.last() == '"'
}

/// What one line does to the map read so far; `number` is its line number.
pub open spec fn apply_line(m: Map<Seq<char>, Seq<char>>, number: nat, raw: Seq<char>) -> Result<
    Map<Seq<char>, Seq<char>>,
    Seq<char>,
> {
    if is_ignored_line(raw) {
        Ok(m)
    } else if first_index(trim(raw), '=') >= trim(raw).len() {
        Err(invalid_line_message(number, raw))
    } else if !is_quoted(line_value(raw)) {
        Err(unquoted_value_message(raw))
    } else {
        let v = line_value(raw);
        Ok(m.insert(line_key(raw), v.subrange(1, v.len() - 1)))
    }
}

/// The map that the lines `ls` give, or the error of the first bad line.
pub open spec fn parse_lines(ls: Seq<Seq<char>>) -> Result<Map<Seq<char>, Seq<char>>, Seq<char>>
    decreases ls.len(),
{
    if ls.len() == 0 {
        Ok(Map::empty())
    } else {
        match parse_lines(ls.drop_last()) {
            Ok(m) => apply_line(m, ls.len(), ls.last()),
            Err(e) => Err(e),
        }
    }
}

/// What `parse_manifest` gives for the text `contents`.
pub open spec fn parse_manifest_spec(contents: Seq<char>) -> Result<
    Map<Seq<char>, Seq<char>>,
    Seq<char>,
> {
    parse_lines(lines_of(contents))
}

/// Once a prefix of the lines fails, so do all the lines, with its error.
proof fn lemma_parse_lines_error(ls: Seq<Seq<char>>, n: int)
    requires
        0 <= n <= ls.len(),
        parse_lines(ls.take(n)) is Err,
    ensures
        parse_lines(ls) == parse_lines(ls.take(n)),
    decreases ls.len() - n,
{
    if n < ls.len() {
        assert(ls.take(n + 1).drop_last() =~= ls.take(n));
        lemma_parse_lines_error(ls, n + 1);
    } else {
        assert(ls.take(n) =~= ls);
    }
}

/// `first_index` is the position of the first match.
pub proof fn lemma_first_index(s: Seq<char>, c: char, m: int)
    requires
        0 <= m <= s.len(),
        forall|k: int| 0 <= k < m ==> #[trigger] s[k] != c,
        m < s.len() ==> s[m] == c,
    ensures
        first_index(s, c) == m,
    decreases m,
{
    if m > 0 {
        lemma_first_index(s.drop_first(), c, m - 1);
    }
}

/// Position of the first `c` in `s[lo..hi]`, or `hi`.
fn find_char(s: &Vec<char>, lo: usize, hi: usize, c: char) -> (r: usize)
    requires
        lo <= hi <= s.len(),
    ensures
        lo <= r <= hi,
        first_index(s@.subrange(lo as int, hi as int), c) == r - lo,
        r < hi ==> s@[r as int] == c,
{
    let mut j = lo;
    while j < hi && s[j] != c
        invariant
            lo <= j <= hi <= s.len(),
            forall|k: int| lo <= k < j ==> #[trigger] s@[k] != c,
        decreases hi - j,
    {
        j = j + 1;
    }
    proof {
        let t = s@.subrange(lo as int, hi as int);
        assert forall|k: int| 0 <= k < j - lo implies #[trigger] t[k] != c by {
            assert(t[k] == s@[lo + k]);
        }
        lemma_first_index(t, c, j - lo);
    }
    j
}

/// The next line of `s` from `pos`: the end of its text, and where the line after starts.
fn next_line(s: &Vec<char>, pos: usize) -> (r: (usize, usize))
    requires
        pos < s.len(),
    ensures
        pos <= r.0 <= r.1 <= s.len(),
        pos < r.1,
        lines_of(s@.skip(pos as int)) == seq![s@.subrange(pos as int, r.0 as int)] + lines_of(
            s@.skip(r.1 as int),
        ),
{
    let n = s.len();
    let j = find_char(s, pos, n, '\n');
    let ghost t = s@.skip(pos as int);
    assert(t =~= s@.subrange(pos as int, n as int));
    if j < n {
        let end = if j > pos && s[j - 1] == '\r' {
            j - 1
        } else {
            j
        };
        assert(t.take(j - pos) =~= s@.subrange(pos as int, j as int));
        assert(t.skip(j - pos + 1) =~= s@.skip(j + 1));
        assert(strip_cr(t.take(j - pos)) =~= s@.subrange(pos as int, end as int));
        (end, j + 1)
    } else {
        assert(s@.skip(n as int) =~= Seq::<char>::empty());
        assert(lines_of(s@.skip(n as int)) =~= Seq::<Seq<char>>::empty());
        assert(seq![t] + lines_of(s@.skip(n as int)) =~= seq![t]);
        (n, n)
    }
}

/// Reads `key = "value"` lines. Blank lines and lines starting with `#` are
/// skipped; keys and values are trimmed and a value's quotes removed; a later
/// line for a key overrides an earlier one. A line without `=`, or whose value
/// is not in double quotes, is an error.
pub fn parse_manifest(contents: &str) -> (r: Result<Manifest, String>)
    ensures
        parse_manifest_spec(contents@) == (match r {
            Ok(m) => Ok(m@),
            Err(e) => Err(e@),
        }),
{
    let v = chars_of(contents);
    let ghost all = lines_of(v@);
    let mut values = Manifest::new();
    let mut pos: usize = 0;
    let mut count: usize = 0;
    assert(v@.skip(0) =~= v@);
    assert(all.take(0) =~= Seq::<Seq<char>>::empty());
    while pos < v.len()
        invariant
            v@ == contents@,
            all == lines_of(v@),
            pos <= v.len(),
            count <= pos,
            count <= all.len(),
            all == all.take(count as int) + lines_of(v@.skip(pos as int)),
            parse_lines(all.take(count as int)) == Ok::<Map<Seq<char>, Seq<char>>, Seq<char>>(
                values@,
            ),
        decreases v.len() - pos,
    {
        let (hi, next) = next_line(&v, pos);
        let ghost raw = v@.subrange(pos as int, hi as int);
        assert(all[count as int] == raw);
        assert(all.take(count + 1) =~= all.take(count as int).push(raw));
        assert(all.take(count + 1) + lines_of(v@.skip(next as int)) =~= all);
        assert(all.take(count + 1).drop_last() =~= all.take(count as int));
        let number = count + 1;
        let (a, b) = trim_bounds(&v, pos, hi);
        if a == b || v[a] == '#' {
            // blank or comment: nothing to record
        } else {
            let e = find_char(&v, a, b, '=');
            assert(v@.subrange(a as int, b as int).take(e - a) =~= v@.subrange(a as int, e as int));
            if e == b {
                let mut msg = String::new();
                msg.append("invalid manifest line ");
                let digits = decimal_string(number);
                msg.append(digits.as_str());
                msg.append(": `");
                let raw_line = string_of(&v, pos, hi);
                msg.append(raw_line.as_str());
                msg.append("`");
                proof {
                    lemma_parse_lines_error(all, count + 1);
                }
                return Err(msg);
            }
            assert(v@.subrange(a as int, b as int).skip(e - a + 1) =~= v@.subrange(
                e + 1,
                b as int,
            ));
            let (ka, kb) = trim_bounds(&v, a, e);
            let (va, vb) = trim_bounds(&v, e + 1, b);
            if !(vb - va >= 2 && v[va] == '"' && v[vb - 1] == '"') {
                let mut msg = String::new();
                msg.append("manifest values must be double-quoted strings: `");
                let raw_line = string_of(&v, pos, hi);
                msg.append(raw_line.as_str());
                msg.append("`");
                proof {
                    lemma_parse_lines_error(all, count + 1);
                }
                return Err(msg);
            }
            let key = string_of(&v, ka, kb);
            let value = string_of(&v, va + 1, vb - 1);
            assert(v@.subrange(va as int, vb as int).subrange(1, vb - va - 1) =~= v@.subrange(
                va + 1,
                vb - 1,
            ));
            values.insert(key, value);
        }
        count = number;
        pos = next;
    }
    assert(v@.skip(pos as int) =~= Seq::<char>::empty());
    assert(lines_of(v@.skip(pos as int)) =~= Seq::<Seq<char>>::empty());
    assert(all.take(count as int) =~= all);
    Ok(values)
}

} // verus!
