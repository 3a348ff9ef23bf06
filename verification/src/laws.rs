//! Laws of the library: what reading a manifest gives back of one that was
//! written, which lines a manifest ignores, how settings default, how the
//! command line is read, and what the snippets hold.
use vstd::prelude::*;

use crate::cli::{parse_spec, scan_args, CliModel};
use crate::config::{
    compose_text, config_from_map, init_model, lemma_plain_no_newline, load_spec, manifest_header, plain_line,
    plain_manifest_text, plain_settings_text, settings_plain, ConfigModel,
};
use crate::manifest::{apply_line, lemma_first_index, line_key, line_value, parse_lines, parse_manifest_spec};
use crate::paths::{final_component, joined_path};
use crate::snake::upper_snake_of;
use crate::text::{first_index, is_space, lemma_trim_start_unfold, lines_of, strip_cr, trim, trim_end, trim_start};

verus! {

/// `v` between double quotes.
pub open spec fn quoted(v: Seq<char>) -> Seq<char> {
    seq!['"'] + v + seq!['"']
}

/// A manifest key as the writer spells it: no whitespace, `=`, `#` or newline.
pub open spec fn is_bare_key(k: Seq<char>) -> bool {
    &&& k.len() > 0
    &&& forall|i: int|
        0 <= i < k.len() ==> !is_space(#[trigger] k[i]) && k[i] != '=' && k[i] != '#' && k[i]
            != '\n'
}

pub open spec fn no_newline(v: Seq<char>) -> bool {
    forall|i: int| 0 <= i < v.len() ==> #[trigger] v[i] != '\n'
}

/// The map that the settings of `c` are written as.
pub open spec fn settings_map(c: ConfigModel) -> Map<Seq<char>, Seq<char>> {
    Map::empty().insert("container"@, c.container).insert("workspace_name"@, c.workspace_name).insert(
        "service_name"@,
        c.service_name,
    ).insert("image_repo"@, c.image_repo).insert("image_env_var"@, c.image_env_var).insert(
        "pin_file"@,
        c.pin_file,
    )
}

proof fn lemma_trim_unchanged(s: Seq<char>)
    requires
        s.len() > 0,
        !is_space(s[0]),
        !is_space(s.last()),
    ensures
        trim(s) == s,
{
    assert(trim_start(s) == s);
}

/// A line ending in `'\n'` with no other newline is the first of the lines.
proof fn lemma_lines_cons(a: Seq<char>, rest: Seq<char>)
    requires
        no_newline(a),
    ensures
        lines_of(a.push('\n') + rest) == seq![strip_cr(a)] + lines_of(rest),
{
    let s = a.push('\n') + rest;
    lemma_first_index(s, '\n', a.len() as int);
    assert(s.take(a.len() as int) =~= a);
    assert(s.skip(a.len() + 1 as int) =~= rest);
}

/// The line `k = "v"` sets `k` to `v`.
proof fn lemma_entry_line(m: Map<Seq<char>, Seq<char>>, n: nat, k: Seq<char>, v: Seq<char>)
    requires
        is_bare_key(k),
    ensures
        apply_line(m, n, k + " = "@ + quoted(v)) == Ok::<Map<Seq<char>, Seq<char>>, Seq<char>>(
            m.insert(k, v),
        ),
{
    reveal_strlit(" = ");
    let line = k + " = "@ + quoted(v);
    assert(line.last() == '"');
    assert(line[0] == k[0]);
    lemma_trim_unchanged(line);
    lemma_first_index(line, '=', k.len() + 1 as int);
    let kp = line.take(k.len() + 1 as int);
    assert(kp =~= k.push(' '));
    assert(kp.drop_last() =~= k);
    assert(is_space(' '));
    assert(trim_end(kp) == trim_end(k));
    lemma_trim_unchanged(k);
    assert(trim_start(kp) == kp);
    let vp = line.skip(k.len() + 2 as int);
    assert(vp =~= seq![' '] + quoted(v));
    assert(vp.drop_first() =~= quoted(v));
    assert(trim_start(vp) == trim_start(quoted(v)));
    lemma_trim_unchanged(quoted(v));
    assert(trim_start(quoted(v)) == quoted(v));
    assert(line_key(k + " = "@ + quoted(v)) == k);
    assert(line_value(k + " = "@ + quoted(v)) == quoted(v));
    assert(quoted(v).subrange(1, quoted(v).len() - 1) =~= v);
}

/// The line `k = "v"`, without its terminator.
pub open spec fn entry_line(k: Seq<char>, v: Seq<char>) -> Seq<char> {
    k + " = "@ + quoted(v)
}

/// The lines a manifest written for `c` consists of.
pub open spec fn manifest_lines(c: ConfigModel) -> Seq<Seq<char>> {
    seq![
        manifest_header().drop_last(),
        entry_line("container"@, c.container),
        entry_line("workspace_name"@, c.workspace_name),
        entry_line("service_name"@, c.service_name),
        entry_line("image_repo"@, c.image_repo),
        entry_line("image_env_var"@, c.image_env_var),
        entry_line("pin_file"@, c.pin_file),
    ]
}

/// The header is one comment line.
proof fn lemma_header_line(m: Map<Seq<char>, Seq<char>>)
    ensures
        manifest_header() == manifest_header().drop_last().push('\n'),
        no_newline(manifest_header().drop_last()),
        strip_cr(manifest_header().drop_last()) == manifest_header().drop_last(),
        apply_line(m, 1, manifest_header().drop_last()) == Ok::<
            Map<Seq<char>, Seq<char>>,
            Seq<char>,
        >(m),
{
    let header = manifest_header();
    reveal_strlit("# Managed by `devc init`. Commit this file with the repo.\n");
    let h0 = header.drop_last();
    assert(header =~= h0.push('\n'));
    assert(no_newline(h0)) by {
        assert forall|i: int| 0 <= i < h0.len() implies #[trigger] h0[i] != '\n' by {
            assert(h0[i] == header[i]);
        }
    }
    assert(h0[0] == '#' && h0.last() == '.');
    lemma_trim_unchanged(h0);
}

/// The settings, as text, are the six entry lines each with its terminator.
proof fn lemma_settings_concat(c: ConfigModel)
    requires
        settings_plain(c),
    ensures
        plain_settings_text(c) == entry_line("container"@, c.container).push('\n') + (entry_line(
            "workspace_name"@,
            c.workspace_name,
        ).push('\n') + (entry_line("service_name"@, c.service_name).push('\n') + (entry_line(
            "image_repo"@,
            c.image_repo,
        ).push('\n') + (entry_line("image_env_var"@, c.image_env_var).push('\n') + entry_line(
            "pin_file"@,
            c.pin_file,
        ).push('\n'))))),
{
    reveal_strlit("\n");
    assert(plain_line("container"@, c.container) =~= entry_line("container"@, c.container).push('\n'));
    assert(plain_line("workspace_name"@, c.workspace_name) =~= entry_line(
        "workspace_name"@,
        c.workspace_name,
    ).push('\n'));
    assert(plain_line("service_name"@, c.service_name) =~= entry_line(
        "service_name"@,
        c.service_name,
    ).push('\n'));
    assert(plain_line("image_repo"@, c.image_repo) =~= entry_line("image_repo"@, c.image_repo).push('\n'));
    assert(plain_line("image_env_var"@, c.image_env_var) =~= entry_line(
        "image_env_var"@,
        c.image_env_var,
    ).push('\n'));
    assert(plain_line("pin_file"@, c.pin_file) =~= entry_line("pin_file"@, c.pin_file).push('\n'));
    let l1 = plain_line("container"@, c.container);
    let l2 = plain_line("workspace_name"@, c.workspace_name);
    let l3 = plain_line("service_name"@, c.service_name);
    let l4 = plain_line("image_repo"@, c.image_repo);
    let l5 = plain_line("image_env_var"@, c.image_env_var);
    let l6 = plain_line("pin_file"@, c.pin_file);
    assert(l1 + l2 + l3 + l4 + l5 + l6 =~= l1 + (l2 + (l3 + (l4 + (l5 + l6)))));
}

/// The manifest text splits into the header and the six entry lines.
#[verifier::rlimit(30)]
proof fn lemma_manifest_lines(c: ConfigModel)
    requires
        settings_plain(c),
    ensures
        lines_of(plain_manifest_text(c)) == manifest_lines(c),
{
    lemma_header_line(Map::empty());
    let h0 = manifest_header().drop_last();
    lemma_key_literals();
    let e1 = entry_line("container"@, c.container);
    let e2 = entry_line("workspace_name"@, c.workspace_name);
    let e3 = entry_line("service_name"@, c.service_name);
    let e4 = entry_line("image_repo"@, c.image_repo);
    let e5 = entry_line("image_env_var"@, c.image_env_var);
    let e6 = entry_line("pin_file"@, c.pin_file);
    lemma_plain_no_newline(c.container);
    lemma_plain_no_newline(c.workspace_name);
    lemma_plain_no_newline(c.service_name);
    lemma_plain_no_newline(c.image_repo);
    lemma_plain_no_newline(c.image_env_var);
    lemma_plain_no_newline(c.pin_file);
    lemma_entry_text("container"@, c.container);
    lemma_entry_text("workspace_name"@, c.workspace_name);
    lemma_entry_text("service_name"@, c.service_name);
    lemma_entry_text("image_repo"@, c.image_repo);
    lemma_entry_text("image_env_var"@, c.image_env_var);
    lemma_entry_text("pin_file"@, c.pin_file);
    lemma_settings_concat(c);
    let r6 = e6.push('\n');
    let r5 = e5.push('\n') + r6;
    let r4 = e4.push('\n') + r5;
    let r3 = e3.push('\n') + r4;
    let r2 = e2.push('\n') + r3;
    let r1 = e1.push('\n') + r2;
    assert(plain_manifest_text(c) == h0.push('\n') + r1);
    assert(r6 =~= e6.push('\n') + Seq::<char>::empty());
    assert(lines_of(Seq::<char>::empty()) =~= Seq::<Seq<char>>::empty());
    lemma_lines_cons(e6, Seq::<char>::empty());
    lemma_lines_cons(e5, r6);
    lemma_lines_cons(e4, r5);
    lemma_lines_cons(e3, r4);
    lemma_lines_cons(e2, r3);
    lemma_lines_cons(e1, r2);
    lemma_lines_cons(h0, r1);
    assert(lines_of(plain_manifest_text(c)) =~= manifest_lines(c));
}

/// The lines of a written manifest read as its settings.
proof fn lemma_manifest_entries(c: ConfigModel)
    ensures
        parse_lines(manifest_lines(c)) == Ok::<Map<Seq<char>, Seq<char>>, Seq<char>>(
            settings_map(c),
        ),
{
    let ls = manifest_lines(c);
    lemma_key_literals();
    let m0 = Map::<Seq<char>, Seq<char>>::empty();
    lemma_header_line(m0);
    lemma_entry_line(m0, 2, "container"@, c.container);
    let m1 = m0.insert("container"@, c.container);
    lemma_entry_line(m1, 3, "workspace_name"@, c.workspace_name);
    let m2 = m1.insert("workspace_name"@, c.workspace_name);
    lemma_entry_line(m2, 4, "service_name"@, c.service_name);
    let m3 = m2.insert("service_name"@, c.service_name);
    lemma_entry_line(m3, 5, "image_repo"@, c.image_repo);
    let m4 = m3.insert("image_repo"@, c.image_repo);
    lemma_entry_line(m4, 6, "image_env_var"@, c.image_env_var);
    let m5 = m4.insert("image_env_var"@, c.image_env_var);
    lemma_entry_line(m5, 7, "pin_file"@, c.pin_file);
    assert(ls.take(0).len() == 0);
    assert(parse_lines(ls.take(0)) == Ok::<Map<Seq<char>, Seq<char>>, Seq<char>>(m0));
    assert(ls[0] == manifest_header().drop_last());
    assert(ls.take(1).drop_last() =~= ls.take(0));
    assert(ls.take(2).drop_last() =~= ls.take(1));
    assert(ls.take(3).drop_last() =~= ls.take(2));
    assert(ls.take(4).drop_last() =~= ls.take(3));
    assert(ls.take(5).drop_last() =~= ls.take(4));
    assert(ls.take(6).drop_last() =~= ls.take(5));
    assert(ls.drop_last() =~= ls.take(6));
    assert(ls.take(1).last() == ls[0]);
    assert(parse_lines(ls.take(1)) == Ok::<Map<Seq<char>, Seq<char>>, Seq<char>>(m0));
    assert(ls.take(2).last() == ls[1]);
    assert(parse_lines(ls.take(2)) == Ok::<Map<Seq<char>, Seq<char>>, Seq<char>>(m1));
    assert(ls.take(3).last() == ls[2]);
    assert(parse_lines(ls.take(3)) == Ok::<Map<Seq<char>, Seq<char>>, Seq<char>>(m2));
    assert(ls.take(4).last() == ls[3]);
    assert(parse_lines(ls.take(4)) == Ok::<Map<Seq<char>, Seq<char>>, Seq<char>>(m3));
    assert(ls.take(5).last() == ls[4]);
    assert(parse_lines(ls.take(5)) == Ok::<Map<Seq<char>, Seq<char>>, Seq<char>>(m4));
    assert(ls.take(6).last() == ls[5]);
    assert(parse_lines(ls.take(6)) == Ok::<Map<Seq<char>, Seq<char>>, Seq<char>>(m5));
    assert(ls.last() == ls[6]);
}

/// Law: a manifest written for `c`, whose settings are plain text (which
/// `Debug` leaves as it is between the quotes), reads back as exactly those
/// settings; and loading it from any path gives back `c` with that path.
pub proof fn lemma_manifest_round_trip(c: ConfigModel)
    requires
        settings_plain(c),
    ensures
        parse_manifest_spec(plain_manifest_text(c)) == Ok::<Map<Seq<char>, Seq<char>>, Seq<char>>(
            settings_map(c),
        ),
        forall|dir: Seq<char>, path: Seq<char>|
            load_spec(dir, Some((path, Ok(#[trigger] plain_manifest_text(c))))) == Ok::<
                ConfigModel,
                Seq<char>,
            >(ConfigModel { manifest_path: path, ..c }),
{
    lemma_manifest_lines(c);
    lemma_manifest_entries(c);
    lemma_key_literals();
    let m = settings_map(c);
    assert(m.contains_key("container"@) && m["container"@] == c.container);
    assert(m.contains_key("workspace_name"@) && m["workspace_name"@] == c.workspace_name);
    assert(m.contains_key("service_name"@) && m["service_name"@] == c.service_name);
    assert(m.contains_key("image_repo"@) && m["image_repo"@] == c.image_repo);
    assert(m.contains_key("image_env_var"@) && m["image_env_var"@] == c.image_env_var);
    assert(m.contains_key("pin_file"@) && m["pin_file"@] == c.pin_file);
    assert forall|dir: Seq<char>, path: Seq<char>|
        load_spec(dir, Some((path, Ok(#[trigger] plain_manifest_text(c))))) == Ok::<
            ConfigModel,
            Seq<char>,
        >(ConfigModel { manifest_path: path, ..c }) by {
        assert(config_from_map(path, m) == Ok::<ConfigModel, Seq<char>>(
            ConfigModel { manifest_path: path, ..c },
        ));
    }
}

/// The keys the writer uses are bare and pairwise different.
proof fn lemma_key_literals()
    ensures
        is_bare_key("container"@),
        is_bare_key("workspace_name"@),
        is_bare_key("service_name"@),
        is_bare_key("image_repo"@),
        is_bare_key("image_env_var"@),
        is_bare_key("pin_file"@),
        "container"@.len() == 9,
        "workspace_name"@.len() == 14,
        "service_name"@.len() == 12,
        "image_repo"@.len() == 10,
        "image_env_var"@.len() == 13,
        "pin_file"@.len() == 8,
{
    reveal_strlit("container");
    reveal_strlit("workspace_name");
    reveal_strlit("service_name");
    reveal_strlit("image_repo");
    reveal_strlit("image_env_var");
    reveal_strlit("pin_file");
}

/// The text of an entry line has no newline and does not end in `'\r'`.
proof fn lemma_entry_text(k: Seq<char>, v: Seq<char>)
    requires
        is_bare_key(k),
        no_newline(v),
    ensures
        no_newline(entry_line(k, v)),
        strip_cr(entry_line(k, v)) == entry_line(k, v),
{
    reveal_strlit(" = ");
    let e = k + " = "@ + quoted(v);
    assert forall|i: int| 0 <= i < e.len() implies #[trigger] e[i] != '\n' by {
        if i < k.len() {
            assert(e[i] == k[i]);
        } else if i < k.len() + 3 {
            assert(e[i] == " = "@[i - k.len()]);
        } else if i == k.len() + 3 {
            assert(e[i] == '"');
        } else if i < e.len() - 1 {
            assert(e[i] == v[i - k.len() - 4]);
        } else {
            assert(e[i] == '"');
        }
    }
    assert(e.last() == '"');
}

/// `first_index` points at the first match, or past the end when there is none.
proof fn lemma_first_index_facts(s: Seq<char>, c: char)
    ensures
        first_index(s, c) <= s.len(),
        forall|k: int| 0 <= k < first_index(s, c) ==> #[trigger] s[k] != c,
        first_index(s, c) < s.len() ==> s[first_index(s, c) as int] == c,
        (exists|k: int| 0 <= k < s.len() && s[k] == c) ==> first_index(s, c) < s.len(),
    decreases s.len(),
{
    if s.len() > 0 && s[0] != c {
        lemma_first_index_facts(s.drop_first(), c);
        assert forall|k: int| 0 <= k < first_index(s, c) implies #[trigger] s[k] != c by {
            if k > 0 {
                assert(s[k] == s.drop_first()[k - 1]);
            }
        }
        if exists|k: int| 0 <= k < s.len() && s[k] == c {
            let k = choose|k: int| 0 <= k < s.len() && s[k] == c;
            assert(s.drop_first()[k - 1] == c);
        }
    }
}

/// The lines of a text that ends at a line break are its lines followed by
/// those of what comes after.
pub proof fn lemma_lines_of_concat(a: Seq<char>, x: Seq<char>)
    requires
        a.len() == 0 || a.last() == '\n',
    ensures
        lines_of(a + x) == lines_of(a) + lines_of(x),
    decreases a.len(),
{
    if a.len() == 0 {
        assert(a + x =~= x);
        assert(lines_of(a) =~= Seq::<Seq<char>>::empty());
        assert(lines_of(a) + lines_of(x) =~= lines_of(x));
    } else {
        lemma_first_index_facts(a, '\n');
        assert(a[a.len() - 1] == '\n');
        let i = first_index(a, '\n') as int;
        assert(i < a.len());
        let s = a + x;
        assert forall|k: int| 0 <= k < i implies #[trigger] s[k] != '\n' by {
            assert(s[k] == a[k]);
        }
        lemma_first_index(s, '\n', i);
        assert(s.take(i) =~= a.take(i));
        let a2 = a.skip(i + 1);
        assert(s.skip(i + 1) =~= a2 + x);
        if a2.len() > 0 {
            assert(a2.last() == a.last());
        }
        lemma_lines_of_concat(a2, x);
        assert(lines_of(s) =~= lines_of(a) + lines_of(x));
    }
}

/// Two line numbers give the same outcome for a line, but for the number in an error.
pub open spec fn same_outcome(
    r1: Result<Map<Seq<char>, Seq<char>>, Seq<char>>,
    r2: Result<Map<Seq<char>, Seq<char>>, Seq<char>>,
) -> bool {
    &&& (r1 is Ok <==> r2 is Ok)
    &&& (r1 is Ok ==> r1 == r2)
}

/// Law: a line that is blank once trimmed, or starts with `#` once trimmed,
/// leaves the map as it is, whatever its number.
pub proof fn lemma_blank_and_comment_lines_ignored(
    m: Map<Seq<char>, Seq<char>>,
    n: nat,
    raw: Seq<char>,
)
    requires
        trim(raw).len() == 0 || trim(raw)[0] == '#',
    ensures
        apply_line(m, n, raw) == Ok::<Map<Seq<char>, Seq<char>>, Seq<char>>(m),
{
}

/// Every character of `w` is whitespace.
pub open spec fn all_space(w: Seq<char>) -> bool {
    forall|i: int| 0 <= i < w.len() ==> is_space(#[trigger] w[i])
}

proof fn lemma_all_space_trims_to_nothing(w: Seq<char>)
    requires
        all_space(w),
    ensures
        trim(w).len() == 0,
{
    lemma_trim_start_unfold(w, w.len() as int);
    assert(w.subrange(w.len() as int, w.len() as int) =~= Seq::<char>::empty());
}

/// Inserting a line whose every line outcome leaves the map unchanged keeps
/// whether the lines read, and the map they give.
proof fn lemma_parse_lines_skip(l1: Seq<Seq<char>>, x: Seq<char>, l2: Seq<Seq<char>>)
    requires
        forall|m: Map<Seq<char>, Seq<char>>, n: nat|
            #[trigger] apply_line(m, n, x) == Ok::<Map<Seq<char>, Seq<char>>, Seq<char>>(m),
    ensures
        same_outcome(parse_lines(l1.push(x) + l2), parse_lines(l1 + l2)),
    decreases l2.len(),
{
    if l2.len() == 0 {
        assert(l1.push(x) + l2 =~= l1.push(x));
        assert(l1 + l2 =~= l1);
        assert(l1.push(x).drop_last() =~= l1);
        if let Ok(m) = parse_lines(l1) {
            assert(apply_line(m, l1.push(x).len(), x) == Ok::<Map<Seq<char>, Seq<char>>, Seq<char>>(m));
        }
    } else {
        let l2p = l2.drop_last();
        lemma_parse_lines_skip(l1, x, l2p);
        let big = l1.push(x) + l2;
        let small = l1 + l2;
        assert(big.drop_last() =~= l1.push(x) + l2p);
        assert(small.drop_last() =~= l1 + l2p);
        assert(big.last() == l2.last());
        assert(small.last() == l2.last());
    }
}

/// Law: a whitespace-only line anywhere in a manifest changes nothing: the
/// text with it reads exactly when the text without it does, to the same map.
pub proof fn lemma_whitespace_line_changes_nothing(a: Seq<char>, w: Seq<char>, b: Seq<char>)
    requires
        a.len() == 0 || a.last() == '\n',
        all_space(w),
        no_newline(w),
    ensures
        parse_manifest_spec(a + w.push('\n') + b) is Ok <==> parse_manifest_spec(a + b) is Ok,
        parse_manifest_spec(a + b) is Ok ==> parse_manifest_spec(a + w.push('\n') + b)
            == parse_manifest_spec(a + b),
{
    assert(a + w.push('\n') + b =~= a + (w.push('\n') + b));
    lemma_lines_of_concat(a, w.push('\n') + b);
    lemma_lines_of_concat(a, b);
    lemma_lines_cons(w, b);
    let x = strip_cr(w);
    assert(all_space(x)) by {
        assert forall|i: int| 0 <= i < x.len() implies is_space(#[trigger] x[i]) by {
            assert(x[i] == w[i]);
        }
    }
    lemma_all_space_trims_to_nothing(x);
    assert forall|m: Map<Seq<char>, Seq<char>>, n: nat|
        #[trigger] apply_line(m, n, x) == Ok::<Map<Seq<char>, Seq<char>>, Seq<char>>(m) by {
        lemma_blank_and_comment_lines_ignored(m, n, x);
    }
    let l1 = lines_of(a);
    let l2 = lines_of(b);
    lemma_parse_lines_skip(l1, x, l2);
    assert(lines_of(a + w.push('\n') + b) =~= l1.push(x) + l2);
    assert(lines_of(a + b) == l1 + l2);
}

/// Law: loading a manifest that reads as `m` takes `container` and
/// `workspace_name` from it, and each other setting from its own key when
/// present, else from that setting's default; without `container` or
/// `workspace_name` it fails, naming the key.
pub proof fn lemma_load_settings(dir: Seq<char>, path: Seq<char>, text: Seq<char>)
    ensures
        ({
            let r = load_spec(dir, Some((path, Ok(text))));
            match parse_manifest_spec(text) {
                Err(e) => r == Err::<ConfigModel, Seq<char>>(e),
                Ok(m) => {
                    &&& !m.contains_key("container"@) ==> r == Err::<ConfigModel, Seq<char>>(
                        "missing required key `container`"@,
                    )
                    &&& m.contains_key("container"@) && !m.contains_key("workspace_name"@) ==> r
                        == Err::<ConfigModel, Seq<char>>("missing required key `workspace_name`"@)
                    &&& m.contains_key("container"@) && m.contains_key("workspace_name"@) ==> {
                        &&& r is Ok
                        &&& r->Ok_0.manifest_path == path
                        &&& r->Ok_0.container == m["container"@]
                        &&& r->Ok_0.workspace_name == m["workspace_name"@]
                        &&& m.contains_key("service_name"@) ==> r->Ok_0.service_name
                            == m["service_name"@]
                        &&& !m.contains_key("service_name"@) ==> r->Ok_0.service_name == "agent"@
                        &&& m.contains_key("image_repo"@) ==> r->Ok_0.image_repo == m["image_repo"@]
                        &&& !m.contains_key("image_repo"@) ==> r->Ok_0.image_repo
                            == "ghcr.io/geoff-hill/"@ + m["container"@] + "-devcontainer"@
                        &&& m.contains_key("image_env_var"@) ==> r->Ok_0.image_env_var
                            == m["image_env_var"@]
                        &&& !m.contains_key("image_env_var"@) ==> r->Ok_0.image_env_var
                            == upper_snake_of(m["container"@]) + "_IMAGE"@
                        &&& m.contains_key("pin_file"@) ==> r->Ok_0.pin_file == m["pin_file"@]
                        &&& !m.contains_key("pin_file"@) ==> r->Ok_0.pin_file
                            == ".devc.local.env"@
                    }
                },
            }
        }),
{
}

/// Law: `init` takes the container, service and, when given, the workspace
/// and repository from the command line; without `--image-repo` the
/// repository is the published image of that same container; without
/// `--workspace-name` the workspace is the directory's final component, or
/// `workspace` when it has none.
pub proof fn lemma_init_settings(dir: Seq<char>, cli: CliModel)
    ensures
        ({
            let c = init_model(dir, cli);
            &&& c.manifest_path == joined_path(dir, "devc.toml"@)
            &&& c.container == cli.container
            &&& c.service_name == cli.service_name
            &&& cli.image_repo matches Some(r) ==> c.image_repo == r
            &&& cli.image_repo is None ==> c.image_repo == "ghcr.io/geoff-hill/"@ + c.container
                + "-devcontainer"@
            &&& cli.workspace_name matches Some(w) ==> c.workspace_name == w
            &&& cli.workspace_name is None && (final_component(dir) matches Some(n) && n.len() > 0)
                ==> Some(c.workspace_name) == final_component(dir)
            &&& cli.workspace_name is None && !(final_component(dir) matches Some(n) && n.len()
                > 0) ==> c.workspace_name == "workspace"@
            &&& c.image_env_var == upper_snake_of(c.container) + "_IMAGE"@
            &&& c.pin_file == ".devc.local.env"@
        }),
{
}

/// Law: after command-line arguments that leave no flag waiting for its
/// value, `--help` or `-h` makes the command `help`, `--version` or `-V`
/// makes it `version`, and nothing else changes.
pub proof fn lemma_help_and_version_flags(
    c: CliModel,
    args: Seq<Option<Seq<char>>>,
    cur: CliModel,
)
    requires
        scan_args(c, args) == Ok::<(CliModel, Option<Seq<char>>), Seq<char>>((cur, None)),
    ensures
        scan_args(c, args.push(Some("--help"@))) == Ok::<
            (CliModel, Option<Seq<char>>),
            Seq<char>,
        >((CliModel { command: "help"@, ..cur }, None)),
        scan_args(c, args.push(Some("-h"@))) == Ok::<(CliModel, Option<Seq<char>>), Seq<char>>(
            (CliModel { command: "help"@, ..cur }, None),
        ),
        scan_args(c, args.push(Some("--version"@))) == Ok::<
            (CliModel, Option<Seq<char>>),
            Seq<char>,
        >((CliModel { command: "version"@, ..cur }, None)),
        scan_args(c, args.push(Some("-V"@))) == Ok::<(CliModel, Option<Seq<char>>), Seq<char>>(
            (CliModel { command: "version"@, ..cur }, None),
        ),
{
    lemma_flag_literals();
    assert(args.push(Some("--help"@)).drop_last() =~= args);
    assert(args.push(Some("-h"@)).drop_last() =~= args);
    assert(args.push(Some("--version"@)).drop_last() =~= args);
    assert(args.push(Some("-V"@)).drop_last() =~= args);
}

/// The command-line words differ from one another.
proof fn lemma_flag_literals()
    ensures
        "--help"@.len() == 6,
        "-h"@.len() == 2,
        "--version"@.len() == 9,
        "-V"@.len() == 2,
        "-h"@ != "-V"@,
        "--project-dir"@.len() == 13,
        "--container"@.len() == 11,
        "--workspace-name"@.len() == 16,
        "--service-name"@.len() == 14,
        "--image-repo"@.len() == 12,
{
    reveal_strlit("--help");
    reveal_strlit("-h");
    reveal_strlit("--version");
    reveal_strlit("-V");
    reveal_strlit("--project-dir");
    reveal_strlit("--container");
    reveal_strlit("--workspace-name");
    reveal_strlit("--service-name");
    reveal_strlit("--image-repo");
    assert("-h"@[1] != "-V"@[1]);
}

/// Law: a command line that reads as `c`, followed by `--help` or `-h`, reads
/// as `c` with the command `help`; followed by `--version` or `-V`, as `c` with
/// the command `version`; followed by a value flag and a value, as `c` with that
/// setting; and a value flag with nothing after it is missing its value.
pub proof fn lemma_trailing_arguments(
    args: Seq<Option<Seq<char>>>,
    cwd: Result<Seq<char>, Seq<char>>,
    c: CliModel,
    v: Seq<char>,
)
    requires
        parse_spec(args, cwd) == Ok::<CliModel, Seq<char>>(c),
    ensures
        parse_spec(args.push(Some("--help"@)), cwd) == Ok::<CliModel, Seq<char>>(
            CliModel { command: "help"@, ..c },
        ),
        parse_spec(args.push(Some("-h"@)), cwd) == Ok::<CliModel, Seq<char>>(
            CliModel { command: "help"@, ..c },
        ),
        parse_spec(args.push(Some("--version"@)), cwd) == Ok::<CliModel, Seq<char>>(
            CliModel { command: "version"@, ..c },
        ),
        parse_spec(args.push(Some("-V"@)), cwd) == Ok::<CliModel, Seq<char>>(
            CliModel { command: "version"@, ..c },
        ),
        parse_spec(args.push(Some("--project-dir"@)).push(Some(v)), cwd) == Ok::<
            CliModel,
            Seq<char>,
        >(CliModel { project_dir: v, ..c }),
        parse_spec(args.push(Some("--container"@)).push(Some(v)), cwd) == Ok::<
            CliModel,
            Seq<char>,
        >(CliModel { container: v, ..c }),
        parse_spec(args.push(Some("--workspace-name"@)).push(Some(v)), cwd) == Ok::<
            CliModel,
            Seq<char>,
        >(CliModel { workspace_name: Some(v), ..c }),
        parse_spec(args.push(Some("--service-name"@)).push(Some(v)), cwd) == Ok::<
            CliModel,
            Seq<char>,
        >(CliModel { service_name: v, ..c }),
        parse_spec(args.push(Some("--image-repo"@)).push(Some(v)), cwd) == Ok::<
            CliModel,
            Seq<char>,
        >(CliModel { image_repo: Some(v), ..c }),
        parse_spec(args.push(Some("--image-repo"@)), cwd) == Err::<CliModel, Seq<char>>(
            "missing value for `"@ + "--image-repo"@ + "`"@,
        ),
{
    lemma_flag_literals();
    let command = args[1]->Some_0;
    let dir = cwd->Ok_0;
    let start = crate::cli::initial_cli(command, dir);
    let rest = args.skip(2);
    lemma_help_and_version_flags(start, rest, c);
    assert(args.push(Some("--help"@)).skip(2) =~= rest.push(Some("--help"@)));
    assert(args.push(Some("-h"@)).skip(2) =~= rest.push(Some("-h"@)));
    assert(args.push(Some("--version"@)).skip(2) =~= rest.push(Some("--version"@)));
    assert(args.push(Some("-V"@)).skip(2) =~= rest.push(Some("-V"@)));
    lemma_value_flag(start, rest, c, "--project-dir"@, v);
    lemma_value_flag(start, rest, c, "--container"@, v);
    lemma_value_flag(start, rest, c, "--workspace-name"@, v);
    lemma_value_flag(start, rest, c, "--service-name"@, v);
    lemma_value_flag(start, rest, c, "--image-repo"@, v);
    assert(args.push(Some("--project-dir"@)).push(Some(v)).skip(2) =~= rest.push(
        Some("--project-dir"@),
    ).push(Some(v)));
    assert(args.push(Some("--container"@)).push(Some(v)).skip(2) =~= rest.push(
        Some("--container"@),
    ).push(Some(v)));
    assert(args.push(Some("--workspace-name"@)).push(Some(v)).skip(2) =~= rest.push(
        Some("--workspace-name"@),
    ).push(Some(v)));
    assert(args.push(Some("--service-name"@)).push(Some(v)).skip(2) =~= rest.push(
        Some("--service-name"@),
    ).push(Some(v)));
    assert(args.push(Some("--image-repo"@)).push(Some(v)).skip(2) =~= rest.push(
        Some("--image-repo"@),
    ).push(Some(v)));
    assert(args.push(Some("--image-repo"@)).skip(2) =~= rest.push(Some("--image-repo"@)));
}

/// A value flag waits for its value, and the value then sets the flag's setting.
proof fn lemma_value_flag(
    c: CliModel,
    args: Seq<Option<Seq<char>>>,
    cur: CliModel,
    flag: Seq<char>,
    v: Seq<char>,
)
    requires
        scan_args(c, args) == Ok::<(CliModel, Option<Seq<char>>), Seq<char>>((cur, None)),
        crate::cli::is_value_flag(flag),
    ensures
        scan_args(c, args.push(Some(flag))) == Ok::<(CliModel, Option<Seq<char>>), Seq<char>>(
            (cur, Some(flag)),
        ),
        scan_args(c, args.push(Some(flag)).push(Some(v))) == (match crate::cli::flag_update(
            cur,
            flag,
            v,
        ) {
            Ok(n) => Ok::<(CliModel, Option<Seq<char>>), Seq<char>>((n, None)),
            Err(e) => Err(e),
        }),
{
    assert(args.push(Some(flag)).drop_last() =~= args);
    assert(args.push(Some(flag)).push(Some(v)).drop_last() =~= args.push(Some(flag)));
}

/// `t` holds `needle` starting at `i`.
pub open spec fn occurs_at(t: Seq<char>, needle: Seq<char>, i: int) -> bool {
    0 <= i && i + needle.len() <= t.len() && t.subrange(i, i + needle.len()) == needle
}

/// `t` ends with `suffix`.
pub open spec fn ends_with(t: Seq<char>, suffix: Seq<char>) -> bool {
    suffix.len() <= t.len() && t.subrange(t.len() - suffix.len(), t.len() as int) == suffix
}

proof fn lemma_window(
    x: Seq<char>,
    b0: Seq<char>,
    p: Seq<char>,
    s: Seq<char>,
    q: Seq<char>,
    c1: Seq<char>,
    rest: Seq<char>,
)
    ensures
        occurs_at(x + (b0 + p) + s + (q + c1) + rest, p + s + q, x.len() + b0.len() as int),
{
    let t = x + (b0 + p) + s + (q + c1) + rest;
    let i = x.len() + b0.len() as int;
    assert(t.subrange(i, i + (p + s + q).len() as int) =~= p + s + q);
}

proof fn lemma_tail(y: Seq<char>, c0: Seq<char>, v: Seq<char>, s: Seq<char>, d: Seq<char>)
    ensures
        ends_with(y + (c0 + v) + s + d, v + s + d),
{
    let t = y + (c0 + v) + s + d;
    assert(t.subrange(t.len() - (v + s + d).len(), t.len() as int) =~= v + s + d);
}

/// Law: the compose snippet mounts the named volume `<service>-home` at
/// `/home/agent` and declares that same volume at its end, and it names the
/// image by the pin variable with the repository's `latest` as fallback.
pub proof fn lemma_compose_volume_declared(
    service: Seq<char>,
    env_var: Seq<char>,
    repo: Seq<char>,
    workspace: Seq<char>,
)
    ensures
        exists|i: int|
            occurs_at(
                compose_text(service, env_var, repo, workspace),
                "- "@ + service + "-home:/home/agent:rw"@,
                i,
            ),
        ends_with(
            compose_text(service, env_var, repo, workspace),
            "volumes:\n  "@ + service + "-home:\n"@,
        ),
        exists|i: int|
            occurs_at(
                compose_text(service, env_var, repo, workspace),
                "image: ${"@ + env_var + ":-"@ + repo + ":latest}"@,
                i,
            ),
{
    reveal_strlit(":rw\n      - ");
    reveal_strlit("- ");
    reveal_strlit("-home:/home/agent:rw\n\nvolumes:\n  ");
    reveal_strlit("-home:/home/agent:rw");
    reveal_strlit("volumes:\n  ");
    let t = compose_text(service, env_var, repo, workspace);
    let b = ":rw\n      - "@;
    let b0 = b.subrange(0, b.len() - 2);
    assert(b =~= b0 + "- "@);
    let c = "-home:/home/agent:rw\n\nvolumes:\n  "@;
    let c1 = c.subrange(20, c.len() as int);
    assert(c =~= "-home:/home/agent:rw"@ + c1);
    let c0 = c.subrange(0, c.len() - 11);
    assert(c =~= c0 + "volumes:\n  "@);
    let x = "  "@ + service + ":\n    image: ${"@ + env_var + ":-"@ + repo
        + ":latest}\n    command: sleep infinity\n    working_dir: /workspaces/"@ + workspace
        + crate::config::COMPOSE_MIDDLE@ + workspace;
    let d = "-home:\n"@;
    assert(t == x + b + service + c + service + d);
    lemma_window(x, b0, "- "@, service, "-home:/home/agent:rw"@, c1, service + d);
    assert(x + (b0 + "- "@) + service + ("-home:/home/agent:rw"@ + c1) + (service + d) =~= t);
    let y = x + b + service;
    lemma_tail(y, c0, "volumes:\n  "@, service, d);
    assert(y + (c0 + "volumes:\n  "@) + service + d =~= t);
    lemma_image_line(service, env_var, repo, workspace);
}

proof fn lemma_image_line(service: Seq<char>, env_var: Seq<char>, repo: Seq<char>, workspace: Seq<char>)
    ensures
        exists|i: int|
            occurs_at(
                compose_text(service, env_var, repo, workspace),
                "image: ${"@ + env_var + ":-"@ + repo + ":latest}"@,
                i,
            ),
{
    reveal_strlit(":\n    image: ${");
    reveal_strlit("image: ${");
    reveal_strlit(":latest}\n    command: sleep infinity\n    working_dir: /workspaces/");
    reveal_strlit(":latest}");
    let t = compose_text(service, env_var, repo, workspace);
    let a = ":\n    image: ${"@;
    let a0 = a.subrange(0, a.len() - 9);
    assert(a =~= a0 + "image: ${"@);
    let l = ":latest}\n    command: sleep infinity\n    working_dir: /workspaces/"@;
    let l1 = l.subrange(8, l.len() as int);
    assert(l =~= ":latest}"@ + l1);
    let x = "  "@ + service;
    let rest = workspace + crate::config::COMPOSE_MIDDLE@ + workspace + ":rw\n      - "@ + service
        + "-home:/home/agent:rw\n\nvolumes:\n  "@ + service + "-home:\n"@;
    let s = env_var + ":-"@ + repo;
    lemma_window(x, a0, "image: ${"@, s, ":latest}"@, l1, rest);
    assert(x + (a0 + "image: ${"@) + s + (":latest}"@ + l1) + rest =~= t);
    assert("image: ${"@ + s + ":latest}"@ =~= "image: ${"@ + env_var + ":-"@ + repo + ":latest}"@);
    let i = x.len() + a0.len() as int;
    assert(occurs_at(t, "image: ${"@ + env_var + ":-"@ + repo + ":latest}"@, i));
}

} // verus!
