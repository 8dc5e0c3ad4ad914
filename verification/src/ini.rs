//! The section-structured configuration text format: named `[section]`
//! headers followed by `key = value` lines, with blank lines and `;`/`#`
//! comments skipped. A parsed document is the flat sequence of
//! (section, key, value) entries in textual order; a later entry for the
//! same section and key overrides an earlier one, which makes merging two
//! documents plain concatenation.

use vstd::prelude::*;

use crate::text::{find_char, first_at, str_eq, trim, trim_str};

verus! {

/// Mathematical model of one `key = value` entry under a `[section]` header.
pub struct EntryModel {
    pub section: Seq<char>,
    pub key: Seq<char>,
    pub value: Seq<char>,
}

/// One `key = value` entry under a `[section]` header.
#[derive(Debug)]
pub struct IniEntry {
    pub section: String,
    pub key: String,
    pub value: String,
}

impl View for IniEntry {
    type V = EntryModel;

    open spec fn view(&self) -> EntryModel {
        EntryModel { section: self.section@, key: self.key@, value: self.value@ }
    }
}

pub open spec fn entries_view(es: Seq<IniEntry>) -> Seq<EntryModel> {
    Seq::new(es.len(), |i: int| es[i]@)
}

/// A parsed document: entries in textual order.
#[derive(Debug)]
pub struct IniDoc {
    pub entries: Vec<IniEntry>,
}

impl View for IniDoc {
    type V = Seq<EntryModel>;

    open spec fn view(&self) -> Seq<EntryModel> {
        entries_view(self.entries@)
    }
}

/// What one line of the format means.
pub enum LineKind {
    /// Blank, or a `;`/`#` comment.
    Skip,
    /// `[section]`: the name that subsequent entries fall under.
    Header(Seq<char>),
    /// `key = value`.
    Pair(Seq<char>, Seq<char>),
    /// Not part of the format.
    Bad,
}

/// The raw lines of `s`, split at each line feed.
pub open spec fn split_lines(s: Seq<char>) -> Seq<Seq<char>>
    decreases s.len(),
{
    if s.len() == 0 {
        Seq::empty()
    } else {
        let e = first_at(s, '\n');
        if 0 <= e < s.len() {
            seq![s.take(e)] + split_lines(s.skip(e + 1))
        } else {
            seq![s]
        }
    }
}

/// The meaning of one raw line: whitespace is trimmed; a blank or comment
/// line is skipped; `[name]` opens a section; otherwise the line must hold a
/// `=` with a non-empty key before it.
pub open spec fn classify_line(line: Seq<char>) -> LineKind {
    let t = trim(line);
    if t.len() == 0 {
        LineKind::Skip
    } else if t[0] == ';' || t[0] == '#' {
        LineKind::Skip
    } else if t[0] == '[' {
        if t.len() >= 2 && t[t.len() - 1] == ']' {
            LineKind::Header(trim(t.subrange(1, t.len() - 1)))
        } else {
            LineKind::Bad
        }
    } else {
        let e = first_at(t, '=');
        if 0 < e < t.len() {
            LineKind::Pair(trim(t.take(e)), trim(t.skip(e + 1)))
        } else {
            LineKind::Bad
        }
    }
}

/// Folds the lines into entries. `cur` is the section in force (entries
/// before any header fall under the empty name); a bad line fails the parse.
pub open spec fn parse_lines(
    lines: Seq<Seq<char>>,
    cur: Seq<char>,
    acc: Seq<EntryModel>,
) -> Option<Seq<EntryModel>>
    decreases lines.len(),
{
    if lines.len() == 0 {
        Some(acc)
    } else {
        match classify_line(lines[0]) {
            LineKind::Skip => parse_lines(lines.drop_first(), cur, acc),
            LineKind::Header(n) => parse_lines(lines.drop_first(), n, acc),
            LineKind::Pair(k, v) => parse_lines(
                lines.drop_first(),
                cur,
                acc.push(EntryModel { section: cur, key: k, value: v }),
            ),
            LineKind::Bad => None,
        }
    }
}

/// The meaning of a whole configuration text.
pub open spec fn parse_ini(s: Seq<char>) -> Option<Seq<EntryModel>> {
    parse_lines(split_lines(s), Seq::empty(), Seq::empty())
}

/// The value of `key` under `[section]`: the last matching entry wins.
pub open spec fn lookup(es: Seq<EntryModel>, section: Seq<char>, key: Seq<char>) -> Option<
    Seq<char>,
>
    decreases es.len(),
{
    if es.len() == 0 {
        None
    } else if es.last().section == section && es.last().key == key {
        Some(es.last().value)
    } else {
        lookup(es.drop_last(), section, key)
    }
}

/// A parsed line, as the parser's executable code sees it.
pub enum ParsedLine {
    Skip,
    Header(String),
    Pair(String, String),
    Bad,
}

impl View for ParsedLine {
    type V = LineKind;

    open spec fn view(&self) -> LineKind {
        match self {
            ParsedLine::Skip => LineKind::Skip,
            ParsedLine::Header(n) => LineKind::Header(n@),
            ParsedLine::Pair(k, v) => LineKind::Pair(k@, v@),
            ParsedLine::Bad => LineKind::Bad,
        }
    }
}

/// Classifies one raw line, matching `classify_line`.
pub fn classify(line: &str) -> (r: ParsedLine)
    ensures
        r@ == classify_line(line@),
{
    let t = trim_str(line);
    let n = t.unicode_len();
    if n == 0 {
        return ParsedLine::Skip;
    }
    let c0 = t.get_char(0);
    if c0 == ';' || c0 == '#' {
        return ParsedLine::Skip;
    }
    if c0 == '[' {
        if n >= 2 && t.get_char(n - 1) == ']' {
            let inner = t.substring_char(1, n - 1);
            proof {
                assert(inner@ =~= t@.subrange(1, t@.len() - 1));
            }
            let name = trim_str(inner);
            return ParsedLine::Header(String::from_str(name));
        }
        return ParsedLine::Bad;
    }
    let e = find_char(t, '=');
    if e == 0 || e >= n {
        return ParsedLine::Bad;
    }
    let rawk = t.substring_char(0, e);
    let rawv = t.substring_char(e + 1, n);
    proof {
        assert(rawk@ =~= t@.take(e as int));
        assert(rawv@ =~= t@.skip(e + 1));
    }
    let key = trim_str(rawk);
    let value = trim_str(rawv);
    ParsedLine::Pair(String::from_str(key), String::from_str(value))
}

pub open spec fn strs_view(l: Seq<String>) -> Seq<Seq<char>> {
    Seq::new(l.len(), |i: int| l[i]@)
}

/// Splits `s` into its raw lines, matching `split_lines`.
fn split_to_lines(s: &str) -> (lines: Vec<String>)
    ensures
        strs_view(lines@) == split_lines(s@),
{
    let n = s.unicode_len();
    let mut lines: Vec<String> = Vec::new();
    let mut pos: usize = 0;
    proof {
        assert(s@.skip(0) =~= s@);
        assert(strs_view(lines@) =~= Seq::<Seq<char>>::empty());
        assert(strs_view(lines@) + split_lines(s@.skip(0)) =~= split_lines(s@));
    }
    while pos < n
        invariant
            n == s@.len(),
            pos <= n,
            split_lines(s@) =~= strs_view(lines@) + split_lines(s@.skip(pos as int)),
        decreases n - pos,
    {
        let mut j: usize = pos;
        while j < n && s.get_char(j) != '\n'
            invariant
                n == s@.len(),
                pos <= j <= n,
                forall|k: int| pos <= k < j ==> s@[k] != '\n',
            decreases n - j,
        {
            j = j + 1;
        }
        proof {
            let rest = s@.skip(pos as int);
            assert(forall|k: int| 0 <= k < j - pos ==> rest[k] == s@[k + pos]);
            if j < n {
                assert(rest[j - pos] == s@[j as int]);
            }
            crate::text::lemma_first_at(rest, '\n', j - pos);
        }
        let line = s.substring_char(pos, j);
        let ghost old_lines = lines@;
        lines.push(String::from_str(line));
        proof {
            let rest = s@.skip(pos as int);
            assert(line@ =~= s@.subrange(pos as int, j as int));
            assert(strs_view(lines@) =~= strs_view(old_lines) + seq![line@]);
            if j < n {
                assert(rest.take(j - pos) =~= line@);
                assert(rest.skip(j - pos + 1) =~= s@.skip(j + 1));
                assert(split_lines(rest) =~= seq![line@] + split_lines(s@.skip(j + 1)));
            } else {
                assert(rest =~= line@);
                assert(first_at(rest, '\n') == rest.len());
                assert(split_lines(rest) =~= seq![line@]);
                assert(s@.skip(n as int).len() == 0);
                assert(split_lines(s@.skip(n as int)) =~= Seq::<Seq<char>>::empty());
            }
        }
        if j < n {
            pos = j + 1;
        } else {
            pos = n;
        }
    }
    proof {
        assert(s@.skip(n as int).len() == 0);
        assert(split_lines(s@) =~= strs_view(lines@));
    }
    lines
}

/// Parses a configuration text, matching `parse_ini`: `Some` exactly when
/// every line is blank, a comment, a header or a `key = value` pair, and
/// then the document holds those entries in textual order.
pub fn parse_ini_str(s: &str) -> (r: Option<IniDoc>)
    ensures
        r is Some <==> parse_ini(s@) is Some,
        r is Some ==> r->Some_0@ == parse_ini(s@)->Some_0,
{
    let lines = split_to_lines(s);
    let ghost lv = strs_view(lines@);
    let mut cur: String = String::new();
    let mut entries: Vec<IniEntry> = Vec::new();
    let mut i: usize = 0;
    proof {
        assert(lv.skip(0) =~= lv);
        assert(entries_view(entries@) =~= Seq::<EntryModel>::empty());
    }
    while i < lines.len()
        invariant
            lv == strs_view(lines@),
            lv == split_lines(s@),
            i <= lines@.len(),
            parse_ini(s@) == parse_lines(lv.skip(i as int), cur@, entries_view(entries@)),
        decreases lines@.len() - i,
    {
        let pl = classify(lines[i].as_str());
        proof {
            assert(lv.skip(i as int)[0] == lv[i as int]);
            assert(lv[i as int] == lines@[i as int]@);
            assert(lv.skip(i as int).drop_first() =~= lv.skip(i + 1));
        }
        match pl {
            ParsedLine::Skip => {},
            ParsedLine::Header(name) => {
                cur = name;
            },
            ParsedLine::Pair(k, v) => {
                let ghost old_entries = entries@;
                let e = IniEntry { section: cur.clone(), key: k, value: v };
                entries.push(e);
                proof {
                    assert(entries_view(entries@) =~= entries_view(old_entries).push(e@));
                }
            },
            ParsedLine::Bad => {
                return None;
            },
        }
        i = i + 1;
    }
    proof {
        assert(lv.skip(lines@.len() as int).len() == 0);
    }
    Some(IniDoc { entries })
}

impl IniDoc {
    /// The value of `key` under `[section]`, the last matching entry winning.
    pub fn get(&self, section: &str, key: &str) -> (r: Option<String>)
        ensures
            r is Some <==> lookup(self@, section@, key@) is Some,
            r is Some ==> r->Some_0@ == lookup(self@, section@, key@)->Some_0,
    {
        let mut i: usize = self.entries.len();
        proof {
            assert(self@.take(self.entries@.len() as int) =~= self@);
        }
        while i > 0
            invariant
                i <= self.entries@.len(),
                lookup(self@, section@, key@) == lookup(
                    self@.take(i as int),
                    section@,
                    key@,
                ),
            decreases i,
        {
            let e = &self.entries[i - 1];
            proof {
                assert(self@.take(i as int).last() == self@[i - 1]);
                assert(self@.take(i as int).drop_last() =~= self@.take(i - 1));
            }
            if str_eq(e.section.as_str(), section) && str_eq(e.key.as_str(), key) {
                return Some(e.value.clone());
            }
            i = i - 1;
        }
        proof {
            assert(self@.take(0).len() == 0);
        }
        None
    }

    /// Lays `user` over `main`: the concatenation, so that `user`'s entries
    /// override `main`'s wherever both give a value to the same section and
    /// key.
    pub fn merge(main: IniDoc, user: IniDoc) -> (r: IniDoc)
        ensures
            r@ == main@ + user@,
    {
        let mut entries = main.entries;
        let ghost main_entries = entries@;
        let mut rest = user.entries;
        entries.append(&mut rest);
        let r = IniDoc { entries };
        proof {
            assert(r@ =~= entries_view(main_entries) + entries_view(user.entries@));
        }
        r
    }
}

/// Override-wins: in a merged document, a section/key that the overlay
/// defines resolves to the overlay's value, and one it does not define
/// resolves to the base document's value.
pub proof fn lemma_override_wins(
    base: Seq<EntryModel>,
    overlay: Seq<EntryModel>,
    section: Seq<char>,
    key: Seq<char>,
)
    ensures
        lookup(base + overlay, section, key) == if lookup(overlay, section, key) is Some {
            lookup(overlay, section, key)
        } else {
            lookup(base, section, key)
        },
    decreases overlay.len(),
{
    if overlay.len() == 0 {
        assert(base + overlay =~= base);
    } else {
        let all = base + overlay;
        assert(all.last() == overlay.last());
        assert(all.drop_last() =~= base + overlay.drop_last());
        lemma_override_wins(base, overlay.drop_last(), section, key);
    }
}

// Rendering a document back to text, and why the text parses back to the
// same document.

pub open spec fn no_newline(s: Seq<char>) -> bool {
    forall|j: int| 0 <= j < s.len() ==> s[j] != '\n'
}

/// A key the format can carry on one line and recover: non-empty, its edges
/// not whitespace, not opening a comment or a header, and free of `=` and
/// line feeds.
pub open spec fn wf_key(k: Seq<char>) -> bool {
    &&& k.len() > 0
    &&& !crate::text::is_space(k[0])
    &&& !crate::text::is_space(k.last())
    &&& k[0] != ';'
    &&& k[0] != '#'
    &&& k[0] != '['
    &&& forall|j: int| 0 <= j < k.len() ==> k[j] != '=' && k[j] != '\n'
}

/// A value the format can carry and recover: its edges not whitespace (so
/// trimming gives it back), and free of line feeds.
pub open spec fn wf_value(v: Seq<char>) -> bool {
    &&& v.len() == 0 || (!crate::text::is_space(v[0]) && !crate::text::is_space(v.last()))
    &&& no_newline(v)
}

/// A section name the format can recover: its edges not whitespace, free of
/// line feeds.
pub open spec fn wf_name(n: Seq<char>) -> bool {
    &&& n.len() == 0 || (!crate::text::is_space(n[0]) && !crate::text::is_space(n.last()))
    &&& no_newline(n)
}

pub open spec fn kv_line(k: Seq<char>, v: Seq<char>) -> Seq<char> {
    k + seq!['='] + v
}

pub open spec fn header_line(name: Seq<char>) -> Seq<char> {
    seq!['['] + name + seq![']']
}

/// The text of a list of `key = value` pairs, one line each.
pub open spec fn render_pairs(ps: Seq<(Seq<char>, Seq<char>)>) -> Seq<char>
    decreases ps.len(),
{
    if ps.len() == 0 {
        Seq::empty()
    } else {
        kv_line(ps[0].0, ps[0].1) + seq!['\n'] + render_pairs(ps.drop_first())
    }
}

/// The text of one whole section.
pub open spec fn render_section(name: Seq<char>, ps: Seq<(Seq<char>, Seq<char>)>) -> Seq<char> {
    header_line(name) + seq!['\n'] + render_pairs(ps)
}

pub open spec fn wf_pairs(ps: Seq<(Seq<char>, Seq<char>)>) -> bool {
    forall|i: int| 0 <= i < ps.len() ==> wf_key(#[trigger] ps[i].0) && wf_value(ps[i].1)
}

/// The entries that one rendered section stands for.
pub open spec fn entries_of(name: Seq<char>, ps: Seq<(Seq<char>, Seq<char>)>) -> Seq<EntryModel> {
    Seq::new(ps.len(), |i: int| EntryModel { section: name, key: ps[i].0, value: ps[i].1 })
}

/// Splitting at the first line feed peels one newline-free line off.
pub proof fn lemma_split_prepend(line: Seq<char>, rest: Seq<char>)
    requires
        no_newline(line),
    ensures
        split_lines(line + seq!['\n'] + rest) == seq![line] + split_lines(rest),
{
    let s = line + seq!['\n'] + rest;
    assert(s.len() > 0);
    assert(forall|j: int| 0 <= j < line.len() ==> s[j] == line[j]);
    assert(s[line.len() as int] == '\n');
    crate::text::lemma_first_at(s, '\n', line.len() as int);
    assert(s.take(line.len() as int) =~= line);
    assert(s.skip(line.len() as int + 1) =~= rest);
    assert(split_lines(s) =~= seq![line] + split_lines(rest));
}

/// A rendered `key = value` line reads back as that pair.
pub proof fn lemma_classify_pair(k: Seq<char>, v: Seq<char>)
    requires
        wf_key(k),
        wf_value(v),
    ensures
        classify_line(kv_line(k, v)) == LineKind::Pair(k, v),
{
    let line = kv_line(k, v);
    assert(line[0] == k[0]);
    if v.len() > 0 {
        assert(line.last() == v.last());
    } else {
        assert(line.last() == '=');
    }
    crate::text::lemma_trim_id(line);
    assert(forall|j: int| 0 <= j < k.len() ==> line[j] == k[j]);
    assert(line[k.len() as int] == '=');
    crate::text::lemma_first_at(line, '=', k.len() as int);
    assert(line.take(k.len() as int) =~= k);
    assert(line.skip(k.len() as int + 1) =~= v);
    crate::text::lemma_trim_id(k);
    crate::text::lemma_trim_id(v);
}

/// A rendered `[name]` line reads back as that header.
pub proof fn lemma_classify_header(name: Seq<char>)
    requires
        wf_name(name),
    ensures
        classify_line(header_line(name)) == LineKind::Header(name),
{
    let line = header_line(name);
    assert(line[0] == '[');
    assert(line.last() == ']');
    crate::text::lemma_trim_id(line);
    assert(line.len() >= 2);
    assert(line[line.len() - 1] == ']');
    assert(line.subrange(1, line.len() - 1) =~= name);
    crate::text::lemma_trim_id(name);
}

/// Parsing rendered pairs adds exactly their entries under the section in
/// force and goes on with the rest of the text.
pub proof fn lemma_parse_pairs(
    ps: Seq<(Seq<char>, Seq<char>)>,
    rest: Seq<char>,
    cur: Seq<char>,
    acc: Seq<EntryModel>,
)
    requires
        wf_pairs(ps),
    ensures
        parse_lines(split_lines(render_pairs(ps) + rest), cur, acc) == parse_lines(
            split_lines(rest),
            cur,
            acc + entries_of(cur, ps),
        ),
    decreases ps.len(),
{
    if ps.len() == 0 {
        assert(render_pairs(ps) + rest =~= rest);
        assert(acc + entries_of(cur, ps) =~= acc);
    } else {
        let k = ps[0].0;
        let v = ps[0].1;
        let line = kv_line(k, v);
        let tail = render_pairs(ps.drop_first()) + rest;
        assert(render_pairs(ps) + rest =~= line + seq!['\n'] + tail);
        assert(no_newline(line)) by {
            assert(forall|j: int| 0 <= j < k.len() ==> line[j] == k[j]);
            assert(line[k.len() as int] == '=');
            assert(forall|j: int|
                k.len() + 1 <= j < line.len() ==> line[j] == v[j - (k.len() + 1)]);
        }
        lemma_split_prepend(line, tail);
        lemma_classify_pair(k, v);
        let lines = split_lines(line + seq!['\n'] + tail);
        assert(lines[0] == line);
        assert(lines.drop_first() =~= split_lines(tail));
        let e = EntryModel { section: cur, key: k, value: v };
        lemma_parse_pairs(ps.drop_first(), rest, cur, acc.push(e));
        assert(acc.push(e) + entries_of(cur, ps.drop_first()) =~= acc + entries_of(cur, ps));
    }
}

/// Parsing one rendered section adds exactly its entries and leaves its name
/// as the section in force for the rest of the text.
pub proof fn lemma_parse_section(
    name: Seq<char>,
    ps: Seq<(Seq<char>, Seq<char>)>,
    rest: Seq<char>,
    cur: Seq<char>,
    acc: Seq<EntryModel>,
)
    requires
        wf_name(name),
        wf_pairs(ps),
    ensures
        parse_lines(split_lines(render_section(name, ps) + rest), cur, acc) == parse_lines(
            split_lines(rest),
            name,
            acc + entries_of(name, ps),
        ),
{
    let hline = header_line(name);
    let tail = render_pairs(ps) + rest;
    assert(render_section(name, ps) + rest =~= hline + seq!['\n'] + tail);
    assert(no_newline(hline)) by {
        assert(hline[0] == '[');
        assert(hline.last() == ']');
        assert(forall|j: int| 1 <= j < hline.len() - 1 ==> hline[j] == name[j - 1]);
    }
    lemma_split_prepend(hline, tail);
    lemma_classify_header(name);
    let lines = split_lines(hline + seq!['\n'] + tail);
    assert(lines[0] == hline);
    assert(lines.drop_first() =~= split_lines(tail));
    lemma_parse_pairs(ps, rest, name, acc);
}

/// One unfolding step of `render_pairs` along a suffix of the pair list.
pub proof fn lemma_render_pairs_unfold(ps: Seq<(Seq<char>, Seq<char>)>, k: int)
    requires
        0 <= k < ps.len(),
    ensures
        render_pairs(ps.skip(k)) == kv_line(ps[k].0, ps[k].1) + seq!['\n'] + render_pairs(
            ps.skip(k + 1),
        ),
{
    assert(ps.skip(k)[0] == ps[k]);
    assert(ps.skip(k).drop_first() =~= ps.skip(k + 1));
}

/// `lookup` on the entries of one section: the section's own name with a key
/// that never reappears later in the list finds that pair's value.
pub proof fn lemma_lookup_unique(
    name: Seq<char>,
    ps: Seq<(Seq<char>, Seq<char>)>,
    j: int,
)
    requires
        0 <= j < ps.len(),
        forall|i: int| j < i < ps.len() ==> ps[i].0 != ps[j].0,
    ensures
        lookup(entries_of(name, ps), name, ps[j].0) == Some(ps[j].1),
    decreases ps.len(),
{
    let es = entries_of(name, ps);
    if j == ps.len() - 1 {
        assert(es.last() == EntryModel { section: name, key: ps[j].0, value: ps[j].1 });
    } else {
        assert(es.last().key == ps[ps.len() - 1].0);
        assert(es.last().key != ps[j].0);
        assert(es.drop_last() =~= entries_of(name, ps.drop_last()));
        assert(ps.drop_last()[j] == ps[j]);
        lemma_lookup_unique(name, ps.drop_last(), j);
    }
}

/// `lookup` on the entries of one section misses any other section, and any
/// key the section does not hold.
pub proof fn lemma_lookup_absent(
    name: Seq<char>,
    ps: Seq<(Seq<char>, Seq<char>)>,
    section: Seq<char>,
    key: Seq<char>,
)
    requires
        section != name || forall|i: int| 0 <= i < ps.len() ==> #[trigger] ps[i].0 != key,
    ensures
        lookup(entries_of(name, ps), section, key) is None,
    decreases ps.len(),
{
    let es = entries_of(name, ps);
    if ps.len() > 0 {
        assert(es.drop_last() =~= entries_of(name, ps.drop_last()));
        assert(forall|i: int| 0 <= i < ps.len() - 1 ==> ps.drop_last()[i] == ps[i]);
        lemma_lookup_absent(name, ps.drop_last(), section, key);
    }
}

} // verus!
