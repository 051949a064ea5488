//! `title.cfg`: the `key=value` lines that describe an application, kept in
//! an insertion-ordered map.
use vstd::prelude::*;
use indexmap::IndexMap;
use crate::text::{chars_of, string_from_range, string_push, string_push_str};

verus! {

#[verifier::external_type_specification]
#[verifier::external_body]
#[verifier::reject_recursive_types(K)]
#[verifier::reject_recursive_types(V)]
#[verifier::reject_recursive_types(S)]
pub struct ExIndexMap<K, V, S>(IndexMap<K, V, S>);

/// The key-value pairs of a map, in the map's order.
pub uninterp spec fn index_map_entries(m: IndexMap<String, String>) -> Seq<(Seq<char>, Seq<char>)>;

/// Index of the first pair with key `key`, or the number of pairs when
/// there is none.
pub open spec fn key_index(e: Seq<(Seq<char>, Seq<char>)>, key: Seq<char>) -> int
    decreases e.len(),
{
    if e.len() == 0 {
        0
    } else if e[0].0 == key {
        0
    } else {
        1 + key_index(e.drop_first(), key)
    }
}

/// Whether some pair has key `key`.
pub open spec fn has_key(e: Seq<(Seq<char>, Seq<char>)>, key: Seq<char>) -> bool {
    exists|i: int| 0 <= i < e.len() && (#[trigger] e[i]).0 == key
}

/// The pairs after inserting `key` with `value`: an existing key keeps its
/// place and takes the new value; a new key goes last.
pub open spec fn entries_insert(
    e: Seq<(Seq<char>, Seq<char>)>,
    key: Seq<char>,
    value: Seq<char>,
) -> Seq<(Seq<char>, Seq<char>)> {
    if has_key(e, key) {
        e.update(key_index(e, key), (key, value))
    } else {
        e.push((key, value))
    }
}

/// Calls `IndexMap::new`, which makes an empty map.
#[verifier::external_body]
fn index_map_new() -> (m: IndexMap<String, String>)
    ensures
        index_map_entries(m) == Seq::<(Seq<char>, Seq<char>)>::empty(),
{
    IndexMap::new()
}

/// Calls `IndexMap::insert`: an existing key keeps its place and takes the
/// new value, which returns the old one; a new key is appended.
#[verifier::external_body]
fn index_map_insert(m: &mut IndexMap<String, String>, key: String, value: String) -> (r: Option<
    String,
>)
    ensures
        index_map_entries(*final(m)) == entries_insert(index_map_entries(*old(m)), key@, value@),
        r is Some <==> has_key(index_map_entries(*old(m)), key@),
        r matches Some(v) ==> v@ == index_map_entries(*old(m))[key_index(
            index_map_entries(*old(m)),
            key@,
        )].1,
{
    m.insert(key, value)
}

/// Calls `IndexMap::contains_key`.
#[verifier::external_body]
fn index_map_contains_key(m: &IndexMap<String, String>, key: &str) -> (r: bool)
    ensures
        r == has_key(index_map_entries(*m), key@),
{
    m.contains_key(key)
}

/// Calls `IndexMap::len`, the number of pairs.
#[verifier::external_body]
fn index_map_len(m: &IndexMap<String, String>) -> (r: usize)
    ensures
        r == index_map_entries(*m).len(),
{
    m.len()
}

/// Calls `IndexMap::get_index`, the pair at a position in the map's order.
#[verifier::external_body]
fn index_map_get_index<'a>(m: &'a IndexMap<String, String>, i: usize) -> (r: Option<
    (&'a String, &'a String),
>)
    ensures
        r is Some <==> i < index_map_entries(*m).len(),
        r matches Some(p) ==> p.0@ == index_map_entries(*m)[i as int].0 && p.1@
            == index_map_entries(*m)[i as int].1,
{
    m.get_index(i)
}

/// `line` without one trailing carriage return.
pub open spec fn strip_cr(line: Seq<char>) -> Seq<char> {
    if line.len() > 0 && line.last() == '\r' {
        line.drop_last()
    } else {
        line
    }
}

/// Reading `s` from the front: the lines finished by a `\n` (each without
/// its line ending) and the characters after the last `\n`.
pub open spec fn lines_scan(s: Seq<char>) -> (Seq<Seq<char>>, Seq<char>)
    decreases s.len(),
{
    if s.len() == 0 {
        (Seq::empty(), Seq::empty())
    } else {
        let (done, cur) = lines_scan(s.drop_last());
        if s.last() == '\n' {
            (done.push(strip_cr(cur)), Seq::empty())
        } else {
            (done, cur.push(s.last()))
        }
    }
}

/// The lines of `s` as `str::lines` yields them: split after each `\n`,
/// each without its `\n` or `\r\n`; text after the last `\n` is a line of
/// its own when it is not empty.
pub open spec fn spec_lines(s: Seq<char>) -> Seq<Seq<char>> {
    let (done, cur) = lines_scan(s);
    if cur.len() == 0 {
        done
    } else {
        done.push(cur)
    }
}

/// Index of the first `c` in `s`, or its length when there is none.
pub open spec fn char_index(s: Seq<char>, c: char) -> int
    decreases s.len(),
{
    if s.len() == 0 {
        0
    } else if s[0] == c {
        0
    } else {
        1 + char_index(s.drop_first(), c)
    }
}

proof fn lemma_char_index(s: Seq<char>, c: char)
    ensures
        0 <= char_index(s, c) <= s.len(),
        char_index(s, c) < s.len() ==> s[char_index(s, c)] == c,
        forall|j: int| 0 <= j < char_index(s, c) ==> s[j] != c,
    decreases s.len(),
{
    if s.len() > 0 && s[0] != c {
        lemma_char_index(s.drop_first(), c);
        assert forall|j: int| 0 <= j < char_index(s, c) implies s[j] != c by {
            if j > 0 {
                assert(s[j] == s.drop_first()[j - 1]);
            }
        }
    }
}

proof fn lemma_key_index(e: Seq<(Seq<char>, Seq<char>)>, key: Seq<char>)
    ensures
        0 <= key_index(e, key) <= e.len(),
        key_index(e, key) < e.len() <==> has_key(e, key),
        key_index(e, key) < e.len() ==> e[key_index(e, key)].0 == key,
        forall|j: int| 0 <= j < key_index(e, key) ==> e[j].0 != key,
    decreases e.len(),
{
    if e.len() > 0 && e[0].0 != key {
        let t = e.drop_first();
        lemma_key_index(t, key);
        assert forall|j: int| 0 <= j < key_index(e, key) implies e[j].0 != key by {
            if j > 0 {
                assert(e[j] == t[j - 1]);
            }
        }
        if has_key(e, key) {
            let i = choose|i: int| 0 <= i < e.len() && (#[trigger] e[i]).0 == key;
            assert(t[i - 1].0 == key);
        }
        if has_key(t, key) {
            let i = choose|i: int| 0 <= i < t.len() && (#[trigger] t[i]).0 == key;
            assert(e[i + 1].0 == key);
        }
    } else if e.len() > 0 {
        assert(e[0].0 == key);
    }
}

/// The key and value of a line: the text before and after its first `=`,
/// or nothing when it has none.
pub open spec fn spec_split_once(line: Seq<char>) -> Option<(Seq<char>, Seq<char>)> {
    let i = char_index(line, '=');
    if i < line.len() {
        Some((line.take(i), line.skip(i + 1)))
    } else {
        None
    }
}

/// The pairs a list of lines gives: each line with an `=`, inserted in
/// order.
pub open spec fn parse_lines(lines: Seq<Seq<char>>) -> Seq<(Seq<char>, Seq<char>)>
    decreases lines.len(),
{
    if lines.len() == 0 {
        Seq::empty()
    } else {
        let e = parse_lines(lines.drop_last());
        match spec_split_once(lines.last()) {
            Some((k, v)) => entries_insert(e, k, v),
            None => e,
        }
    }
}

/// The pairs of a `title.cfg` text.
pub open spec fn parse_title_cfg(contents: Seq<char>) -> Seq<(Seq<char>, Seq<char>)> {
    parse_lines(spec_lines(contents))
}

/// The lines of a text.
fn split_lines(s: &str) -> (r: Vec<Vec<char>>)
    ensures
        r@.map_values(|l: Vec<char>| l@) == spec_lines(s@),
{
    let chars = chars_of(s);
    let mut done: Vec<Vec<char>> = Vec::new();
    let mut cur: Vec<char> = Vec::new();
    let mut i: usize = 0;
    while i < chars.len()
        invariant
            i <= chars@.len(),
            chars@ == s@,
            (done@.map_values(|l: Vec<char>| l@), cur@) == lines_scan(chars@.take(i as int)),
        decreases chars.len() - i,
    {
        let c = chars[i];
        proof {
            assert(chars@.take(i + 1).drop_last() == chars@.take(i as int));
            assert(chars@.take(i + 1).last() == c);
        }
        if c == '\n' {
            let mut line = cur;
            let n = line.len();
            if n > 0 && line[n - 1] == '\r' {
                line.pop();
                assert(line@ == strip_cr(cur@));
            }
            done.push(line);
            cur = Vec::new();
            proof {
                assert(done@.map_values(|l: Vec<char>| l@) == lines_scan(
                    chars@.take(i as int),
                ).0.push(strip_cr(lines_scan(chars@.take(i as int)).1)));
            }
        } else {
            cur.push(c);
        }
        i = i + 1;
    }
    assert(chars@.take(chars@.len() as int) == chars@);
    if cur.len() > 0 {
        let ghost before = done@.map_values(|l: Vec<char>| l@);
        done.push(cur);
        assert(done@.map_values(|l: Vec<char>| l@) == before.push(lines_scan(s@).1));
    }
    done
}

/// Splits a line at its first `=`.
fn split_once_eq(line: &[char]) -> (r: Option<(String, String)>)
    ensures
        match r {
            Some((k, v)) => spec_split_once(line@) == Some((k@, v@)),
            None => spec_split_once(line@) is None,
        },
{
    proof {
        lemma_char_index(line@, '=');
    }
    let mut i: usize = 0;
    while i < line.len()
        invariant
            i <= line@.len(),
            forall|j: int| 0 <= j < i ==> line@[j] != '=',
        decreases line.len() - i,
    {
        if line[i] == '=' {
            proof {
                lemma_char_index(line@, '=');
                if char_index(line@, '=') < i {
                    assert(line@[char_index(line@, '=')] == '=');
                }
                if char_index(line@, '=') > i {
                    assert(line@[i as int] != '=');
                }
            }
            let key = string_from_range(line, 0, i);
            let value = string_from_range(line, i + 1, line.len());
            assert(line@.subrange(0, i as int) == line@.take(i as int));
            assert(line@.subrange(i + 1, line@.len() as int) == line@.skip(i + 1));
            return Some((key, value));
        }
        i = i + 1;
    }
    proof {
        if char_index(line@, '=') < line@.len() {
            assert(line@[char_index(line@, '=')] == '=');
        }
    }
    None
}

/// The pairs of a `title.cfg` text, in order of first appearance; a later
/// line with the same key replaces the value; lines without `=` are
/// skipped.
pub fn string_to_index_map(contents: String) -> (m: IndexMap<String, String>)
    ensures
        index_map_entries(m) == parse_title_cfg(contents@),
{
    let lines = split_lines(contents.as_str());
    let ghost ls = lines@.map_values(|l: Vec<char>| l@);
    let mut m = index_map_new();
    let mut i: usize = 0;
    while i < lines.len()
        invariant
            i <= lines@.len(),
            ls == lines@.map_values(|l: Vec<char>| l@),
            ls == spec_lines(contents@),
            index_map_entries(m) == parse_lines(ls.take(i as int)),
        decreases lines.len() - i,
    {
        proof {
            assert(ls.take(i + 1).drop_last() == ls.take(i as int));
            assert(ls.take(i + 1).last() == lines@[i as int]@);
        }
        match split_once_eq(lines[i].as_slice()) {
            Some((key, value)) => {
                index_map_insert(&mut m, key, value);
            },
            None => {},
        }
        i = i + 1;
    }
    assert(ls.take(ls.len() as int) == ls);
    m
}

/// The text of a list of pairs: one `key=value` line per pair, each ended
/// by `\n`.
pub open spec fn render_entries(e: Seq<(Seq<char>, Seq<char>)>) -> Seq<char>
    decreases e.len(),
{
    if e.len() == 0 {
        Seq::empty()
    } else {
        render_entries(e.drop_last()) + e.last().0 + seq!['='] + e.last().1 + seq!['\n']
    }
}

/// The keys every `title.cfg` should have, in order.
pub open spec fn mandatory_keys_spec() -> Seq<Seq<char>> {
    seq![
        "title"@,
        "Description"@,
        "boot"@,
        "Release"@,
        "Developer"@,
        "source"@,
        "Version"@,
    ]
}

/// The keys every `title.cfg` should have.
pub fn mandatory_keys() -> (v: Vec<&'static str>)
    ensures
        v@.map_values(|k: &str| k@) == mandatory_keys_spec(),
{
    let v = vec!["title", "Description", "boot", "Release", "Developer", "source", "Version"];
    assert(v@.map_values(|k: &str| k@) == mandatory_keys_spec());
    v
}

/// The mandatory keys that `e` lacks, in order.
pub open spec fn missing_keys(e: Seq<(Seq<char>, Seq<char>)>) -> Seq<Seq<char>> {
    mandatory_keys_spec().filter(|k: Seq<char>| !has_key(e, k))
}

/// `e` after inserting each key of `keys` that it lacks, with an empty
/// value, in order.
pub open spec fn add_keys(e: Seq<(Seq<char>, Seq<char>)>, keys: Seq<Seq<char>>) -> Seq<
    (Seq<char>, Seq<char>),
>
    decreases keys.len(),
{
    if keys.len() == 0 {
        e
    } else {
        let prev = add_keys(e, keys.drop_last());
        if has_key(prev, keys.last()) {
            prev
        } else {
            prev.push((keys.last(), Seq::empty()))
        }
    }
}

/// A `title.cfg`: its text and the pairs read from it.  The two are kept in
/// step by `sync_contents_to_index_map` and `sync_index_map_to_contents`.
pub struct TitleCfg {
    pub contents: String,
    pub index_map: IndexMap<String, String>,
}

impl TitleCfg {
    /// The pairs of the map, in order.
    pub open spec fn entries(&self) -> Seq<(Seq<char>, Seq<char>)> {
        index_map_entries(self.index_map)
    }

    /// A `title.cfg` holding `contents` and the pairs read from it.
    pub fn new(contents: String) -> (cfg: Self)
        ensures
            cfg.contents@ == contents@,
            cfg.entries() == parse_title_cfg(contents@),
    {
        let index_map = string_to_index_map(contents.clone());
        TitleCfg { contents, index_map }
    }

    /// The text of the pairs: one `key=value` line per pair, in order.
    pub fn to_string(&self) -> (s: String)
        ensures
            s@ == render_entries(self.entries()),
    {
        let n = index_map_len(&self.index_map);
        let ghost e = self.entries();
        let mut s = String::new();
        let mut i: usize = 0;
        while i < n
            invariant
                i <= n,
                n == e.len(),
                e == index_map_entries(self.index_map),
                s@ == render_entries(e.take(i as int)),
            decreases n - i,
        {
            match index_map_get_index(&self.index_map, i) {
                Some((key, value)) => {
                    string_push_str(&mut s, key.as_str());
                    string_push(&mut s, '=');
                    string_push_str(&mut s, value.as_str());
                    string_push(&mut s, '\n');
                },
                None => {},
            }
            proof {
                assert(e.take(i + 1).drop_last() == e.take(i as int));
                assert(e.take(i + 1).last() == e[i as int]);
                assert(s@ == render_entries(e.take(i + 1)));
            }
            i = i + 1;
        }
        assert(e.take(e.len() as int) == e);
        s
    }

    /// Replaces the text by the text of the pairs.
    pub fn sync_index_map_to_contents(&mut self)
        ensures
            final(self).contents@ == render_entries(old(self).entries()),
            final(self).entries() == old(self).entries(),
    {
        self.contents = self.to_string();
    }

    /// Replaces the pairs by those read from the text.
    pub fn sync_contents_to_index_map(&mut self)
        ensures
            final(self).contents@ == old(self).contents@,
            final(self).entries() == parse_title_cfg(old(self).contents@),
    {
        self.index_map = string_to_index_map(self.contents.clone());
    }

    /// The mandatory keys that the pairs lack, in order.
    pub fn missing_mandatory_fields(&self) -> (v: Vec<&'static str>)
        ensures
            v@.map_values(|k: &str| k@) == missing_keys(self.entries()),
    {
        let keys = mandatory_keys();
        let ghost ks = keys@.map_values(|k: &str| k@);
        let mut v: Vec<&'static str> = Vec::new();
        let mut i: usize = 0;
        while i < keys.len()
            invariant
                i <= keys@.len(),
                ks == keys@.map_values(|k: &str| k@),
                ks == mandatory_keys_spec(),
                v@.map_values(|k: &str| k@) == ks.take(i as int).filter(
                    |k: Seq<char>| !has_key(self.entries(), k),
                ),
            decreases keys.len() - i,
        {
            proof {
                reveal(Seq::filter);
                assert(ks.take(i + 1).drop_last() == ks.take(i as int));
                assert(ks.take(i + 1).last() == keys@[i as int]@);
            }
            if !index_map_contains_key(&self.index_map, keys[i]) {
                v.push(keys[i]);
            }
            proof {
                assert(v@.map_values(|k: &str| k@) == ks.take(i + 1).filter(
                    |k: Seq<char>| !has_key(self.entries(), k),
                ));
            }
            i = i + 1;
        }
        assert(ks.take(ks.len() as int) == ks);
        v
    }

    /// Whether the pairs have every mandatory key.
    pub fn has_mandatory_fields(&self) -> (r: bool)
        ensures
            r == (missing_keys(self.entries()).len() == 0),
            r == (forall|i: int|
                0 <= i < mandatory_keys_spec().len() ==> has_key(
                    self.entries(),
                    #[trigger] mandatory_keys_spec()[i],
                )),
    {
        let missing = self.missing_mandatory_fields();
        proof {
            let e = self.entries();
            let ks = mandatory_keys_spec();
            let pred = |k: Seq<char>| !has_key(e, k);
            if missing@.len() == 0 {
                assert forall|i: int| 0 <= i < ks.len() implies has_key(e, #[trigger] ks[i]) by {
                    if !has_key(e, ks[i]) {
                        ks.lemma_filter_contains(pred, i);
                        assert(ks.filter(pred).contains(ks[i]));
                    }
                }
            } else {
                let k = missing_keys(e)[0];
                assert(missing_keys(e).contains(k));
                ks.lemma_filter_contains_rev(pred, k);
                ks.lemma_filter_pred(pred, 0);
                let j = choose|j: int| 0 <= j < ks.len() && ks[j] == k;
                assert(!has_key(e, ks[j]));
            }
        }
        missing.len() == 0
    }

    /// Adds each mandatory key the pairs lack, with an empty value, in
    /// order.
    pub fn add_missing_fields(&mut self) -> (r: &Self)
        ensures
            final(self).entries() == add_keys(old(self).entries(), mandatory_keys_spec()),
            final(self).contents@ == old(self).contents@,
            r.entries() == final(self).entries(),
            r.contents@ == final(self).contents@,
    {
        let keys = mandatory_keys();
        let ghost ks = keys@.map_values(|k: &str| k@);
        let ghost start = self.entries();
        let mut i: usize = 0;
        while i < keys.len()
            invariant
                i <= keys@.len(),
                ks == keys@.map_values(|k: &str| k@),
                ks == mandatory_keys_spec(),
                self.entries() == add_keys(start, ks.take(i as int)),
                self.contents@ == old(self).contents@,
            decreases keys.len() - i,
        {
            proof {
                assert(ks.take(i + 1).drop_last() == ks.take(i as int));
                assert(ks.take(i + 1).last() == keys@[i as int]@);
            }
            if !index_map_contains_key(&self.index_map, keys[i]) {
                index_map_insert(&mut self.index_map, keys[i].to_owned(), String::new());
            }
            i = i + 1;
        }
        assert(ks.take(ks.len() as int) == ks);
        self
    }
}

/// The line that stands for a pair.
pub open spec fn entry_line(k: Seq<char>, v: Seq<char>) -> Seq<char> {
    k + seq!['='] + v
}

/// The lines that stand for a list of pairs.
pub open spec fn entry_lines(e: Seq<(Seq<char>, Seq<char>)>) -> Seq<Seq<char>> {
    e.map_values(|p: (Seq<char>, Seq<char>)| entry_line(p.0, p.1))
}

/// Whether the text of `e` reads back as `e`: keys are distinct and hold
/// neither `=` nor a line break, values hold no line break and do not end
/// with a carriage return.
pub open spec fn renders_faithfully(e: Seq<(Seq<char>, Seq<char>)>) -> bool {
    &&& forall|i: int, j: int| 0 <= i < j < e.len() ==> (#[trigger] e[i]).0 != (#[trigger] e[j]).0
    &&& forall|i: int|
        0 <= i < e.len() ==> !(#[trigger] e[i]).0.contains('=') && !e[i].0.contains('\n')
            && !e[i].1.contains('\n') && !(e[i].1.len() > 0 && e[i].1.last() == '\r')
}

proof fn lemma_scan_append(s: Seq<char>, t: Seq<char>)
    requires
        !t.contains('\n'),
    ensures
        lines_scan(s + t) == (lines_scan(s).0, lines_scan(s).1 + t),
    decreases t.len(),
{
    if t.len() == 0 {
        assert(s + t == s);
        assert(lines_scan(s).1 + t == lines_scan(s).1);
    } else {
        let t1 = t.drop_last();
        assert(!t1.contains('\n')) by {
            if t1.contains('\n') {
                let j = choose|j: int| 0 <= j < t1.len() && t1[j] == '\n';
                assert(t[j] == '\n');
            }
        }
        lemma_scan_append(s, t1);
        assert((s + t).drop_last() == s + t1);
        assert((s + t).last() == t.last());
        assert(t.last() != '\n') by {
            assert(t[t.len() - 1] == t.last());
        }
        assert(lines_scan(s).1 + t1 + seq![t.last()] == lines_scan(s).1 + t);
    }
}

proof fn lemma_scan_line(s: Seq<char>, t: Seq<char>)
    requires
        !t.contains('\n'),
    ensures
        lines_scan(s + t + seq!['\n']) == (
            lines_scan(s).0.push(strip_cr(lines_scan(s).1 + t)),
            Seq::<char>::empty(),
        ),
{
    lemma_scan_append(s, t);
    let u = s + t + seq!['\n'];
    assert(u.drop_last() == s + t);
    assert(u.last() == '\n');
}

proof fn lemma_line_no_newline(k: Seq<char>, v: Seq<char>)
    requires
        !k.contains('\n'),
        !v.contains('\n'),
    ensures
        !entry_line(k, v).contains('\n'),
{
    let l = entry_line(k, v);
    if l.contains('\n') {
        let j = choose|j: int| 0 <= j < l.len() && l[j] == '\n';
        if j < k.len() {
            assert(k[j] == '\n');
        } else if j > k.len() {
            assert(v[j - k.len() - 1] == '\n');
        }
    }
}

proof fn lemma_render_scan(e: Seq<(Seq<char>, Seq<char>)>)
    requires
        renders_faithfully(e),
    ensures
        lines_scan(render_entries(e)) == (entry_lines(e), Seq::<char>::empty()),
    decreases e.len(),
{
    if e.len() > 0 {
        let d = e.drop_last();
        assert(renders_faithfully(d)) by {
            assert forall|i: int, j: int| 0 <= i < j < d.len() implies (#[trigger] d[i]).0 != (
            #[trigger] d[j]).0 by {
                assert(d[i] == e[i] && d[j] == e[j]);
            }
            assert forall|i: int| 0 <= i < d.len() implies !(#[trigger] d[i]).0.contains('=')
                && !d[i].0.contains('\n') && !d[i].1.contains('\n') && !(d[i].1.len() > 0
                && d[i].1.last() == '\r') by {
                assert(d[i] == e[i]);
            }
        }
        lemma_render_scan(d);
        let (k, v) = e.last();
        assert(e.last() == e[e.len() - 1]);
        lemma_line_no_newline(k, v);
        let prefix = render_entries(d);
        assert(render_entries(e) == prefix + entry_line(k, v) + seq!['\n']);
        lemma_scan_line(prefix, entry_line(k, v));
        let line = entry_line(k, v);
        assert(Seq::<char>::empty() + line == line);
        assert(strip_cr(line) == line) by {
            if v.len() > 0 {
                assert(line.last() == v.last());
            } else {
                assert(line.last() == '=');
            }
        }
        assert(entry_lines(e) == entry_lines(d).push(line));
    }
}

proof fn lemma_char_index_concat(k: Seq<char>, rest: Seq<char>)
    requires
        !k.contains('='),
        rest.len() > 0,
        rest[0] == '=',
    ensures
        char_index(k + rest, '=') == k.len(),
    decreases k.len(),
{
    if k.len() == 0 {
        assert(k + rest == rest);
    } else {
        assert(k[0] != '=');
        assert((k + rest)[0] == k[0]);
        assert((k + rest).drop_first() == k.drop_first() + rest);
        assert(!k.drop_first().contains('=')) by {
            if k.drop_first().contains('=') {
                let j = choose|j: int| 0 <= j < k.drop_first().len() && k.drop_first()[j] == '=';
                assert(k[j + 1] == '=');
            }
        }
        lemma_char_index_concat(k.drop_first(), rest);
    }
}

proof fn lemma_split_entry_line(k: Seq<char>, v: Seq<char>)
    requires
        !k.contains('='),
    ensures
        spec_split_once(entry_line(k, v)) == Some((k, v)),
{
    let l = entry_line(k, v);
    assert(l == k + (seq!['='] + v));
    lemma_char_index_concat(k, seq!['='] + v);
    assert(l.take(k.len() as int) == k);
    assert(l.skip(k.len() as int + 1) == v);
}

proof fn lemma_parse_entry_lines(e: Seq<(Seq<char>, Seq<char>)>)
    requires
        renders_faithfully(e),
    ensures
        parse_lines(entry_lines(e)) == e,
    decreases e.len(),
{
    if e.len() > 0 {
        let d = e.drop_last();
        assert(renders_faithfully(d)) by {
            assert forall|i: int, j: int| 0 <= i < j < d.len() implies (#[trigger] d[i]).0 != (
            #[trigger] d[j]).0 by {
                assert(d[i] == e[i] && d[j] == e[j]);
            }
            assert forall|i: int| 0 <= i < d.len() implies !(#[trigger] d[i]).0.contains('=')
                && !d[i].0.contains('\n') && !d[i].1.contains('\n') && !(d[i].1.len() > 0
                && d[i].1.last() == '\r') by {
                assert(d[i] == e[i]);
            }
        }
        lemma_parse_entry_lines(d);
        let (k, v) = e.last();
        assert(e.last() == e[e.len() - 1]);
        assert(entry_lines(e).drop_last() == entry_lines(d));
        assert(entry_lines(e).last() == entry_line(k, v));
        lemma_split_entry_line(k, v);
        assert(!has_key(d, k)) by {
            if has_key(d, k) {
                let i = choose|i: int| 0 <= i < d.len() && (#[trigger] d[i]).0 == k;
                assert(e[i].0 == e[e.len() - 1].0);
            }
        }
        assert(d.push((k, v)) == e);
    }
}

/// Writing the pairs out as text and reading the text back gives the same
/// pairs, in the same order, when keys are distinct and hold neither `=`
/// nor a line break, and values hold no line break and do not end with a
/// carriage return.
pub proof fn lemma_title_cfg_roundtrip(e: Seq<(Seq<char>, Seq<char>)>)
    requires
        renders_faithfully(e),
    ensures
        parse_title_cfg(render_entries(e)) == e,
{
    lemma_render_scan(e);
    lemma_parse_entry_lines(e);
}

proof fn lemma_add_keys_has(e: Seq<(Seq<char>, Seq<char>)>, keys: Seq<Seq<char>>)
    ensures
        forall|k: Seq<char>| has_key(e, k) ==> has_key(add_keys(e, keys), k),
        forall|i: int| 0 <= i < keys.len() ==> has_key(add_keys(e, keys), #[trigger] keys[i]),
    decreases keys.len(),
{
    if keys.len() > 0 {
        let prev_keys = keys.drop_last();
        lemma_add_keys_has(e, prev_keys);
        let prev = add_keys(e, prev_keys);
        let last = keys.last();
        let next = add_keys(e, keys);
        assert forall|k: Seq<char>| has_key(prev, k) implies has_key(next, k) by {
            if !has_key(prev, last) {
                let i = choose|i: int| 0 <= i < prev.len() && (#[trigger] prev[i]).0 == k;
                assert(next[i] == prev[i]);
            }
        }
        assert(has_key(next, last)) by {
            if !has_key(prev, last) {
                assert(next[prev.len() as int].0 == last);
            }
        }
        assert forall|i: int| 0 <= i < keys.len() implies has_key(next, #[trigger] keys[i]) by {
            if i < keys.len() - 1 {
                assert(keys[i] == prev_keys[i]);
            }
        }
    }
}

/// After the missing fields are added, none is missing: every mandatory
/// key is present, and the keys present before stay present.
pub proof fn lemma_add_missing_fields_completes(e: Seq<(Seq<char>, Seq<char>)>)
    ensures
        missing_keys(add_keys(e, mandatory_keys_spec())).len() == 0,
        forall|k: Seq<char>| has_key(e, k) ==> has_key(add_keys(e, mandatory_keys_spec()), k),
{
    let ks = mandatory_keys_spec();
    let added = add_keys(e, ks);
    lemma_add_keys_has(e, ks);
    let pred = |k: Seq<char>| !has_key(added, k);
    if missing_keys(added).len() > 0 {
        ks.lemma_filter_pred(pred, 0);
        let k = ks.filter(pred)[0];
        assert(ks.filter(pred).contains(k));
        ks.lemma_filter_contains_rev(pred, k);
        let j = choose|j: int| 0 <= j < ks.len() && ks[j] == k;
        assert(has_key(added, ks[j]));
    }
}

} // verus!
