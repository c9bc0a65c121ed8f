use vstd::prelude::*;

use crate::error::ParserError;
use vstd::string::StrSliceExecFns;

use crate::text::{chars_of, owned, str_equals};

verus! {

broadcast use vstd::string::group_string_axioms;

// ---------------------------------------------------------------------
// The text of a configuration file
// ---------------------------------------------------------------------

/// `char::is_whitespace`: the characters with the Unicode `White_Space`
/// property.
pub open spec fn is_whitespace(c: char) -> bool {
    let n = c as u32;
    ||| 0x09 <= n <= 0x0D
    ||| n == 0x20
    ||| n == 0x85
    ||| n == 0xA0
    ||| n == 0x1680
    ||| 0x2000 <= n <= 0x200A
    ||| n == 0x2028
    ||| n == 0x2029
    ||| n == 0x202F
    ||| n == 0x205F
    ||| n == 0x3000
}

pub open spec fn whitespace() -> spec_fn(char) -> bool {
    |c: char| is_whitespace(c)
}

pub open spec fn double_quote() -> spec_fn(char) -> bool {
    |c: char| c == '"'
}

/// `s` without the characters that satisfy `p` at its start.
pub open spec fn drop_leading(s: Seq<char>, p: spec_fn(char) -> bool) -> Seq<char>
    decreases s.len(),
{
    if s.len() > 0 && p(s[0]) {
        drop_leading(s.drop_first(), p)
    } else {
        s
    }
}

/// `s` without the characters that satisfy `p` at its end.
pub open spec fn drop_trailing(s: Seq<char>, p: spec_fn(char) -> bool) -> Seq<char>
    decreases s.len(),
{
    if s.len() > 0 && p(s.last()) {
        drop_trailing(s.drop_last(), p)
    } else {
        s
    }
}

/// `str::trim`: `s` without leading and trailing whitespace.
pub open spec fn trim(s: Seq<char>) -> Seq<char> {
    drop_trailing(drop_leading(s, whitespace()), whitespace())
}

/// `str::trim_matches('"')`: `s` without leading and trailing `"`.
pub open spec fn strip_quotes(s: Seq<char>) -> Seq<char> {
    drop_trailing(drop_leading(s, double_quote()), double_quote())
}

/// The position of the first `c` in `s`.
pub open spec fn index_of(s: Seq<char>, c: char) -> Option<int>
    decreases s.len(),
{
    if s.len() == 0 {
        None
    } else if s[0] == c {
        Some(0)
    } else {
        match index_of(s.drop_first(), c) {
            Some(i) => Some(i + 1),
            None => None,
        }
    }
}

/// `str::lines` up to a trailing `'\r'`, which `trim` removes anyway: the
/// pieces of `s` between line feeds, without an empty piece after a final
/// line feed.
pub open spec fn config_lines(s: Seq<char>) -> Seq<Seq<char>>
    decreases s.len(),
{
    if s.len() == 0 {
        seq![]
    } else {
        match index_of(s, '\n') {
            Some(e) => {
                if 0 <= e < s.len() {
                    seq![s.take(e)] + config_lines(s.skip(e + 1))
                } else {
                    seq![s]
                }
            },
            None => seq![s],
        }
    }
}

/// What one line of the file says.
pub enum ConfigLine {
    /// Blank or a comment.
    Ignored,
    /// `key = value`.
    Entry(Seq<char>, Seq<char>),
    /// Anything else; holds the trimmed line.
    Malformed(Seq<char>),
}

/// Reads one line: trimmed, it is ignored when empty or starting with `#`;
/// else it splits at its first `=` into a trimmed key and a trimmed value
/// without surrounding quotes.
pub open spec fn classify_line(line: Seq<char>) -> ConfigLine {
    let t = trim(line);
    if t.len() == 0 || t[0] == '#' {
        ConfigLine::Ignored
    } else {
        match index_of(t, '=') {
            Some(k) => ConfigLine::Entry(trim(t.take(k)), strip_quotes(trim(t.skip(k + 1)))),
            None => ConfigLine::Malformed(t),
        }
    }
}

/// Reads the lines in order into `acc`; a later key replaces an earlier
/// one; the first malformed line stops the reading.
pub open spec fn read_lines(lines: Seq<Seq<char>>, acc: Map<Seq<char>, Seq<char>>) -> Result<
    Map<Seq<char>, Seq<char>>,
    Seq<char>,
>
    decreases lines.len(),
{
    if lines.len() == 0 {
        Ok(acc)
    } else {
        match classify_line(lines[0]) {
            ConfigLine::Ignored => read_lines(lines.drop_first(), acc),
            ConfigLine::Entry(k, v) => read_lines(lines.drop_first(), acc.insert(k, v)),
            ConfigLine::Malformed(l) => Err(l),
        }
    }
}

/// The settings that a configuration text holds, or its first malformed
/// line.
pub open spec fn parsed_config(text: Seq<char>) -> Result<Map<Seq<char>, Seq<char>>, Seq<char>> {
    read_lines(config_lines(text), Map::empty())
}

} // verus!

verus! {

// ---------------------------------------------------------------------
// Facts about the text functions
// ---------------------------------------------------------------------

/// `index_of` finds the first occurrence, and `None` means there is none.
pub proof fn lemma_index_of(s: Seq<char>, c: char)
    ensures
        match index_of(s, c) {
            Some(k) => 0 <= k < s.len() && s[k] == c && forall|j: int| 0 <= j < k ==> s[j] != c,
            None => forall|j: int| 0 <= j < s.len() ==> s[j] != c,
        },
    decreases s.len(),
{
    if s.len() > 0 && s[0] != c {
        lemma_index_of(s.drop_first(), c);
        match index_of(s.drop_first(), c) {
            Some(k) => {
                assert forall|j: int| 0 <= j < k + 1 implies s[j] != c by {
                    if j > 0 {
                        assert(s[j] == s.drop_first()[j - 1]);
                    }
                }
            },
            None => {
                assert forall|j: int| 0 <= j < s.len() implies s[j] != c by {
                    if j > 0 {
                        assert(s[j] == s.drop_first()[j - 1]);
                    }
                }
            },
        }
    }
}

/// Leading characters that satisfy `p`, from `lo` up to `a`, are what
/// `drop_leading` removes from `s[lo..hi]`.
pub proof fn lemma_drop_leading(s: Seq<char>, lo: int, a: int, hi: int, p: spec_fn(char) -> bool)
    requires
        0 <= lo <= a <= hi <= s.len(),
        forall|j: int| lo <= j < a ==> p(s[j]),
        a == hi || !p(s[a]),
    ensures
        drop_leading(s.subrange(lo, hi), p) == s.subrange(a, hi),
    decreases a - lo,
{
    if lo < a {
        assert(s.subrange(lo, hi).drop_first() =~= s.subrange(lo + 1, hi));
        lemma_drop_leading(s, lo + 1, a, hi, p);
    }
}

/// Trailing characters that satisfy `p`, from `b` up to `hi`, are what
/// `drop_trailing` removes from `s[lo..hi]`.
pub proof fn lemma_drop_trailing(s: Seq<char>, lo: int, b: int, hi: int, p: spec_fn(char) -> bool)
    requires
        0 <= lo <= b <= hi <= s.len(),
        forall|j: int| b <= j < hi ==> p(s[j]),
        b == lo || !p(s[b - 1]),
    ensures
        drop_trailing(s.subrange(lo, hi), p) == s.subrange(lo, b),
    decreases hi - b,
{
    if b < hi {
        assert(s.subrange(lo, hi).drop_last() =~= s.subrange(lo, hi - 1));
        lemma_drop_trailing(s, lo, b, hi - 1, p);
    } else {
        assert(s.subrange(lo, hi) =~= s.subrange(lo, b));
    }
}

/// The lines of `s` from position `i` on: the line up to `e` (the next
/// line feed, or the end), then the lines after it.
pub proof fn lemma_lines_step(s: Seq<char>, i: int, e: int)
    requires
        0 <= i < s.len(),
        i <= e <= s.len(),
        forall|j: int| i <= j < e ==> s[j] != '\n',
        e == s.len() || s[e] == '\n',
    ensures
        config_lines(s.skip(i)) == seq![s.subrange(i, e)] + config_lines(
            s.skip(if e < s.len() { e + 1 } else { e }),
        ),
{
    let t = s.skip(i);
    lemma_index_of(t, '\n');
    assert(s.skip(s.len() as int).len() == 0);
    if e < s.len() {
        assert(t[e - i] == '\n');
        match index_of(t, '\n') {
            Some(k) => {
                if k < e - i {
                    assert(t[k] == s[i + k]);
                }
                assert(k == e - i);
            },
            None => {
                assert(false);
            },
        }
        assert(t.take(e - i) =~= s.subrange(i, e));
        assert(t.skip(e - i + 1) =~= s.skip(e + 1));
    } else {
        match index_of(t, '\n') {
            Some(k) => {
                assert(t[k] == s[i + k]);
                assert(false);
            },
            None => {},
        }
        assert(t =~= s.subrange(i, e));
        assert(config_lines(s.skip(e)) == Seq::<Seq<char>>::empty());
    }
}

} // verus!

verus! {

// ---------------------------------------------------------------------
// The settings
// ---------------------------------------------------------------------

/// The map that a list of key/value pairs gives when inserted in order.
pub open spec fn map_of(s: Seq<(Seq<char>, Seq<char>)>) -> Map<Seq<char>, Seq<char>>
    decreases s.len(),
{
    if s.len() == 0 {
        Map::empty()
    } else {
        map_of(s.drop_last()).insert(s.last().0, s.last().1)
    }
}

/// No key occurs twice in `s`.
pub open spec fn keys_distinct(s: Seq<(Seq<char>, Seq<char>)>) -> bool {
    forall|i: int, j: int| 0 <= i < j < s.len() ==> s[i].0 != s[j].0
}

pub open spec fn pairs_view(v: Seq<(String, String)>) -> Seq<(Seq<char>, Seq<char>)> {
    v.map_values(|p: (String, String)| (p.0@, p.1@))
}

proof fn lemma_map_of_dom(s: Seq<(Seq<char>, Seq<char>)>, k: Seq<char>)
    ensures
        map_of(s).dom().contains(k) <==> exists|i: int| 0 <= i < s.len() && s[i].0 == k,
    decreases s.len(),
{
    if s.len() > 0 {
        lemma_map_of_dom(s.drop_last(), k);
        if map_of(s.drop_last()).dom().contains(k) {
            let i = choose|i: int| 0 <= i < s.drop_last().len() && s.drop_last()[i].0 == k;
            assert(s[i].0 == k);
        }
        if exists|i: int| 0 <= i < s.len() && s[i].0 == k {
            let i = choose|i: int| 0 <= i < s.len() && s[i].0 == k;
            if i < s.len() - 1 {
                assert(s.drop_last()[i].0 == k);
            }
        }
    }
}

proof fn lemma_map_of_value(s: Seq<(Seq<char>, Seq<char>)>, i: int)
    requires
        keys_distinct(s),
        0 <= i < s.len(),
    ensures
        map_of(s).dom().contains(s[i].0),
        map_of(s)[s[i].0] == s[i].1,
    decreases s.len(),
{
    if i < s.len() - 1 {
        assert(s.drop_last()[i] == s[i]);
        lemma_map_of_value(s.drop_last(), i);
    }
}

proof fn lemma_map_of_update(s: Seq<(Seq<char>, Seq<char>)>, i: int, v: Seq<char>)
    requires
        keys_distinct(s),
        0 <= i < s.len(),
    ensures
        keys_distinct(s.update(i, (s[i].0, v))),
        map_of(s.update(i, (s[i].0, v))) =~= map_of(s).insert(s[i].0, v),
{
    let u = s.update(i, (s[i].0, v));
    assert(keys_distinct(u)) by {
        assert forall|a: int, b: int| 0 <= a < b < u.len() implies u[a].0 != u[b].0 by {
            assert(u[a].0 == s[a].0 && u[b].0 == s[b].0);
        }
    }
    assert forall|k: Seq<char>| #[trigger] map_of(u).dom().contains(k) <==> map_of(s).insert(
        s[i].0,
        v,
    ).dom().contains(k) by {
        lemma_map_of_dom(u, k);
        lemma_map_of_dom(s, k);
        if exists|j: int| 0 <= j < s.len() && s[j].0 == k {
            let j = choose|j: int| 0 <= j < s.len() && s[j].0 == k;
            assert(u[j].0 == k);
        }
        if exists|j: int| 0 <= j < u.len() && u[j].0 == k {
            let j = choose|j: int| 0 <= j < u.len() && u[j].0 == k;
            assert(s[j].0 == k);
        }
    }
    assert forall|k: Seq<char>| #[trigger] map_of(u).dom().contains(k) implies map_of(u)[k]
        == map_of(s).insert(s[i].0, v)[k] by {
        lemma_map_of_dom(u, k);
        let j = choose|j: int| 0 <= j < u.len() && u[j].0 == k;
        lemma_map_of_value(u, j);
        if j != i {
            lemma_map_of_value(s, j);
        }
    }
}

/// The settings of a configuration file: each key with its value.
pub struct Config {
    entries: Vec<(String, String)>,
}

impl View for Config {
    type V = Map<Seq<char>, Seq<char>>;

    closed spec fn view(&self) -> Map<Seq<char>, Seq<char>> {
        map_of(pairs_view(self.entries@))
    }
}

impl Config {
    #[verifier::type_invariant]
    spec fn keys_are_distinct(self) -> bool {
        keys_distinct(pairs_view(self.entries@))
    }

    /// No settings.
    pub fn new() -> (res: Config)
        ensures
            res@ == Map::<Seq<char>, Seq<char>>::empty(),
    {
        let res = Config { entries: Vec::new() };
        assert(pairs_view(res.entries@) =~= Seq::empty());
        res
    }

    /// The value of `key`, if it is set.
    pub fn get(&self, key: &str) -> (res: Option<&String>)
        ensures
            match res {
                Some(v) => self@.contains_key(key@) && self@[key@] == v@,
                None => !self@.contains_key(key@),
            },
    {
        proof {
            use_type_invariant(self);
        }
        let ghost pv = pairs_view(self.entries@);
        let n = self.entries.len();
        for i in 0..n
            invariant
                n == self.entries@.len(),
                pv == pairs_view(self.entries@),
                keys_distinct(pv),
                forall|j: int| 0 <= j < i ==> pv[j].0 != key@,
        {
            if str_equals(self.entries[i].0.as_str(), key) {
                proof {
                    lemma_map_of_value(pv, i as int);
                }
                return Some(&self.entries[i].1);
            }
        }
        proof {
            lemma_map_of_dom(pv, key@);
        }
        None
    }

    /// Sets `key` to `value`, replacing a value it had.
    pub fn insert(&mut self, key: String, value: String)
        ensures
            final(self)@ == old(self)@.insert(key@, value@),
    {
        proof {
            use_type_invariant(&*self);
        }
        let ghost pv = pairs_view(self.entries@);
        let n = self.entries.len();
        let mut found: Option<usize> = None;
        for i in 0..n
            invariant
                n == self.entries@.len(),
                pv == pairs_view(self.entries@),
                found is None ==> forall|j: int| 0 <= j < i ==> pv[j].0 != key@,
                found matches Some(f) ==> f < n && pv[f as int].0 == key@,
        {
            if found.is_none() && self.entries[i].0 == key {
                found = Some(i);
            }
        }
        match found {
            Some(f) => {
                proof {
                    lemma_map_of_update(pv, f as int, value@);
                }
                let mut entries: Vec<(String, String)> = Vec::new();
                std::mem::swap(&mut entries, &mut self.entries);
                entries.set(f, (key, value));
                assert(pairs_view(entries@) =~= pv.update(f as int, (pv[f as int].0, value@)));
                self.entries = entries;
            },
            None => {
                let ghost entry = (key@, value@);
                let mut entries: Vec<(String, String)> = Vec::new();
                std::mem::swap(&mut entries, &mut self.entries);
                entries.push((key, value));
                assert(pairs_view(entries@) =~= pv.push(entry));
                assert(pv.push(entry).drop_last() =~= pv);
                assert(keys_distinct(pv.push(entry)));
                self.entries = entries;
            },
        }
    }
}

} // verus!

verus! {

// ---------------------------------------------------------------------
// Reading a configuration text
// ---------------------------------------------------------------------

/// The characters that `strip_bounds` removes: whitespace, or double quotes.
pub open spec fn char_class(quotes: bool) -> spec_fn(char) -> bool {
    if quotes {
        double_quote()
    } else {
        whitespace()
    }
}

/// `char::is_whitespace`.
pub fn is_ws(c: char) -> (res: bool)
    ensures
        res == is_whitespace(c),
{
    let n = c as u32;
    (0x09 <= n && n <= 0x0D) || n == 0x20 || n == 0x85 || n == 0xA0 || n == 0x1680 || (0x2000 <= n
        && n <= 0x200A) || n == 0x2028 || n == 0x2029 || n == 0x202F || n == 0x205F || n == 0x3000
}

fn in_class(c: char, quotes: bool) -> (res: bool)
    ensures
        res == char_class(quotes)(c),
{
    if quotes {
        c == '"'
    } else {
        is_ws(c)
    }
}

/// The bounds of `chars[lo..hi]` without the leading and trailing
/// characters of the class.
fn strip_bounds(chars: &Vec<char>, lo: usize, hi: usize, quotes: bool) -> (res: (usize, usize))
    requires
        lo <= hi <= chars@.len(),
    ensures
        lo <= res.0 <= res.1 <= hi,
        drop_trailing(drop_leading(chars@.subrange(lo as int, hi as int), char_class(quotes)), char_class(quotes))
            == chars@.subrange(res.0 as int, res.1 as int),
{
    let mut a = lo;
    while a < hi && in_class(chars[a], quotes)
        invariant
            lo <= a <= hi,
            hi <= chars@.len(),
            forall|j: int| lo <= j < a ==> char_class(quotes)(chars@[j]),
        decreases hi - a,
    {
        a = a + 1;
    }
    let mut b = hi;
    while b > a && in_class(chars[b - 1], quotes)
        invariant
            lo <= a <= b <= hi,
            hi <= chars@.len(),
            forall|j: int| b <= j < hi ==> char_class(quotes)(chars@[j]),
        decreases b - a,
    {
        b = b - 1;
    }
    proof {
        lemma_drop_leading(chars@, lo as int, a as int, hi as int, char_class(quotes));
        lemma_drop_trailing(chars@, a as int, b as int, hi as int, char_class(quotes));
    }
    (a, b)
}

/// Reads the settings of a configuration text: one `key=value` per line,
/// with blank lines and lines that start with `#` ignored. Keys and values
/// are trimmed, values also lose surrounding double quotes, and a later key
/// replaces an earlier one. A line without `=` is an error that holds the
/// trimmed line.
pub fn parse_config(contents: &str) -> (res: Result<Config, ParserError>)
    ensures
        match parsed_config(contents@) {
            Ok(m) => res matches Ok(c) && c@ == m,
            Err(line) => res matches Err(ParserError::MalformedLine(l)) && l@ == line,
        },
{
    let chars = chars_of(contents);
    let n = chars.len();
    let mut config = Config::new();
    let mut i: usize = 0;
    assert(chars@.skip(0) =~= chars@);
    while i < n
        invariant
            chars@ == contents@,
            n == chars@.len(),
            i <= n,
            parsed_config(contents@) == read_lines(config_lines(chars@.skip(i as int)), config@),
        decreases n - i,
    {
        let mut e = i;
        while e < n && chars[e] != '\n'
            invariant
                i <= e <= n,
                n == chars@.len(),
                forall|j: int| i <= j < e ==> chars@[j] != '\n',
            decreases n - e,
        {
            e = e + 1;
        }
        let next: usize = if e < n {
            e + 1
        } else {
            e
        };
        let ghost rest = config_lines(chars@.skip(next as int));
        let ghost line = chars@.subrange(i as int, e as int);
        proof {
            lemma_lines_step(chars@, i as int, e as int);
            assert((seq![line] + rest).drop_first() =~= rest);
            assert((seq![line] + rest)[0] == line);
        }
        let (a, b) = strip_bounds(&chars, i, e, false);
        let ghost t = chars@.subrange(a as int, b as int);
        assert(trim(line) == t);
        if a < b && chars[a] != '#' {
            let mut k = a;
            while k < b && chars[k] != '='
                invariant
                    a <= k <= b,
                    b <= n,
                    n == chars@.len(),
                    forall|j: int| a <= j < k ==> chars@[j] != '=',
                decreases b - k,
            {
                k = k + 1;
            }
            proof {
                lemma_index_of(t, '=');
            }
            if k == b {
                proof {
                    match index_of(t, '=') {
                        Some(x) => {
                            assert(t[x] == chars@[a + x]);
                            assert(false);
                        },
                        None => {},
                    }
                }
                let shown = owned(contents.substring_char(a, b));
                return Err(ParserError::MalformedLine(shown));
            }
            proof {
                assert(t[k - a] == '=');
                match index_of(t, '=') {
                    Some(x) => {
                        if x < k - a {
                            assert(t[x] == chars@[a + x]);
                        }
                        assert(x == k - a);
                    },
                    None => {
                        assert(false);
                    },
                }
                assert(t.take(k - a) =~= chars@.subrange(a as int, k as int));
                assert(t.skip(k - a + 1) =~= chars@.subrange(k + 1, b as int));
            }
            let (ka, kb) = strip_bounds(&chars, a, k, false);
            let (va, vb) = strip_bounds(&chars, k + 1, b, false);
            let (qa, qb) = strip_bounds(&chars, va, vb, true);
            let key = owned(contents.substring_char(ka, kb));
            let value = owned(contents.substring_char(qa, qb));
            config.insert(key, value);
        }
        i = next;
    }
    proof {
        assert(chars@.skip(n as int).len() == 0);
        assert(config_lines(chars@.skip(n as int)) == Seq::<Seq<char>>::empty());
    }
    Ok(config)
}

} // verus!

verus! {

// ---------------------------------------------------------------------
// Laws of the configuration format
// ---------------------------------------------------------------------

proof fn lemma_lines_of_line_then_text(c: Seq<char>, text: Seq<char>)
    requires
        forall|j: int| 0 <= j < c.len() ==> c[j] != '\n',
    ensures
        config_lines(c + seq!['\n'] + text) == seq![c] + config_lines(text),
{
    let s = c + seq!['\n'] + text;
    lemma_index_of(s, '\n');
    assert(s[c.len() as int] == '\n');
    match index_of(s, '\n') {
        Some(k) => {
            if k < c.len() {
                assert(s[k] == c[k]);
            }
            assert(k == c.len());
        },
        None => {
            assert(false);
        },
    }
    assert(s.take(c.len() as int) =~= c);
    assert(s.skip(c.len() + 1int) =~= text);
}

/// A blank or comment line changes nothing in what the rest of the file
/// says.
pub proof fn law_ignored_line_changes_nothing(c: Seq<char>, text: Seq<char>)
    requires
        forall|j: int| 0 <= j < c.len() ==> c[j] != '\n',
        classify_line(c) is Ignored,
    ensures
        parsed_config(c + seq!['\n'] + text) == parsed_config(text),
{
    lemma_lines_of_line_then_text(c, text);
    assert((seq![c] + config_lines(text)).drop_first() =~= config_lines(text));
}

/// Of two settings of one key, the later one holds.
pub proof fn law_later_setting_wins(l1: Seq<char>, l2: Seq<char>, k: Seq<char>, v1: Seq<char>, v2: Seq<char>)
    requires
        forall|j: int| 0 <= j < l1.len() ==> l1[j] != '\n',
        forall|j: int| 0 <= j < l2.len() ==> l2[j] != '\n',
        classify_line(l1) == ConfigLine::Entry(k, v1),
        classify_line(l2) == ConfigLine::Entry(k, v2),
    ensures
        parsed_config(l1 + seq!['\n'] + l2) == Ok::<Map<Seq<char>, Seq<char>>, Seq<char>>(
            map![k => v2],
        ),
{
    lemma_lines_of_line_then_text(l1, l2);
    let rest = config_lines(l2);
    assert((seq![l1] + rest).drop_first() =~= rest);
    // the second line is the whole of the rest
    assert(l2.len() > 0);
    lemma_index_of(l2, '\n');
    assert(index_of(l2, '\n') is None);
    assert(rest == seq![l2]);
    assert(seq![l2].drop_first() =~= Seq::<Seq<char>>::empty());
    let m1 = Map::<Seq<char>, Seq<char>>::empty().insert(k, v1);
    assert(read_lines(Seq::<Seq<char>>::empty(), m1.insert(k, v2)) == Ok::<Map<Seq<char>, Seq<char>>, Seq<char>>(m1.insert(k, v2)));
    assert(read_lines(seq![l2], m1) == read_lines(Seq::<Seq<char>>::empty(), m1.insert(k, v2)));
    assert(read_lines(seq![l1] + rest, Map::empty()) == read_lines(rest, m1));
    assert(m1.insert(k, v2) =~= map![k => v2]);
}

} // verus!
