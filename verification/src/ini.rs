//! The small INI reader used for a browser's `profiles.ini`: sections of `key=value`
//! fields, with `;` and `#` comment lines.
use vstd::prelude::*;
use crate::text::{chars_of, str_eq, string_from_range, trim, trim_bounds};

verus! {

/// The fields of one section, keyed by name; a later field replaces an earlier one of
/// the same name.
pub struct IniFields {
    entries: Vec<(String, String)>,
}

spec fn fkey(e: (String, String)) -> Seq<char> {
    e.0@
}

spec fn fields_distinct(s: Seq<(String, String)>) -> bool {
    forall|i: int, j: int|
        0 <= i < s.len() && 0 <= j < s.len() && i != j ==> fkey(#[trigger] s[i]) != fkey(
            #[trigger] s[j],
        )
}

spec fn fkey_at(s: Seq<(String, String)>, k: Seq<char>, i: int) -> bool {
    0 <= i < s.len() && fkey(s[i]) == k
}

spec fn fields_map(s: Seq<(String, String)>) -> Map<Seq<char>, Seq<char>> {
    Map::new(
        |k: Seq<char>| exists|i: int| fkey_at(s, k, i),
        |k: Seq<char>| s[choose|i: int| fkey_at(s, k, i)].1@,
    )
}

proof fn lemma_fields_index(s: Seq<(String, String)>, i: int)
    requires
        fields_distinct(s),
        0 <= i < s.len(),
    ensures
        fields_map(s).contains_key(fkey(s[i])),
        fields_map(s)[fkey(s[i])] == s[i].1@,
{
    let k = fkey(s[i]);
    assert(fkey_at(s, k, i));
    let c = choose|c: int| fkey_at(s, k, c);
    assert(c == i) by {
        if c != i {
            assert(fkey(s[c]) != fkey(s[i]));
        }
    }
}

proof fn lemma_fields_update(s: Seq<(String, String)>, i: int, e: (String, String))
    requires
        fields_distinct(s),
        0 <= i < s.len(),
        fkey(e) == fkey(s[i]),
    ensures
        fields_distinct(s.update(i, e)),
        fields_map(s.update(i, e)) =~= fields_map(s).insert(fkey(e), e.1@),
{
    let t = s.update(i, e);
    assert forall|a: int, b: int|
        0 <= a < t.len() && 0 <= b < t.len() && a != b implies fkey(#[trigger] t[a]) != fkey(
        #[trigger] t[b],
    ) by {
        assert(fkey(t[a]) == fkey(s[a]));
        assert(fkey(t[b]) == fkey(s[b]));
    }
    let m = fields_map(s).insert(fkey(e), e.1@);
    assert forall|k: Seq<char>| #[trigger] fields_map(t).contains_key(k) == m.contains_key(k) by {
        if fields_map(t).contains_key(k) {
            let j = choose|j: int| fkey_at(t, k, j);
            if j != i {
                assert(fkey_at(s, k, j));
            }
        }
        if fields_map(s).contains_key(k) {
            let j = choose|j: int| fkey_at(s, k, j);
            if j != i {
                assert(fkey_at(t, k, j));
            } else {
                assert(fkey_at(t, k, i));
            }
        }
        if k == fkey(e) {
            assert(fkey_at(t, k, i));
        }
    }
    assert forall|k: Seq<char>| #[trigger] fields_map(t).contains_key(k) implies fields_map(t)[k]
        == m[k] by {
        let j = choose|j: int| fkey_at(t, k, j);
        lemma_fields_index(t, j);
        if j != i {
            lemma_fields_index(s, j);
            assert(t[j] == s[j]);
            assert(fkey(s[j]) != fkey(s[i]));
        }
    }
}

proof fn lemma_fields_push(s: Seq<(String, String)>, e: (String, String))
    requires
        fields_distinct(s),
        forall|i: int| 0 <= i < s.len() ==> fkey(#[trigger] s[i]) != fkey(e),
    ensures
        fields_distinct(s.push(e)),
        fields_map(s.push(e)) =~= fields_map(s).insert(fkey(e), e.1@),
{
    let t = s.push(e);
    let n = s.len() as int;
    assert forall|a: int, b: int|
        0 <= a < t.len() && 0 <= b < t.len() && a != b implies fkey(#[trigger] t[a]) != fkey(
        #[trigger] t[b],
    ) by {
        if a < n && b < n {
            assert(t[a] == s[a] && t[b] == s[b]);
        } else if a < n {
            assert(t[a] == s[a]);
        } else {
            assert(t[b] == s[b]);
        }
    }
    let m = fields_map(s).insert(fkey(e), e.1@);
    assert forall|k: Seq<char>| #[trigger] fields_map(t).contains_key(k) == m.contains_key(k) by {
        if fields_map(t).contains_key(k) {
            let j = choose|j: int| fkey_at(t, k, j);
            if j < n {
                assert(fkey_at(s, k, j));
            }
        }
        if fields_map(s).contains_key(k) {
            let j = choose|j: int| fkey_at(s, k, j);
            assert(fkey_at(t, k, j));
        }
        if k == fkey(e) {
            assert(fkey_at(t, k, n));
        }
    }
    assert forall|k: Seq<char>| #[trigger] fields_map(t).contains_key(k) implies fields_map(t)[k]
        == m[k] by {
        let j = choose|j: int| fkey_at(t, k, j);
        lemma_fields_index(t, j);
        if j < n {
            lemma_fields_index(s, j);
            assert(t[j] == s[j]);
        }
    }
}

impl View for IniFields {
    type V = Map<Seq<char>, Seq<char>>;

    closed spec fn view(&self) -> Map<Seq<char>, Seq<char>> {
        fields_map(self.entries@)
    }
}

impl IniFields {
    /// The internal invariant: one entry per key.
    pub closed spec fn wf(&self) -> bool {
        fields_distinct(self.entries@)
    }

    /// No fields.
    pub fn new() -> (f: Self)
        ensures
            f.wf(),
            f@ == Map::<Seq<char>, Seq<char>>::empty(),
    {
        let f = IniFields { entries: Vec::new() };
        assert(f@ =~= Map::<Seq<char>, Seq<char>>::empty());
        f
    }

    fn find(&self, key: &str) -> (r: Option<usize>)
        requires
            self.wf(),
        ensures
            match r {
                Some(i) => i < self.entries@.len() && fkey(self.entries@[i as int]) == key@
                    && self@.contains_key(key@) && self@[key@] == self.entries@[i as int].1@,
                None => !self@.contains_key(key@) && forall|j: int|
                    0 <= j < self.entries@.len() ==> fkey(#[trigger] self.entries@[j]) != key@,
            },
    {
        let mut i: usize = 0;
        while i < self.entries.len()
            invariant
                i <= self.entries@.len(),
                self.wf(),
                forall|j: int| 0 <= j < i ==> fkey(#[trigger] self.entries@[j]) != key@,
            decreases self.entries@.len() - i,
        {
            if str_eq(self.entries[i].0.as_str(), key) {
                proof {
                    lemma_fields_index(self.entries@, i as int);
                }
                return Some(i);
            }
            i += 1;
        }
        proof {
            if self@.contains_key(key@) {
                let j = choose|j: int| fkey_at(self.entries@, key@, j);
                assert(fkey(self.entries@[j]) != key@);
            }
        }
        None
    }

    /// The value of the field named `key`.
    pub fn get(&self, key: &str) -> (v: Option<&String>)
        requires
            self.wf(),
        ensures
            match v {
                Some(v) => self@.contains_key(key@) && self@[key@] == v@,
                None => !self@.contains_key(key@),
            },
    {
        match self.find(key) {
            Some(i) => Some(&self.entries[i].1),
            None => None,
        }
    }

    /// Sets the field named `key`, replacing any earlier value.
    pub fn insert(&mut self, key: String, value: String)
        requires
            old(self).wf(),
        ensures
            final(self).wf(),
            final(self)@ == old(self)@.insert(key@, value@),
    {
        let ghost s = self.entries@;
        let ghost kv = key@;
        let ghost vv = value@;
        match self.find(key.as_str()) {
            Some(i) => {
                let mut entries = Vec::new();
                std::mem::swap(&mut entries, &mut self.entries);
                entries.set(i, (key, value));
                proof {
                    lemma_fields_update(s, i as int, entries@[i as int]);
                    assert(entries@ == s.update(i as int, entries@[i as int]));
                }
                self.entries = entries;
            },
            None => {
                self.entries.push((key, value));
                proof {
                    lemma_fields_push(s, self.entries@.last());
                    assert(self.entries@ == s.push(self.entries@.last()));
                }
            },
        }
    }
}

/// The first position of `c` in `s`, if it occurs.
pub open spec fn first_index_of(s: Seq<char>, c: char) -> Option<int> {
    if s.contains(c) {
        Some(choose|i: int| 0 <= i < s.len() && s[i] == c && forall|j: int| 0 <= j < i ==> s[j] != c)
    } else {
        None
    }
}

/// What the reader has built after some lines: the finished sections, the open one,
/// and the fields gathered since the last section header.
pub struct IniScan {
    pub sections: Seq<(Seq<char>, Map<Seq<char>, Seq<char>>)>,
    pub current: Option<Seq<char>>,
    pub fields: Map<Seq<char>, Seq<char>>,
}

/// The reader's step on one line. The line is trimmed; blank and comment lines are
/// skipped; `[name]` closes the open section and opens `name` (fields read before any
/// header are kept for the first section); `key=value` sets a field, both sides trimmed,
/// split at the first `=`; any other line is ignored.
pub open spec fn ini_line(st: IniScan, line: Seq<char>) -> IniScan {
    let t = trim(line);
    if t.len() == 0 || t[0] == ';' || t[0] == '#' {
        st
    } else if t[0] == '[' && t.last() == ']' {
        IniScan {
            sections: match st.current {
                Some(c) => st.sections.push((c, st.fields)),
                None => st.sections,
            },
            current: Some(t.subrange(1, t.len() - 1)),
            fields: if st.current is Some {
                Map::empty()
            } else {
                st.fields
            },
        }
    } else {
        match first_index_of(t, '=') {
            Some(i) => IniScan {
                fields: st.fields.insert(trim(t.subrange(0, i)), trim(t.subrange(i + 1, t.len() as int))),
                ..st
            },
            None => st,
        }
    }
}

/// The empty reader state.
pub open spec fn ini_start() -> IniScan {
    IniScan { sections: Seq::empty(), current: None, fields: Map::empty() }
}

/// The reader state after the complete lines of `s`, with the unfinished last line.
/// Lines end at `\n`; a `\r` before it is white space and trimmed away.
pub open spec fn ini_scan(s: Seq<char>) -> (IniScan, Seq<char>)
    decreases s.len(),
{
    if s.len() == 0 {
        (ini_start(), Seq::empty())
    } else {
        let (st, line) = ini_scan(s.drop_last());
        if s.last() == '\n' {
            (ini_line(st, line), Seq::empty())
        } else {
            (st, line.push(s.last()))
        }
    }
}

/// The sections of an INI text, in order, each with its fields.
pub open spec fn ini_sections(s: Seq<char>) -> Seq<(Seq<char>, Map<Seq<char>, Seq<char>>)> {
    let (st, line) = ini_scan(s);
    let last = ini_line(st, line);
    match last.current {
        Some(c) => last.sections.push((c, last.fields)),
        None => last.sections,
    }
}

/// The views of parsed sections.
pub open spec fn sections_view(v: Seq<(String, IniFields)>) -> Seq<(Seq<char>, Map<Seq<char>, Seq<char>>)> {
    v.map_values(|e: (String, IniFields)| (e.0@, e.1@))
}

/// Every parsed section's fields are well formed.
pub open spec fn sections_wf(v: Seq<(String, IniFields)>) -> bool {
    forall|i: int| 0 <= i < v.len() ==> (#[trigger] v[i]).1.wf()
}

struct IniReader {
    sections: Vec<(String, IniFields)>,
    current: Option<String>,
    fields: IniFields,
}

impl IniReader {
    spec fn scan(&self) -> IniScan {
        IniScan {
            sections: sections_view(self.sections@),
            current: match self.current {
                Some(c) => Some(c@),
                None => None,
            },
            fields: self.fields@,
        }
    }

    spec fn inv(&self) -> bool {
        sections_wf(self.sections@) && self.fields.wf()
    }

    fn line(&mut self, v: &Vec<char>)
        requires
            old(self).inv(),
        ensures
            final(self).inv(),
            final(self).scan() == ini_line(old(self).scan(), v@),
    {
        let (a, b) = trim_bounds(v);
        if a == b || v[a] == ';' || v[a] == '#' {
            return;
        }
        if v[a] == '[' && v[b - 1] == ']' {
            let name = string_from_range(v, a + 1, b - 1);
            proof {
                assert(v@.subrange(a + 1, b - 1) =~= v@.subrange(a as int, b as int).subrange(1, (b - a) - 1));
            }
            let ghost pre = self.scan();
            let ghost pre_sections = self.sections@;
            match self.current.take() {
                Some(section) => {
                    let mut fields = IniFields::new();
                    std::mem::swap(&mut fields, &mut self.fields);
                    self.sections.push((section, fields));
                    proof {
                        assert(sections_view(self.sections@) =~= pre.sections.push(
                            (pre.current->0, pre.fields),
                        ));
                    }
                },
                None => {},
            }
            self.current = Some(name);
            return;
        }
        let mut i = a;
        while i < b && v[i] != '='
            invariant
                a <= i <= b <= v@.len(),
                forall|j: int| a <= j < i ==> v@[j] != '=',
            decreases b - i,
        {
            i += 1;
        }
        let ghost t = v@.subrange(a as int, b as int);
        if i == b {
            proof {
                assert(!t.contains('=')) by {
                    if t.contains('=') {
                        let j = choose|j: int| 0 <= j < t.len() && t[j] == '=';
                        assert(v@[a + j] == '=');
                    }
                }
            }
            return;
        }
        proof {
            let k = (i - a) as int;
            assert(t[k] == '=');
            assert(t.contains('='));
            let c = choose|c: int| 0 <= c < t.len() && t[c] == '=' && forall|j: int|
                0 <= j < c ==> t[j] != '=';
            assert(0 <= k < t.len() && t[k] == '=' && forall|j: int| 0 <= j < k ==> t[j] != '=');
            assert(c == k) by {
                if c < k {
                    assert(t[c] == v@[a + c]);
                }
                if k < c {
                    assert(t[k] != '=');
                }
            }
        }
        let key_chars = slice_chars(v, a, i);
        let value_chars = slice_chars(v, i + 1, b);
        let (ka, kb) = trim_bounds(&key_chars);
        let (va, vb) = trim_bounds(&value_chars);
        let key = string_from_range(&key_chars, ka, kb);
        let value = string_from_range(&value_chars, va, vb);
        proof {
            let k = (i - a) as int;
            assert(key_chars@ =~= t.subrange(0, k));
            assert(value_chars@ =~= t.subrange(k + 1, t.len() as int));
        }
        self.fields.insert(key, value);
    }
}

fn slice_chars(v: &Vec<char>, from: usize, to: usize) -> (r: Vec<char>)
    requires
        from <= to <= v.len(),
    ensures
        r@ == v@.subrange(from as int, to as int),
{
    let mut r: Vec<char> = Vec::new();
    let mut i = from;
    while i < to
        invariant
            from <= i <= to <= v.len(),
            r@ == v@.subrange(from as int, i as int),
        decreases to - i,
    {
        r.push(v[i]);
        assert(v@.subrange(from as int, i + 1) =~= v@.subrange(from as int, i as int).push(v@[i as int]));
        i += 1;
    }
    r
}

/// Reads the sections of an INI text, in order, each with its fields.
pub fn parse_ini_sections(contents: &str) -> (r: Vec<(String, IniFields)>)
    ensures
        sections_wf(r@),
        sections_view(r@) == ini_sections(contents@),
{
    let v = chars_of(contents);
    let mut reader = IniReader { sections: Vec::new(), current: None, fields: IniFields::new() };
    let mut line: Vec<char> = Vec::new();
    let mut i: usize = 0;
    proof {
        assert(sections_view(reader.sections@) =~= Seq::empty());
        assert(v@.subrange(0, 0) =~= Seq::<char>::empty());
    }
    while i < v.len()
        invariant
            i <= v@.len(),
            v@ == contents@,
            reader.inv(),
            (reader.scan(), line@) == ini_scan(v@.subrange(0, i as int)),
        decreases v@.len() - i,
    {
        assert(v@.subrange(0, i + 1).drop_last() =~= v@.subrange(0, i as int));
        if v[i] == '\n' {
            reader.line(&line);
            line = Vec::new();
            assert(line@ =~= Seq::<char>::empty());
        } else {
            line.push(v[i]);
        }
        i += 1;
    }
    assert(v@.subrange(0, v@.len() as int) =~= v@);
    reader.line(&line);
    let ghost last = reader.scan();
    let IniReader { mut sections, current, fields } = reader;
    match current {
        Some(c) => {
            let ghost pre = sections@;
            sections.push((c, fields));
            assert(sections_view(sections@) =~= sections_view(pre).push((last.current->0, last.fields)));
        },
        None => {},
    }
    sections
}

} // verus!
