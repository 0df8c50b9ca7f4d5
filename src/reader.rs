//! Line-oriented reading of a document: comments, section headers whose
//! nesting depth follows from name prefixes, and `key = value` entries.
use vstd::prelude::*;
use vstd::string::StringExecFns;
use crate::ordinal::{decimal, decimal_string};
use crate::model::{
    Document, Entry, EntryView, Instance, Level, LevelView, keys_unique, lemma_upsert_keeps_unique,
    upsert,
};
use crate::text::{
    contains_char, count_char, count_occurrences, find_char, first_from, is_proper_prefix,
    starts_with_longer, trim, trim_str,
};

verus! {

/// Marker that ends the name of an optional key.
pub const OPTIONAL_MARK: char = '*';

/// What a line of the file means.
pub enum LineKind {
    Skip,
    Header(Seq<char>),
    Pair(Seq<char>, Seq<char>, bool),
}

/// The name inside a header line `t` (already trimmed, starting with `[`).
pub open spec fn header_name(t: Seq<char>) -> Seq<char> {
    if t.len() >= 2 {
        trim(t.subrange(1, t.len() - 1))
    } else {
        Seq::empty()
    }
}

/// Key and value of a line `t` holding `=`: the trimmed text before the first
/// `=`, and the trimmed text between it and the next `=` (or the end).
pub open spec fn pair_of(t: Seq<char>) -> LineKind {
    let p = first_from(t, '=', 0);
    let q = first_from(t, '=', p + 1);
    let k = trim(t.subrange(0, p));
    let v = trim(t.subrange(p + 1, q));
    if k.len() > 0 && k.last() == OPTIONAL_MARK {
        LineKind::Pair(k.drop_last(), v, true)
    } else {
        LineKind::Pair(k, v, false)
    }
}

/// Classification of a raw line: any line holding `#` is a comment as a whole.
pub open spec fn classify(raw: Seq<char>) -> LineKind {
    if raw.contains('#') {
        LineKind::Skip
    } else {
        let t = trim(raw);
        if t.len() > 0 && t[0] == '[' {
            LineKind::Header(header_name(t))
        } else if t.contains('=') {
            pair_of(t)
        } else {
            LineKind::Skip
        }
    }
}

/// Why a file could not be read into a document.
#[derive(PartialEq, Eq, Structural, Clone, Copy, Debug)]
pub enum ReadFault {
    /// A `key = value` line before any section header.
    OrphanEntry,
    /// A section header that would take the depth below the top level.
    DepthUnderflow,
}

/// A fatal fault, with the 1-based line where it was met.
#[derive(PartialEq, Eq, Structural, Clone, Copy, Debug)]
pub struct ReadError {
    pub line: usize,
    pub kind: ReadFault,
}

/// A section whose dot count disagrees with the depth given by its place:
/// the name implies depth `dots + 1`, and `depth` was used.
pub struct DepthWarning {
    pub line: usize,
    pub section: String,
    pub depth: usize,
    pub dots: usize,
}

pub struct WarningView {
    pub line: nat,
    pub section: Seq<char>,
    pub depth: nat,
    pub dots: nat,
}

impl View for DepthWarning {
    type V = WarningView;

    open spec fn view(&self) -> WarningView {
        WarningView {
            line: self.line as nat,
            section: self.section@,
            depth: self.depth as nat,
            dots: self.dots as nat,
        }
    }
}

impl DepthWarning {
    /// How the warning reads.
    pub fn message(&self) -> (r: String)
        requires
            self.dots < usize::MAX,
        ensures
            r@ == "Section '"@ + self.section@ + "' at line "@ + decimal(self.line as nat) + " is at level "@
                + decimal(self.depth as nat) + " but its name implies level "@ + decimal((self.dots + 1) as nat),
    {
        let mut s = String::from_str("Section '");
        s.append(self.section.as_str());
        s.append("' at line ");
        s.append(decimal_string(self.line).as_str());
        s.append(" is at level ");
        s.append(decimal_string(self.depth).as_str());
        s.append(" but its name implies level ");
        s.append(decimal_string(self.dots + 1).as_str());
        s
    }
}

impl ReadError {
    /// How the fault reads.
    pub fn message(&self) -> (r: String)
        ensures
            r@ == "Line "@ + decimal(self.line as nat) + match self.kind {
                ReadFault::OrphanEntry => ": a key/value pair comes before any section"@,
                ReadFault::DepthUnderflow => ": a section header leaves the top level"@,
            },
    {
        let mut s = String::from_str("Line ");
        s.append(decimal_string(self.line).as_str());
        match self.kind {
            ReadFault::OrphanEntry => s.append(": a key/value pair comes before any section"),
            ReadFault::DepthUnderflow => s.append(": a section header leaves the top level"),
        }
        s
    }
}

/// The reader's state between two lines.
pub struct ReadState {
    pub levels: Seq<LevelView>,
    pub depth: int,
    pub last: Seq<char>,
    pub warnings: Seq<WarningView>,
}

pub open spec fn initial_state() -> ReadState {
    ReadState { levels: Seq::empty(), depth: 0, last: Seq::empty(), warnings: Seq::empty() }
}

/// Depth of a header named `name` that follows the header `last` at `depth`:
/// one deeper below a strict prefix, one shallower on any other new name.
pub open spec fn next_depth(depth: int, last: Seq<char>, name: Seq<char>) -> int {
    if is_proper_prefix(last, name) {
        depth + 1
    } else if name != last {
        depth - 1
    } else {
        depth
    }
}

/// Levels after a header at depth `d`: the level is created if new, and a
/// fresh empty instance is appended to it.
pub open spec fn open_at(levels: Seq<LevelView>, d: int, name: Seq<char>) -> Seq<LevelView> {
    let ls = if levels.len() < d {
        levels.push(LevelView { name: name, instances: Seq::empty() })
    } else {
        levels
    };
    ls.update(d - 1, LevelView { name: ls[d - 1].name, instances: ls[d - 1].instances.push(Seq::empty()) })
}

/// Levels after storing `e` in the newest instance of depth `d`.
pub open spec fn store_at(levels: Seq<LevelView>, d: int, e: EntryView) -> Seq<LevelView> {
    let l = levels[d - 1];
    let n = l.instances.len() - 1;
    levels.update(d - 1, LevelView { name: l.name, instances: l.instances.update(n, upsert(l.instances[n], e)) })
}

/// The effect of line number `line` with text `raw`.
pub open spec fn step(st: ReadState, raw: Seq<char>, line: usize) -> Result<ReadState, ReadError> {
    match classify(raw) {
        LineKind::Skip => Ok(st),
        LineKind::Header(name) => {
            let d = next_depth(st.depth, st.last, name);
            if d < 1 {
                Err(ReadError { line, kind: ReadFault::DepthUnderflow })
            } else {
                let dots = count_char(name, '.');
                let w = if dots + 1 != d {
                    st.warnings.push(WarningView { line: line as nat, section: name, depth: d as nat, dots })
                } else {
                    st.warnings
                };
                Ok(ReadState { levels: open_at(st.levels, d, name), depth: d, last: name, warnings: w })
            }
        },
        LineKind::Pair(k, v, opt) => {
            if st.depth < 1 {
                Err(ReadError { line, kind: ReadFault::OrphanEntry })
            } else {
                let e = EntryView { key: k, value: v, line: line as nat, optional: opt };
                Ok(ReadState { levels: store_at(st.levels, st.depth, e), ..st })
            }
        },
    }
}

/// Reading lines `i..` from state `st`; the first fault ends the reading.
pub open spec fn run(st: ReadState, lines: Seq<Seq<char>>, i: int) -> Result<ReadState, ReadError>
    decreases lines.len() - i,
{
    if i < 0 || i >= lines.len() {
        Ok(st)
    } else {
        match step(st, lines[i], (i + 1) as usize) {
            Err(e) => Err(e),
            Ok(next) => run(next, lines, i + 1),
        }
    }
}

pub open spec fn texts(lines: Seq<String>) -> Seq<Seq<char>> {
    lines.map_values(|s: String| s@)
}

/// The result of reading a whole file given as its lines.
pub open spec fn read_spec(lines: Seq<String>) -> Result<ReadState, ReadError> {
    run(initial_state(), texts(lines), 0)
}

/// A line as classified, in executable form.
pub enum Line {
    Skip,
    Header(String),
    Pair(String, String, bool),
}

impl View for Line {
    type V = LineKind;

    open spec fn view(&self) -> LineKind {
        match self {
            Line::Skip => LineKind::Skip,
            Line::Header(n) => LineKind::Header(n@),
            Line::Pair(k, v, o) => LineKind::Pair(k@, v@, *o),
        }
    }
}

/// Splits a trimmed line holding `=` into key, value and optional marker.
fn split_pair(t: &str) -> (r: Line)
    requires
        t@.contains('='),
    ensures
        r@ == pair_of(t@),
{
    let p = find_char(t, '=', 0);
    let n = t.unicode_len();
    proof {
        if p >= n {
            let j = choose|j: int| 0 <= j < t@.len() && t@[j] == '=';
            assert(t@[j] != '=');
        }
    }
    let q = find_char(t, '=', p + 1);
    let k = trim_str(t.substring_char(0, p));
    let v = trim_str(t.substring_char(p + 1, q));
    let kn = k.unicode_len();
    if kn > 0 && k.get_char(kn - 1) == OPTIONAL_MARK {
        Line::Pair(k.substring_char(0, kn - 1).to_owned(), v.to_owned(), true)
    } else {
        Line::Pair(k.to_owned(), v.to_owned(), false)
    }
}

/// Classifies one raw line of the file.
pub fn classify_line(raw: &str) -> (r: Line)
    ensures
        r@ == classify(raw@),
{
    if contains_char(raw, '#') {
        return Line::Skip;
    }
    let t = trim_str(raw);
    let n = t.unicode_len();
    if n > 0 && t.get_char(0) == '[' {
        if n >= 2 {
            Line::Header(trim_str(t.substring_char(1, n - 1)).to_owned())
        } else {
            let e = String::new();
            assert(e@ =~= header_name(t@));
            Line::Header(e)
        }
    } else if contains_char(t, '=') {
        split_pair(t)
    } else {
        Line::Skip
    }
}


/// Well-formed reader state: the depth names an existing level (or none yet),
/// and every level holds at least one instance.
pub open spec fn state_wf(st: ReadState) -> bool {
    &&& 0 <= st.depth <= st.levels.len()
    &&& forall|d: int| 0 <= d < st.levels.len() ==> #[trigger] st.levels[d].instances.len() >= 1
}

/// Every instance of every level has unique keys.
pub open spec fn levels_unique(levels: Seq<LevelView>) -> bool {
    forall|d: int, m: int|
        0 <= d < levels.len() && 0 <= m < levels[d].instances.len() ==> keys_unique(
            #[trigger] levels[d].instances[m],
        )
}

/// Creates the level at depth `d` if new, and opens a fresh instance in it.
fn open_level(doc: &mut Document, d: usize, name: &String)
    requires
        1 <= d <= old(doc)@.len() + 1,
    ensures
        final(doc)@ == open_at(old(doc)@, d as int, name@),
{
    if doc.levels.len() < d {
        let fresh = Level { name: name.clone(), instances: Vec::new() };
        assert(fresh@.instances =~= Seq::<Seq<EntryView>>::empty());
        doc.levels.push(fresh);
        assert(doc@ =~= old(doc)@.push(LevelView { name: name@, instances: Seq::empty() }));
    }
    let ghost mid = doc@;
    let mut lv = Level { name: String::new(), instances: Vec::new() };
    doc.levels.set_and_swap(d - 1, &mut lv);
    lv.instances.push(Instance::new());
    assert(lv@.instances =~= mid[d - 1].instances.push(Seq::empty()));
    doc.levels.set(d - 1, lv);
    assert(doc@ =~= open_at(old(doc)@, d as int, name@));
}

/// Stores `e` in the newest instance of depth `d`.
fn store_entry(doc: &mut Document, d: usize, e: Entry)
    requires
        1 <= d <= old(doc)@.len(),
        old(doc)@[d - 1].instances.len() >= 1,
    ensures
        final(doc)@ == store_at(old(doc)@, d as int, e@),
{
    let mut lv = Level { name: String::new(), instances: Vec::new() };
    doc.levels.set_and_swap(d - 1, &mut lv);
    let mut inst = lv.instances.pop().unwrap();
    let ghost ev = e@;
    inst.insert(e);
    lv.instances.push(inst);
    let ghost n = old(doc)@[d - 1].instances.len() - 1;
    assert(lv@.instances =~= old(doc)@[d - 1].instances.update(n, upsert(old(doc)@[d - 1].instances[n], ev)));
    doc.levels.set(d - 1, lv);
    assert(doc@ =~= store_at(old(doc)@, d as int, ev));
}

/// Reads a document from the lines of a file.  Sections nest by name prefix,
/// one level per header; headers whose dot count disagrees with that depth
/// are reported as warnings.
pub fn read_ini(lines: &Vec<String>) -> (r: Result<(Document, Vec<DepthWarning>), ReadError>)
    ensures
        match r {
            Ok((doc, warnings)) => read_spec(lines@) matches Ok(st) && st.levels == doc@
                && st.warnings == warnings@.map_values(|w: DepthWarning| w@) && levels_unique(doc@),
            Err(e) => read_spec(lines@) == Err::<ReadState, ReadError>(e),
        },
{
    let ghost ls = texts(lines@);
    let mut doc = Document { levels: Vec::new() };
    let mut warnings: Vec<DepthWarning> = Vec::new();
    let mut depth: usize = 0;
    let mut last = String::new();
    let n = lines.len();
    let mut i: usize = 0;
    assert(doc@ =~= Seq::<LevelView>::empty());
    assert(warnings@.map_values(|w: DepthWarning| w@) =~= Seq::<WarningView>::empty());
    assert(last@ =~= Seq::<char>::empty());
    while i < n
        invariant
            n == lines@.len(),
            ls == texts(lines@),
            i <= n,
            doc@.len() <= i,
            levels_unique(doc@),
            state_wf(ReadState { levels: doc@, depth: depth as int, last: last@, warnings: Seq::empty() }),
            read_spec(lines@) == run(
                ReadState {
                    levels: doc@,
                    depth: depth as int,
                    last: last@,
                    warnings: warnings@.map_values(|w: DepthWarning| w@),
                },
                ls,
                i as int,
            ),
        decreases n - i,
    {
        let ghost st = ReadState {
            levels: doc@,
            depth: depth as int,
            last: last@,
            warnings: warnings@.map_values(|w: DepthWarning| w@),
        };
        let line_no = i + 1;
        let kind = classify_line(lines[i].as_str());
        assert(ls[i as int] == lines@[i as int]@);
        match kind {
            Line::Skip => {},
            Line::Header(name) => {
                let d: usize;
                if starts_with_longer(name.as_str(), last.as_str()) {
                    d = depth + 1;
                } else if name != last {
                    if depth == 0 {
                        return Err(ReadError { line: line_no, kind: ReadFault::DepthUnderflow });
                    }
                    d = depth - 1;
                } else {
                    d = depth;
                }
                if d == 0 {
                    return Err(ReadError { line: line_no, kind: ReadFault::DepthUnderflow });
                }
                let dots = count_occurrences(name.as_str(), '.');
                if dots != d - 1 {
                    warnings.push(DepthWarning { line: line_no, section: name.clone(), depth: d, dots });
                    assert(warnings@.map_values(|w: DepthWarning| w@) =~= st.warnings.push(
                        WarningView { line: line_no as nat, section: name@, depth: d as nat, dots: dots as nat },
                    ));
                }
                open_level(&mut doc, d, &name);
                depth = d;
                last = name;
                assert forall|a: int, m: int|
                    0 <= a < doc@.len() && 0 <= m < doc@[a].instances.len() implies keys_unique(
                        #[trigger] doc@[a].instances[m],
                    ) by {
                    if a == d - 1 && m == doc@[a].instances.len() - 1 {
                        assert(doc@[a].instances[m] == Seq::<EntryView>::empty());
                    } else {
                        assert(doc@[a].instances[m] == st.levels[a].instances[m]);
                    }
                }
                assert forall|k: int| 0 <= k < doc@.len() implies #[trigger] doc@[k].instances.len() >= 1 by {
                    if k != d - 1 {
                        assert(doc@[k] == st.levels[k]);
                    }
                }
            },
            Line::Pair(k, v, opt) => {
                if depth == 0 {
                    return Err(ReadError { line: line_no, kind: ReadFault::OrphanEntry });
                }
                let e = Entry { key: k, value: v, line: line_no, optional: opt };
                assert(st.levels[depth - 1].instances.len() >= 1);
                let ghost ev = e@;
                store_entry(&mut doc, depth, e);
                assert forall|a: int, m: int|
                    0 <= a < doc@.len() && 0 <= m < doc@[a].instances.len() implies keys_unique(
                        #[trigger] doc@[a].instances[m],
                    ) by {
                    let last_m = st.levels[depth - 1].instances.len() - 1;
                    if a == depth - 1 && m == last_m {
                        lemma_upsert_keeps_unique(st.levels[a].instances[m], ev);
                    } else {
                        assert(doc@[a].instances[m] == st.levels[a].instances[m]);
                    }
                }
                assert forall|j: int| 0 <= j < doc@.len() implies #[trigger] doc@[j].instances.len() >= 1 by {
                    if j != depth - 1 {
                        assert(doc@[j] == st.levels[j]);
                    }
                }
            },
        }
        i = i + 1;
    }
    Ok((doc, warnings))
}

} // verus!
