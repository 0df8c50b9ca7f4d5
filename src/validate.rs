//! Cross-checking an input document against a template, level by level.
use vstd::prelude::*;
use crate::model::{Document, EntryView, Instance, LevelView, keys_unique, lemma_key_pos, lookup};
use crate::types::{FaultView, TypeFault, check_type_given, fault_text, probe_disk, type_verdict};
use crate::ordinal::{card, decimal, decimal_string, ordinal_text};

verus! {

/// A fault found in an input document.  Instances are counted from 0.
pub enum Issue {
    /// A mandatory template key absent from an input instance.
    MissingKey { key: String, instance: usize, section: String, template_line: usize },
    /// An input value that does not conform to the template's type.
    TypeMismatch { key: String, value: String, line: usize, fault: TypeFault },
    /// An input key that the template does not declare.
    SpuriousKey { key: String, line: usize, instance: usize, section: String },
}

pub enum IssueView {
    MissingKey { key: Seq<char>, instance: nat, section: Seq<char>, template_line: nat },
    TypeMismatch { key: Seq<char>, value: Seq<char>, line: nat, fault: FaultView },
    SpuriousKey { key: Seq<char>, line: nat, instance: nat, section: Seq<char> },
}

impl View for Issue {
    type V = IssueView;

    open spec fn view(&self) -> IssueView {
        match self {
            Issue::MissingKey { key, instance, section, template_line } => IssueView::MissingKey {
                key: key@,
                instance: *instance as nat,
                section: section@,
                template_line: *template_line as nat,
            },
            Issue::TypeMismatch { key, value, line, fault } => IssueView::TypeMismatch {
                key: key@,
                value: value@,
                line: *line as nat,
                fault: fault@,
            },
            Issue::SpuriousKey { key, line, instance, section } => IssueView::SpuriousKey {
                key: key@,
                line: *line as nat,
                instance: *instance as nat,
                section: section@,
            },
        }
    }
}

/// How an issue reads.
pub open spec fn issue_text(i: IssueView) -> Seq<char> {
    match i {
        IssueView::MissingKey { key, instance, section, template_line } => "Missing key '"@ + key + "' in the "@
            + ordinal_text(instance + 1) + " section '"@ + section + "' (see line "@ + decimal(template_line)
            + " in the template)"@,
        IssueView::TypeMismatch { key, value, line, fault } => "Type error at line "@ + decimal(line) + ": "@
            + fault_text(value, fault),
        IssueView::SpuriousKey { key, line, instance, section } => "Spurious key '"@ + key + "' at line "@
            + decimal(line) + " in the "@ + ordinal_text(instance + 1) + " section named '"@ + section + "'"@,
    }
}

/// Every instance index and list position in the issue has an ordinal
/// within `usize`.
pub open spec fn issue_fits(i: IssueView) -> bool {
    match i {
        IssueView::MissingKey { instance, .. } => instance < usize::MAX,
        IssueView::TypeMismatch { fault, .. } => crate::types::fault_fits(fault),
        IssueView::SpuriousKey { instance, .. } => instance < usize::MAX,
    }
}

impl Issue {
    /// How this issue reads, citing line numbers and ordinals.
    pub fn message(&self) -> (r: String)
        requires
            issue_fits(self@),
        ensures
            r@ == issue_text(self@),
    {
        match self {
            Issue::MissingKey { key, instance, section, template_line } => {
                let mut s = String::from_str("Missing key '");
                s.append(key.as_str());
                s.append("' in the ");
                s.append(card(*instance + 1).as_str());
                s.append(" section '");
                s.append(section.as_str());
                s.append("' (see line ");
                s.append(decimal_string(*template_line).as_str());
                s.append(" in the template)");
                s
            },
            Issue::TypeMismatch { key, value, line, fault } => {
                let mut s = String::from_str("Type error at line ");
                s.append(decimal_string(*line).as_str());
                s.append(": ");
                s.append(fault.describe(value.as_str()).as_str());
                s
            },
            Issue::SpuriousKey { key, line, instance, section } => {
                let mut s = String::from_str("Spurious key '");
                s.append(key.as_str());
                s.append("' at line ");
                s.append(decimal_string(*line).as_str());
                s.append(" in the ");
                s.append(card(*instance + 1).as_str());
                s.append(" section named '");
                s.append(section.as_str());
                s.append("'");
                s
            },
        }
    }
}

pub open spec fn issues_view(s: Seq<Issue>) -> Seq<IssueView> {
    s.map_values(|i: Issue| i@)
}

pub open spec fn instances_view(s: Seq<Instance>) -> Seq<Seq<EntryView>> {
    s.map_values(|i: Instance| i@)
}

/// What the template entry `t` finds in input instance number `idx`; `found`
/// is the file system's answer for the value, where its type asks one.
pub open spec fn entry_issues(sec: Seq<char>, t: EntryView, inst: Seq<EntryView>, idx: nat, found: bool) -> Seq<IssueView> {
    match lookup(inst, t.key) {
        Some(e) => match type_verdict(e.value, t.value, found) {
            Ok(_) => Seq::empty(),
            Err(f) => seq![IssueView::TypeMismatch { key: t.key, value: e.value, line: e.line, fault: f }],
        },
        None => if t.optional {
            Seq::empty()
        } else {
            seq![IssueView::MissingKey { key: t.key, instance: idx, section: sec, template_line: t.line }]
        },
    }
}

/// Issues of the first `n` template entries against one input instance.
pub open spec fn instance_typed_issues(
    sec: Seq<char>,
    t: Seq<EntryView>,
    inst: Seq<EntryView>,
    idx: nat,
    found: Seq<bool>,
    n: int,
) -> Seq<IssueView>
    decreases n,
{
    if n <= 0 {
        Seq::empty()
    } else {
        instance_typed_issues(sec, t, inst, idx, found, n - 1) + entry_issues(sec, t[n - 1], inst, idx, found[n - 1])
    }
}

/// Missing and mistyped keys of the first `n` input instances against the
/// template schema `t`.
pub open spec fn typed_issues(
    sec: Seq<char>,
    t: Seq<EntryView>,
    insts: Seq<Seq<EntryView>>,
    found: Seq<Seq<bool>>,
    n: int,
) -> Seq<IssueView>
    decreases n,
{
    if n <= 0 {
        Seq::empty()
    } else {
        typed_issues(sec, t, insts, found, n - 1) + instance_typed_issues(
            sec,
            t,
            insts[n - 1],
            (n - 1) as nat,
            found[n - 1],
            t.len() as int,
        )
    }
}

/// Spurious keys among the first `n` entries of input instance number `idx`.
pub open spec fn instance_spurious(sec: Seq<char>, t: Seq<EntryView>, inst: Seq<EntryView>, idx: nat, n: int) -> Seq<IssueView>
    decreases n,
{
    if n <= 0 {
        Seq::empty()
    } else {
        let e = inst[n - 1];
        instance_spurious(sec, t, inst, idx, n - 1) + if lookup(t, e.key) is None {
            seq![IssueView::SpuriousKey { key: e.key, line: e.line, instance: idx, section: sec }]
        } else {
            Seq::empty()
        }
    }
}

/// Spurious keys of the first `n` input instances against the schema `t`.
pub open spec fn spurious_issues(sec: Seq<char>, t: Seq<EntryView>, insts: Seq<Seq<EntryView>>, n: int) -> Seq<IssueView>
    decreases n,
{
    if n <= 0 {
        Seq::empty()
    } else {
        spurious_issues(sec, t, insts, n - 1) + instance_spurious(sec, t, insts[n - 1], (n - 1) as nat, insts[n - 1].len() as int)
    }
}

proof fn lemma_instance_found_prefix(
    sec: Seq<char>,
    t: Seq<EntryView>,
    inst: Seq<EntryView>,
    idx: nat,
    f1: Seq<bool>,
    f2: Seq<bool>,
    n: int,
)
    requires
        n <= f1.len(),
        n <= f2.len(),
        forall|k: int| 0 <= k < n ==> f1[k] == f2[k],
    ensures
        instance_typed_issues(sec, t, inst, idx, f1, n) == instance_typed_issues(sec, t, inst, idx, f2, n),
    decreases n,
{
    if n > 0 {
        lemma_instance_found_prefix(sec, t, inst, idx, f1, f2, n - 1);
    }
}

proof fn lemma_typed_found_prefix(
    sec: Seq<char>,
    t: Seq<EntryView>,
    insts: Seq<Seq<EntryView>>,
    f1: Seq<Seq<bool>>,
    f2: Seq<Seq<bool>>,
    n: int,
)
    requires
        n <= f1.len(),
        n <= f2.len(),
        forall|k: int| 0 <= k < n ==> f1[k] == f2[k],
    ensures
        typed_issues(sec, t, insts, f1, n) == typed_issues(sec, t, insts, f2, n),
    decreases n,
{
    if n > 0 {
        lemma_typed_found_prefix(sec, t, insts, f1, f2, n - 1);
    }
}

/// Check of mandatory keys and value types: every key of the template
/// schema `tmpl` is looked up in each input instance of the level.
pub fn check_typed_entries(sec: &String, tmpl: &Instance, level: &Vec<Instance>) -> (r: Vec<Issue>)
    ensures
        exists|found: Seq<Seq<bool>>|
            issues_view(r@) == typed_issues(sec@, tmpl@, instances_view(level@), found, level@.len() as int),
{
    let ghost insts = instances_view(level@);
    let mut out: Vec<Issue> = Vec::new();
    let ghost mut fs: Seq<Seq<bool>> = Seq::empty();
    let m = tmpl.entries.len();
    let mut i: usize = 0;
    assert(issues_view(out@) =~= Seq::<IssueView>::empty());
    while i < level.len()
        invariant
            insts == instances_view(level@),
            m == tmpl@.len(),
            i <= level@.len(),
            fs.len() == i,
            issues_view(out@) == typed_issues(sec@, tmpl@, insts, fs, i as int),
        decreases level@.len() - i,
    {
        let inst = &level[i];
        let ghost mut cur: Seq<bool> = Seq::empty();
        let ghost base = issues_view(out@);
        let mut j: usize = 0;
        while j < m
            invariant
                insts == instances_view(level@),
                m == tmpl@.len(),
                i < level@.len(),
                inst == level@[i as int],
                j <= m,
                cur.len() == j,
                base == typed_issues(sec@, tmpl@, insts, fs, i as int),
                issues_view(out@) == base + instance_typed_issues(sec@, tmpl@, insts[i as int], i as nat, cur, j as int),
            decreases m - j,
        {
            let te = &tmpl.entries[j];
            let ghost tv = tmpl@[j as int];
            let ghost before = issues_view(out@);
            let ghost found: bool = false;
            match inst.get(&te.key) {
                Some(e) => {
                    let probed = probe_disk(e.value.as_str(), te.value.as_str());
                    proof {
                        found = probed;
                    }
                    match check_type_given(e.value.as_str(), te.value.as_str(), probed) {
                        Ok(()) => {},
                        Err(f) => {
                            out.push(Issue::TypeMismatch {
                                key: te.key.clone(),
                                value: e.value.clone(),
                                line: e.line,
                                fault: f,
                            });
                        },
                    }
                },
                None => {
                    if !te.optional {
                        out.push(Issue::MissingKey {
                            key: te.key.clone(),
                            instance: i,
                            section: sec.clone(),
                            template_line: te.line,
                        });
                    }
                },
            }
            proof {
                let c2 = cur.push(found);
                lemma_instance_found_prefix(sec@, tmpl@, insts[i as int], i as nat, cur, c2, j as int);
                assert(c2[j as int] == found);
                assert(issues_view(out@) =~= before + entry_issues(sec@, tv, insts[i as int], i as nat, found));
                assert(issues_view(out@) =~= base + instance_typed_issues(sec@, tmpl@, insts[i as int], i as nat, c2, j + 1));
                cur = c2;
            }
            j = j + 1;
        }
        proof {
            let f2 = fs.push(cur);
            lemma_typed_found_prefix(sec@, tmpl@, insts, fs, f2, i as int);
            assert(f2[i as int] == cur);
            fs = f2;
        }
        i = i + 1;
    }
    out
}


/// Check of spurious keys: every key of each input instance of the level
/// must be declared in the template schema `tmpl`.
pub fn check_entries(sec: &String, tmpl: &Instance, level: &Vec<Instance>) -> (r: Vec<Issue>)
    ensures
        issues_view(r@) == spurious_issues(sec@, tmpl@, instances_view(level@), level@.len() as int),
{
    let ghost insts = instances_view(level@);
    let mut out: Vec<Issue> = Vec::new();
    let mut i: usize = 0;
    assert(issues_view(out@) =~= Seq::<IssueView>::empty());
    while i < level.len()
        invariant
            insts == instances_view(level@),
            i <= level@.len(),
            issues_view(out@) == spurious_issues(sec@, tmpl@, insts, i as int),
        decreases level@.len() - i,
    {
        let inst = &level[i];
        let ghost base = issues_view(out@);
        let n = inst.entries.len();
        let mut j: usize = 0;
        while j < n
            invariant
                insts == instances_view(level@),
                i < level@.len(),
                inst == level@[i as int],
                n == inst@.len(),
                j <= n,
                base == spurious_issues(sec@, tmpl@, insts, i as int),
                issues_view(out@) == base + instance_spurious(sec@, tmpl@, insts[i as int], i as nat, j as int),
            decreases n - j,
        {
            let e = &inst.entries[j];
            let ghost before = issues_view(out@);
            assert(insts[i as int] == inst@);
            assert(insts[i as int][j as int] == e@);
            if tmpl.get(&e.key).is_none() {
                out.push(Issue::SpuriousKey { key: e.key.clone(), line: e.line, instance: i, section: sec.clone() });
            }
            proof {
                let ghost add = if lookup(tmpl@, e@.key) is None {
                    seq![IssueView::SpuriousKey { key: e@.key, line: e@.line, instance: i as nat, section: sec@ }]
                } else {
                    Seq::<IssueView>::empty()
                };
                let ghost prev = instance_spurious(sec@, tmpl@, insts[i as int], i as nat, j as int);
                assert(issues_view(out@) =~= before + add);
                assert(instance_spurious(sec@, tmpl@, insts[i as int], i as nat, j + 1) == prev + add);
                assert((base + prev) + add =~= base + (prev + add));
            }
            j = j + 1;
        }
        i = i + 1;
    }
    out
}

/// The schema of a template level: its first instance, or none.
pub open spec fn schema(l: LevelView) -> Seq<EntryView> {
    if l.instances.len() > 0 {
        l.instances[0]
    } else {
        Seq::empty()
    }
}

/// The outcome of both checks on one level.
pub struct SectionReport {
    /// The template's name for the level.
    pub label: String,
    pub typed: Vec<Issue>,
    pub spurious: Vec<Issue>,
}

/// `rep` is the outcome of both checks on template level `t` and input level `l`.
pub open spec fn report_of(rep: SectionReport, t: LevelView, l: LevelView) -> bool {
    &&& rep.label@ == t.name
    &&& issues_view(rep.spurious@) == spurious_issues(t.name, schema(t), l.instances, l.instances.len() as int)
    &&& exists|found: Seq<Seq<bool>>|
        issues_view(rep.typed@) == typed_issues(t.name, schema(t), l.instances, found, l.instances.len() as int)
}

/// Pairs the levels of a template and an input document, depth by depth, and
/// runs both checks on each pair against the first template instance.
pub fn validate(tmpl: &Document, input: &Document) -> (r: Vec<SectionReport>)
    ensures
        r@.len() == if tmpl@.len() <= input@.len() { tmpl@.len() } else { input@.len() },
        forall|k: int| 0 <= k < r@.len() ==> report_of(#[trigger] r@[k], tmpl@[k], input@[k]),
{
    let n = if tmpl.levels.len() <= input.levels.len() { tmpl.levels.len() } else { input.levels.len() };
    let mut out: Vec<SectionReport> = Vec::new();
    let empty = Instance::new();
    let mut k: usize = 0;
    while k < n
        invariant
            n == if tmpl@.len() <= input@.len() { tmpl@.len() } else { input@.len() },
            empty@ == Seq::<EntryView>::empty(),
            k <= n,
            out@.len() == k,
            forall|q: int| 0 <= q < k ==> report_of(#[trigger] out@[q], tmpl@[q], input@[q]),
        decreases n - k,
    {
        let tl = &tmpl.levels[k];
        let il = &input.levels[k];
        assert(tmpl@[k as int] == tl@);
        assert(input@[k as int] == il@);
        let sch = if tl.instances.len() > 0 { &tl.instances[0] } else { &empty };
        assert(sch@ == schema(tmpl@[k as int]));
        let typed = check_typed_entries(&tl.name, sch, &il.instances);
        let spurious = check_entries(&tl.name, sch, &il.instances);
        let rep = SectionReport { label: tl.name.clone(), typed, spurious };
        proof {
            assert(instances_view(il.instances@) =~= il@.instances);
            let found = choose|found: Seq<Seq<bool>>|
                issues_view(rep.typed@) == typed_issues(
                    tl.name@,
                    sch@,
                    instances_view(il.instances@),
                    found,
                    il.instances@.len() as int,
                );
            assert(issues_view(rep.typed@) == typed_issues(
                tmpl@[k as int].name,
                schema(tmpl@[k as int]),
                input@[k as int].instances,
                found,
                input@[k as int].instances.len() as int,
            ));
        }
        assert(report_of(rep, tmpl@[k as int], input@[k as int]));
        out.push(rep);
        k = k + 1;
    }
    out
}


/// Number of issues in all reports.
pub open spec fn total_issues(reps: Seq<SectionReport>) -> nat
    decreases reps.len(),
{
    if reps.len() == 0 {
        0
    } else {
        total_issues(reps.drop_last()) + reps.last().typed@.len() + reps.last().spurious@.len()
    }
}

/// Number of issues in all reports (saturating at the largest `usize`).
pub fn error_count(reps: &Vec<SectionReport>) -> (r: usize)
    ensures
        r == if total_issues(reps@) <= usize::MAX { total_issues(reps@) } else { usize::MAX as nat },
{
    let mut total: usize = 0;
    let mut i: usize = 0;
    while i < reps.len()
        invariant
            i <= reps@.len(),
            total == if total_issues(reps@.take(i as int)) <= usize::MAX {
                total_issues(reps@.take(i as int))
            } else {
                usize::MAX as nat
            },
        decreases reps@.len() - i,
    {
        assert(reps@.take(i as int + 1).drop_last() =~= reps@.take(i as int));
        let add = reps[i].typed.len();
        total = if total <= usize::MAX - add { total + add } else { usize::MAX };
        let add2 = reps[i].spurious.len();
        total = if total <= usize::MAX - add2 { total + add2 } else { usize::MAX };
        i = i + 1;
    }
    assert(reps@.take(reps@.len() as int) =~= reps@);
    total
}

/// Whether no report holds an issue.
pub fn is_valid(reps: &Vec<SectionReport>) -> (r: bool)
    ensures
        r == (total_issues(reps@) == 0),
{
    error_count(reps) == 0
}

/// Type names that restrict their values.
pub open spec fn is_checked_type(ty: Seq<char>) -> bool {
    ty == "Date"@ || ty == "Float"@ || ty == "Int"@ || ty == "List[String]"@ || ty == "List[Int]"@
        || ty == "List[Float]"@ || ty == "File"@ || ty == "Directory"@ || ty == "URL"@
}

/// A level whose single instance has unique keys and declares free-form
/// types only.
pub open spec fn plain_schema_level(l: LevelView) -> bool {
    &&& l.instances.len() == 1
    &&& keys_unique(l.instances[0])
    &&& forall|i: int| 0 <= i < l.instances[0].len() ==> !is_checked_type(#[trigger] l.instances[0][i].value)
}

proof fn lemma_lookup_own_entry(s: Seq<EntryView>, i: int)
    requires
        keys_unique(s),
        0 <= i < s.len(),
    ensures
        lookup(s, s[i].key) == Some(s[i]),
{
    lemma_key_pos(s, s[i].key, 0);
}

proof fn lemma_self_instance_clean(sec: Seq<char>, t: Seq<EntryView>, found: Seq<bool>, n: int)
    requires
        keys_unique(t),
        forall|i: int| 0 <= i < t.len() ==> !is_checked_type(#[trigger] t[i].value),
        n <= t.len(),
    ensures
        instance_typed_issues(sec, t, t, 0, found, n) == Seq::<IssueView>::empty(),
        instance_spurious(sec, t, t, 0, n) == Seq::<IssueView>::empty(),
    decreases n,
{
    if n > 0 {
        lemma_self_instance_clean(sec, t, found, n - 1);
        lemma_lookup_own_entry(t, n - 1);
        assert(!is_checked_type(t[n - 1].value));
        assert(Seq::<IssueView>::empty() + Seq::<IssueView>::empty() =~= Seq::<IssueView>::empty());
    }
}

/// Validating a document against itself finds nothing: where every level
/// holds a single instance with unique keys and only free-form type names
/// (a value naming a checked type is not itself of that type), neither the
/// type check nor the spurious-key check reports an issue on any level.
pub proof fn lemma_self_validation_clean(doc: Seq<LevelView>, found: Seq<Seq<bool>>)
    requires
        forall|k: int| 0 <= k < doc.len() ==> plain_schema_level(#[trigger] doc[k]),
    ensures
        forall|k: int| 0 <= k < doc.len() ==> {
            &&& typed_issues(doc[k].name, schema(doc[k]), (#[trigger] doc[k]).instances, found, 1)
                == Seq::<IssueView>::empty()
            &&& spurious_issues(doc[k].name, schema(doc[k]), doc[k].instances, 1) == Seq::<IssueView>::empty()
        },
{
    assert forall|k: int| 0 <= k < doc.len() implies {
        &&& typed_issues(doc[k].name, schema(doc[k]), (#[trigger] doc[k]).instances, found, 1)
            == Seq::<IssueView>::empty()
        &&& spurious_issues(doc[k].name, schema(doc[k]), doc[k].instances, 1) == Seq::<IssueView>::empty()
    } by {
        assert(plain_schema_level(doc[k]));
        let t = doc[k].instances[0];
        let sec = doc[k].name;
        lemma_self_instance_clean(sec, t, found[0], t.len() as int);
        assert(schema(doc[k]) == t);
        assert(typed_issues(sec, t, doc[k].instances, found, 0) == Seq::<IssueView>::empty());
        assert(spurious_issues(sec, t, doc[k].instances, 0) == Seq::<IssueView>::empty());
        assert(Seq::<IssueView>::empty() + Seq::<IssueView>::empty() =~= Seq::<IssueView>::empty());
        assert(typed_issues(sec, t, doc[k].instances, found, 1) == Seq::<IssueView>::empty()
            + instance_typed_issues(sec, t, t, 0, found[0], t.len() as int));
        assert(spurious_issues(sec, t, doc[k].instances, 1) == Seq::<IssueView>::empty()
            + instance_spurious(sec, t, t, 0, t.len() as int));
    }
}

} // verus!
