//! Checking a value against the type name that a template declares for it.
use vstd::prelude::*;
use vstd::string::{StrSliceExecFns, StringExecFns};
use crate::ordinal::{card, ordinal_text};
use crate::numbers::{is_float, is_float_text, is_int, is_int_text};
use crate::outside::{
    is_date_in_format, is_url_text, parses_as_date, parses_as_url, path_is_dir, path_is_file,
};
use crate::text::same_text;

verus! {

/// Why a value does not conform to its declared type.
pub enum TypeFault {
    NotDate,
    NotFloat,
    NotInt,
    /// A list that does not start with `[`.
    MissingOpen,
    /// A list that does not end with `]`.
    MissingClose,
    /// The element at this 0-based position, with this text, is no integer.
    BadIntElement(usize, String),
    /// The element at this 0-based position, with this text, is no float.
    BadFloatElement(usize, String),
    NoFile,
    NoDirectory,
    BadUrl,
}

pub enum FaultView {
    NotDate,
    NotFloat,
    NotInt,
    MissingOpen,
    MissingClose,
    BadIntElement(nat, Seq<char>),
    BadFloatElement(nat, Seq<char>),
    NoFile,
    NoDirectory,
    BadUrl,
}

impl View for TypeFault {
    type V = FaultView;

    open spec fn view(&self) -> FaultView {
        match self {
            TypeFault::NotDate => FaultView::NotDate,
            TypeFault::NotFloat => FaultView::NotFloat,
            TypeFault::NotInt => FaultView::NotInt,
            TypeFault::MissingOpen => FaultView::MissingOpen,
            TypeFault::MissingClose => FaultView::MissingClose,
            TypeFault::BadIntElement(n, e) => FaultView::BadIntElement(*n as nat, e@),
            TypeFault::BadFloatElement(n, e) => FaultView::BadFloatElement(*n as nat, e@),
            TypeFault::NoFile => FaultView::NoFile,
            TypeFault::NoDirectory => FaultView::NoDirectory,
            TypeFault::BadUrl => FaultView::BadUrl,
        }
    }
}

pub open spec fn outcome(r: Result<(), TypeFault>) -> Result<(), FaultView> {
    match r {
        Ok(()) => Ok(()),
        Err(f) => Err(f@),
    }
}

/// The fault of the list element at 0-based position `ord` with text `e`, if any.
pub open spec fn element_fault(e: Seq<char>, float: bool, ord: nat) -> Option<FaultView> {
    if float {
        if is_float_text(e) { None } else { Some(FaultView::BadFloatElement(ord, e)) }
    } else {
        if is_int_text(e) { None } else { Some(FaultView::BadIntElement(ord, e)) }
    }
}

/// Checks the comma-separated elements of `inner` from position `i`, the
/// current element starting at `start` at 0-based position `ord`: the first
/// element that is not a number is reported.
pub open spec fn scan_elements(inner: Seq<char>, float: bool, i: int, start: int, ord: nat) -> Result<(), FaultView>
    decreases inner.len() - i,
{
    if i >= inner.len() {
        match element_fault(inner.subrange(start, inner.len() as int), float, ord) {
            Some(f) => Err(f),
            None => Ok(()),
        }
    } else if inner[i] == ',' {
        match element_fault(inner.subrange(start, i), float, ord) {
            Some(f) => Err(f),
            None => scan_elements(inner, float, i + 1, i + 1, ord + 1),
        }
    } else {
        scan_elements(inner, float, i + 1, start, ord)
    }
}

/// A list value: bracketed, with every element checked when the element
/// type is `Int` or `Float`.
pub open spec fn list_verdict(list: Seq<char>, elem: Seq<char>) -> Result<(), FaultView> {
    if !(list.len() > 0 && list[0] == '[') {
        Err(FaultView::MissingOpen)
    } else if list.last() != ']' {
        Err(FaultView::MissingClose)
    } else {
        let inner = list.subrange(1, list.len() - 1);
        if elem == "Int"@ {
            scan_elements(inner, false, 0, 0, 0)
        } else if elem == "Float"@ {
            scan_elements(inner, true, 0, 0, 0)
        } else {
            Ok(())
        }
    }
}

/// The format in which values of type `Date` are written: day/month/year.
pub open spec fn date_format() -> Seq<char> {
    "%-d/%-m/%Y"@
}

/// Type names whose check asks the file system.
pub open spec fn is_disk_type(ty: Seq<char>) -> bool {
    ty == "File"@ || ty == "Directory"@
}

/// Whether `val` conforms to the type named `ty`; `found` is the file
/// system's answer on whether `val` names an entry of the asked kind, and
/// counts only for `File` and `Directory`.  Unknown type names accept all.
pub open spec fn type_verdict(val: Seq<char>, ty: Seq<char>, found: bool) -> Result<(), FaultView> {
    if ty == "Date"@ {
        if is_date_in_format(val, date_format()) { Ok(()) } else { Err(FaultView::NotDate) }
    } else if ty == "Float"@ {
        if is_float_text(val) { Ok(()) } else { Err(FaultView::NotFloat) }
    } else if ty == "Int"@ {
        if is_int_text(val) { Ok(()) } else { Err(FaultView::NotInt) }
    } else if ty == "List[String]"@ {
        list_verdict(val, "String"@)
    } else if ty == "List[Int]"@ {
        list_verdict(val, "Int"@)
    } else if ty == "List[Float]"@ {
        list_verdict(val, "Float"@)
    } else if ty == "File"@ {
        if found { Ok(()) } else { Err(FaultView::NoFile) }
    } else if ty == "Directory"@ {
        if found { Ok(()) } else { Err(FaultView::NoDirectory) }
    } else if ty == "URL"@ {
        if is_url_text(val) { Ok(()) } else { Err(FaultView::BadUrl) }
    } else {
        Ok(())
    }
}

/// Checks every element of the list between the brackets.
fn check_elements(inner: &str, float: bool) -> (r: Result<(), TypeFault>)
    ensures
        outcome(r) == scan_elements(inner@, float, 0, 0, 0),
{
    let n = inner.unicode_len();
    let mut i: usize = 0;
    let mut start: usize = 0;
    let mut passed: usize = 0;
    loop
        invariant
            n == inner@.len(),
            start <= i <= n,
            passed <= start,
            scan_elements(inner@, float, 0, 0, 0) == scan_elements(inner@, float, i as int, start as int, passed as nat),
        decreases n - i,
    {
        if i >= n || inner.get_char(i) == ',' {
            let e = inner.substring_char(start, i);
            let ok = if float { is_float(e) } else { is_int(e) };
            if !ok {
                let t = e.to_owned();
                if float {
                    return Err(TypeFault::BadFloatElement(passed, t));
                } else {
                    return Err(TypeFault::BadIntElement(passed, t));
                }
            }
            if i >= n {
                return Ok(());
            }
            start = i + 1;
            passed = passed + 1;
        }
        i = i + 1;
    }
}

/// Checks a list value `list` whose elements have the type named `type_`.
/// Every element is checked, and the first that fails is reported.
pub fn check_list(list: &str, type_: &str) -> (r: Result<(), TypeFault>)
    ensures
        outcome(r) == list_verdict(list@, type_@),
{
    let n = list.unicode_len();
    if !(n > 0 && list.get_char(0) == '[') {
        return Err(TypeFault::MissingOpen);
    }
    if list.get_char(n - 1) != ']' {
        return Err(TypeFault::MissingClose);
    }
    let inner = list.substring_char(1, n - 1);
    if same_text(type_, "Int") {
        check_elements(inner, false)
    } else if same_text(type_, "Float") {
        check_elements(inner, true)
    } else {
        Ok(())
    }
}

/// Checks `val` against the type named `type_`, given the file system's
/// answer `found` for the types that need one.
pub fn check_type_given(val: &str, type_: &str, found: bool) -> (r: Result<(), TypeFault>)
    ensures
        outcome(r) == type_verdict(val@, type_@, found),
{
    if same_text(type_, "Date") {
        if parses_as_date(val, "%-d/%-m/%Y") { Ok(()) } else { Err(TypeFault::NotDate) }
    } else if same_text(type_, "Float") {
        if is_float(val) { Ok(()) } else { Err(TypeFault::NotFloat) }
    } else if same_text(type_, "Int") {
        if is_int(val) { Ok(()) } else { Err(TypeFault::NotInt) }
    } else if same_text(type_, "List[String]") {
        check_list(val, "String")
    } else if same_text(type_, "List[Int]") {
        check_list(val, "Int")
    } else if same_text(type_, "List[Float]") {
        check_list(val, "Float")
    } else if same_text(type_, "File") {
        if found { Ok(()) } else { Err(TypeFault::NoFile) }
    } else if same_text(type_, "Directory") {
        if found { Ok(()) } else { Err(TypeFault::NoDirectory) }
    } else if same_text(type_, "URL") {
        if parses_as_url(val) { Ok(()) } else { Err(TypeFault::BadUrl) }
    } else {
        Ok(())
    }
}

/// Asks the file system about `val` where the type named `type_` needs it.
pub fn probe_disk(val: &str, type_: &str) -> (r: bool)
    ensures
        !is_disk_type(type_@) ==> !r,
{
    if same_text(type_, "File") {
        path_is_file(val)
    } else if same_text(type_, "Directory") {
        path_is_dir(val)
    } else {
        false
    }
}

/// Checks `val` against the type named `type_`, asking the file system for
/// `File` and `Directory`.
pub fn check_type(val: &str, type_: &str) -> (r: Result<(), TypeFault>)
    ensures
        exists|found: bool| outcome(r) == type_verdict(val@, type_@, found),
        !is_disk_type(type_@) ==> outcome(r) == type_verdict(val@, type_@, false),
{
    let found = probe_disk(val, type_);
    check_type_given(val, type_, found)
}


/// How a fault reads, for the value `v` that has it.
pub open spec fn fault_text(v: Seq<char>, f: FaultView) -> Seq<char> {
    match f {
        FaultView::NotDate => "'"@ + v + "' is not a valid date"@,
        FaultView::NotFloat => "'"@ + v + "' is not a valid floating point number"@,
        FaultView::NotInt => "'"@ + v + "' is not a valid integer number"@,
        FaultView::MissingOpen => "'"@ + v + "' is not a well-formed list: missing starting brace"@,
        FaultView::MissingClose => "'"@ + v + "' is not a well-formed list: missing ending brace"@,
        FaultView::BadIntElement(p, e) => "the "@ + ordinal_text(p + 1) + " element in list '"@ + v + "', '"@ + e
            + "', is not a valid integer number"@,
        FaultView::BadFloatElement(p, e) => "the "@ + ordinal_text(p + 1) + " element in list '"@ + v + "', '"@ + e
            + "', is not a valid floating point number"@,
        FaultView::NoFile => "file '"@ + v + "' does not exist"@,
        FaultView::NoDirectory => "directory '"@ + v + "' does not exist"@,
        FaultView::BadUrl => "URL '"@ + v + "' is malformed"@,
    }
}

/// A position that has an ordinal within `usize`.
pub open spec fn fault_fits(f: FaultView) -> bool {
    match f {
        FaultView::BadIntElement(p, _) => p < usize::MAX,
        FaultView::BadFloatElement(p, _) => p < usize::MAX,
        _ => true,
    }
}

/// Quotes `v` between `before` and `after`.
fn quoted(before: &str, v: &str, after: &str) -> (r: String)
    ensures
        r@ == before@ + v@ + after@,
{
    let mut s = String::from_str(before);
    s.append(v);
    s.append(after);
    s
}

impl TypeFault {
    /// How this fault reads, for the value `value` that has it.
    pub fn describe(&self, value: &str) -> (r: String)
        requires
            fault_fits(self@),
        ensures
            r@ == fault_text(value@, self@),
    {
        match self {
            TypeFault::NotDate => quoted("'", value, "' is not a valid date"),
            TypeFault::NotFloat => quoted("'", value, "' is not a valid floating point number"),
            TypeFault::NotInt => quoted("'", value, "' is not a valid integer number"),
            TypeFault::MissingOpen => quoted("'", value, "' is not a well-formed list: missing starting brace"),
            TypeFault::MissingClose => quoted("'", value, "' is not a well-formed list: missing ending brace"),
            TypeFault::BadIntElement(p, e) => {
                let mut s = String::from_str("the ");
                s.append(card(*p + 1).as_str());
                s.append(quoted(" element in list '", value, "', '").as_str());
                s.append(e.as_str());
                s.append("', is not a valid integer number");
                s
            },
            TypeFault::BadFloatElement(p, e) => {
                let mut s = String::from_str("the ");
                s.append(card(*p + 1).as_str());
                s.append(quoted(" element in list '", value, "', '").as_str());
                s.append(e.as_str());
                s.append("', is not a valid floating point number");
                s
            },
            TypeFault::NoFile => quoted("file '", value, "' does not exist"),
            TypeFault::NoDirectory => quoted("directory '", value, "' does not exist"),
            TypeFault::BadUrl => quoted("URL '", value, "' is malformed"),
        }
    }
}

} // verus!
