//! The front-matter scanner used by the clean operation.  A markdown file
//! may open with a front-matter block: a "---" fence on the first line,
//! property lines, and a closing fence (or the end of the file).  Each
//! property line is `key: value` with optional surrounding whitespace;
//! key and value may each be enclosed in double quotes.

use vstd::prelude::*;

verus! {

/// Whitespace inside a front-matter line: spaces and tabs.
pub open spec fn is_ws(c: char) -> bool {
    c == ' ' || c == '\t'
}

/// A fence line opens or closes a front-matter block: it starts "---".
pub open spec fn is_fence(l: Seq<char>) -> bool {
    l.len() >= 3 && l[0] == '-' && l[1] == '-' && l[2] == '-'
}

/// The first position at or after `from` holding a non-whitespace
/// character, or the length when none is left.
pub open spec fn first_non_ws(l: Seq<char>, from: int) -> int
    recommends
        0 <= from <= l.len(),
    decreases l.len() - from,
{
    if from >= l.len() {
        l.len() as int
    } else if is_ws(l[from]) {
        first_non_ws(l, from + 1)
    } else {
        from
    }
}

/// The first position at or after `from` holding `c`, or the length.
pub open spec fn find_from(l: Seq<char>, from: int, c: char) -> int
    recommends
        0 <= from <= l.len(),
    decreases l.len() - from,
{
    if from >= l.len() {
        l.len() as int
    } else if l[from] == c {
        from
    } else {
        find_from(l, from + 1, c)
    }
}

/// One past the last non-whitespace character strictly before `upto`, or
/// 0 when everything there is whitespace.
pub open spec fn trim_end(l: Seq<char>, upto: int) -> int
    recommends
        upto <= l.len(),
    decreases upto,
{
    if upto <= 0 {
        0
    } else if is_ws(l[upto - 1]) {
        trim_end(l, upto - 1)
    } else {
        upto
    }
}

/// The value part of a property line: the rest of the line after the ':',
/// trimmed of surrounding whitespace and stripped of one pair of enclosing
/// double quotes if present.  It may be empty.
pub open spec fn fm_value(l: Seq<char>, from: int) -> Seq<char>
    recommends
        0 <= from <= l.len(),
{
    let vs = first_non_ws(l, from);
    let ve = trim_end(l, l.len() as int);
    if vs >= ve {
        Seq::empty()
    } else {
        let v = l.subrange(vs, ve);
        if v.len() >= 2 && v[0] == '"' && v.last() == '"' {
            v.subrange(1, v.len() - 1)
        } else {
            v
        }
    }
}

/// Parses one property line: a quoted or bare key, a ':', and a value.
/// A bare key may not hold a double quote and may not be empty once
/// trimmed; a quoted key may not be empty.
pub open spec fn parse_fm_line(l: Seq<char>) -> Option<(Seq<char>, Seq<char>)> {
    let ks = first_non_ws(l, 0);
    if ks == l.len() {
        Option::None
    } else if l[ks] == '"' {
        let kq = find_from(l, ks + 1, '"');
        if kq == l.len() || kq == ks + 1 {
            Option::None
        } else {
            let cp = first_non_ws(l, kq + 1);
            if cp == l.len() || l[cp] != ':' {
                Option::None
            } else {
                Option::Some((l.subrange(ks + 1, kq), fm_value(l, cp + 1)))
            }
        }
    } else {
        let cp = find_from(l, ks, ':');
        let kq = find_from(l, ks, '"');
        if cp == l.len() || kq < cp {
            Option::None
        } else {
            let ke = trim_end(l, cp);
            if ke <= ks {
                Option::None
            } else {
                Option::Some((l.subrange(ks, ke), fm_value(l, cp + 1)))
            }
        }
    }
}

/// One scanned front-matter line: a parsed property, or a line the
/// grammar does not match, kept as it is.
#[derive(Clone, Debug, PartialEq)]
pub enum FrontMatterLine {
    Property { key: String, value: String },
    Unmatched { line: String },
}

/// The shape of a scanned line.
pub enum FrontMatterLineView {
    Property { key: Seq<char>, value: Seq<char> },
    Unmatched { line: Seq<char> },
}

impl View for FrontMatterLine {
    type V = FrontMatterLineView;

    open spec fn view(&self) -> FrontMatterLineView {
        match *self {
            FrontMatterLine::Property { key, value } => FrontMatterLineView::Property {
                key: key@,
                value: value@,
            },
            FrontMatterLine::Unmatched { line } => FrontMatterLineView::Unmatched { line: line@ },
        }
    }
}

/// The outcome the scanner owes for one line.
pub open spec fn scan_outcome(l: Seq<char>) -> FrontMatterLineView {
    match parse_fm_line(l) {
        Option::Some(kv) => FrontMatterLineView::Property { key: kv.0, value: kv.1 },
        Option::None => FrontMatterLineView::Unmatched { line: l },
    }
}

/// The position of the fence closing the front-matter block: the first
/// fence line at or after `from`, or the number of lines.
pub open spec fn fm_end(lines: Seq<Seq<char>>, from: int) -> int
    recommends
        0 <= from <= lines.len(),
    decreases lines.len() - from,
{
    if from >= lines.len() {
        lines.len() as int
    } else if is_fence(lines[from]) {
        from
    } else {
        fm_end(lines, from + 1)
    }
}

/// The closing fence lies between `from` and the end.
pub proof fn lemma_fm_end_bounds(lines: Seq<Seq<char>>, from: int)
    requires
        0 <= from <= lines.len(),
    ensures
        from <= fm_end(lines, from) <= lines.len(),
    decreases lines.len() - from,
{
    if from < lines.len() && !is_fence(lines[from]) {
        lemma_fm_end_bounds(lines, from + 1);
    }
}

/// The lines of a file as character sequences.
pub open spec fn lines_view(lines: Seq<String>) -> Seq<Seq<char>> {
    Seq::new(lines.len(), |i: int| lines[i]@)
}

/// The scanned outcomes as shapes.
pub open spec fn scan_view(r: Seq<FrontMatterLine>) -> Seq<FrontMatterLineView> {
    Seq::new(r.len(), |i: int| r[i]@)
}

/// Finds the first non-whitespace position at or after `from`.
fn first_non_ws_at(s: &str, from: usize) -> (r: usize)
    requires
        from <= s@.len(),
    ensures
        r == first_non_ws(s@, from as int),
        from <= r <= s@.len(),
{
    let n = s.unicode_len();
    let mut i: usize = from;
    while i < n
        invariant
            from <= i <= n,
            n == s@.len(),
            first_non_ws(s@, from as int) == first_non_ws(s@, i as int),
        decreases n - i,
    {
        let c = s.get_char(i);
        if !(c == ' ' || c == '\t') {
            return i;
        }
        i += 1;
    }
    n
}

/// Finds the first position of `c` at or after `from`.
fn find_char_at(s: &str, from: usize, c: char) -> (r: usize)
    requires
        from <= s@.len(),
    ensures
        r == find_from(s@, from as int, c),
        from <= r <= s@.len(),
{
    let n = s.unicode_len();
    let mut i: usize = from;
    while i < n
        invariant
            from <= i <= n,
            n == s@.len(),
            find_from(s@, from as int, c) == find_from(s@, i as int, c),
        decreases n - i,
    {
        if s.get_char(i) == c {
            return i;
        }
        i += 1;
    }
    n
}

/// Finds the end of the non-whitespace prefix before `upto`.
fn trim_end_at(s: &str, upto: usize) -> (r: usize)
    requires
        upto <= s@.len(),
    ensures
        r == trim_end(s@, upto as int),
        r <= upto,
{
    let mut i: usize = upto;
    while i > 0
        invariant
            i <= upto,
            upto <= s@.len(),
            trim_end(s@, upto as int) == trim_end(s@, i as int),
        decreases i,
    {
        let c = s.get_char(i - 1);
        if !(c == ' ' || c == '\t') {
            return i;
        }
        i -= 1;
    }
    0
}

/// Whether a line is a front-matter fence.
pub fn is_fence_line(s: &String) -> (r: bool)
    ensures
        r == is_fence(s@),
{
    let st = s.as_str();
    if st.unicode_len() < 3 {
        return false;
    }
    st.get_char(0) == '-' && st.get_char(1) == '-' && st.get_char(2) == '-'
}

/// Extracts the value part of a property line, after the ':'.
fn extract_value(s: &str, from: usize) -> (r: String)
    requires
        from <= s@.len(),
    ensures
        r@ == fm_value(s@, from as int),
{
    let n = s.unicode_len();
    let vs = first_non_ws_at(s, from);
    let ve = trim_end_at(s, n);
    if vs >= ve {
        return String::new();
    }
    let v = s.substring_char(vs, ve);
    let vn = v.unicode_len();
    if vn >= 2 && v.get_char(0) == '"' && v.get_char(vn - 1) == '"' {
        v.substring_char(1, vn - 1).to_owned()
    } else {
        v.to_owned()
    }
}

/// Scans one front-matter line against the property grammar.
pub fn scan_line(line: &String) -> (r: FrontMatterLine)
    ensures
        r@ == scan_outcome(line@),
{
    let st = line.as_str();
    let n = st.unicode_len();
    let ks = first_non_ws_at(st, 0);
    if ks == n {
        return FrontMatterLine::Unmatched { line: line.clone() };
    }
    if st.get_char(ks) == '"' {
        let kq = find_char_at(st, ks + 1, '"');
        if kq == n || kq == ks + 1 {
            return FrontMatterLine::Unmatched { line: line.clone() };
        }
        let cp = first_non_ws_at(st, kq + 1);
        if cp == n || st.get_char(cp) != ':' {
            return FrontMatterLine::Unmatched { line: line.clone() };
        }
        let key = st.substring_char(ks + 1, kq).to_owned();
        let value = extract_value(st, cp + 1);
        FrontMatterLine::Property { key, value }
    } else {
        let cp = find_char_at(st, ks, ':');
        let kq = find_char_at(st, ks, '"');
        if cp == n || kq < cp {
            return FrontMatterLine::Unmatched { line: line.clone() };
        }
        let ke = trim_end_at(st, cp);
        if ke <= ks {
            return FrontMatterLine::Unmatched { line: line.clone() };
        }
        let key = st.substring_char(ks, ke).to_owned();
        let value = extract_value(st, cp + 1);
        FrontMatterLine::Property { key, value }
    }
}

/// Scans the lines of one markdown file.  When the first line opens a
/// fence, every following line up to the closing fence (or the end of the
/// file) is scanned; otherwise the file has no front matter and nothing
/// is scanned.
pub fn scan_front_matter(lines: &Vec<String>) -> (r: Vec<FrontMatterLine>)
    ensures
        (lines@.len() == 0 || !is_fence(lines@[0]@)) ==> r@.len() == 0,
        lines@.len() > 0 && is_fence(lines@[0]@) ==> scan_view(r@) == Seq::new(
            (fm_end(lines_view(lines@), 1) - 1) as nat,
            |k: int| scan_outcome(lines@[k + 1]@),
        ),
{
    let mut out: Vec<FrontMatterLine> = Vec::new();
    if lines.len() == 0 {
        return out;
    }
    if !is_fence_line(&lines[0]) {
        return out;
    }
    let ghost lv = lines_view(lines@);
    proof {
        lemma_fm_end_bounds(lv, 1);
    }
    let mut i: usize = 1;
    while i < lines.len()
        invariant
            1 <= i <= lines@.len(),
            lv == lines_view(lines@),
            fm_end(lv, 1) == fm_end(lv, i as int),
            scan_view(out@) == Seq::new((i - 1) as nat, |k: int| scan_outcome(lv[k + 1])),
        ensures
            1 <= i <= lines@.len(),
            lv == lines_view(lines@),
            fm_end(lv, 1) == i,
            scan_view(out@) == Seq::new((i - 1) as nat, |k: int| scan_outcome(lv[k + 1])),
        decreases lines@.len() - i,
    {
        if is_fence_line(&lines[i]) {
            break;
        }
        let s = scan_line(&lines[i]);
        let ghost sv = s@;
        let ghost out0 = out@;
        out.push(s);
        proof {
            assert(scan_view(out0).len() == out0.len());
            assert(scan_view(out@).len() == out@.len());
            assert(out@.last()@ == sv);
            assert forall|k: int| 0 <= k < i as int implies scan_view(out@)[k] == scan_outcome(
                lv[k + 1],
            ) by {
                if k < i as int - 1 {
                    assert(out@[k] == out0[k]);
                    assert(scan_view(out0)[k] == scan_outcome(lv[k + 1]));
                } else {
                    assert(out@[k] == out@.last());
                }
            }
            assert(scan_view(out@) =~= Seq::new(i as nat, |k: int| scan_outcome(lv[k + 1])));
        }
        i += 1;
    }
    proof {
        assert(scan_view(out@) =~= Seq::new(
            (fm_end(lines_view(lines@), 1) - 1) as nat,
            |k: int| scan_outcome(lines@[k + 1]@),
        ));
    }
    out
}

} // verus!
