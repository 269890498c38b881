//! The entry classifier: maps a relative path to a semantic file kind from
//! its file name and extension.  A pure function used for reporting and
//! filtering, never for sync decisions.

use vstd::prelude::*;

use crate::strutil::{push_char, str_eq};

verus! {

/// The semantic kind of a file, as judged from its name alone.
#[derive(Clone, Copy, Debug, PartialEq, Eq, Structural)]
pub enum FileType {
    Directory,
    Markdown,
    Jpeg,
    Png,
    Svg,
    Canvas,
    Excalidraw,
    Json,
    Pdf,
    Document,
    Javascript,
    Stylesheet,
    Presentation,
    Git,
    Unknown,
}

/// An upper-case ASCII letter folded to lower case; any other character is
/// kept as it is.
pub open spec fn lower_char(c: char) -> char {
    if 'A' <= c && c <= 'Z' {
        ((c as u8) + 32) as char
    } else {
        c
    }
}

/// A character sequence folded to lower case, letter by letter.
pub open spec fn lower_seq(s: Seq<char>) -> Seq<char> {
    s.map_values(|c: char| lower_char(c))
}

/// Folds a string to lower case, ASCII letter by ASCII letter.
pub fn to_lower(s: &String) -> (r: String)
    ensures
        r@ == lower_seq(s@),
{
    let st = s.as_str();
    let n = st.unicode_len();
    let mut r = String::new();
    let mut i: usize = 0;
    while i < n
        invariant
            i <= n,
            n == st@.len(),
            st@ == s@,
            r@ == lower_seq(s@).take(i as int),
        decreases n - i,
    {
        let c = st.get_char(i);
        let lc = if 'A' <= c && c <= 'Z' {
            proof {
                assert('A' as u8 <= c as u8 <= 'Z' as u8);
            }
            ((c as u8) + 32) as char
        } else {
            c
        };
        proof {
            assert(lc == lower_char(s@[i as int]));
        }
        push_char(&mut r, lc);
        proof {
            assert(r@ =~= lower_seq(s@).take(i + 1));
        }
        i += 1;
    }
    proof {
        assert(lower_seq(s@).take(n as int) =~= lower_seq(s@));
    }
    r
}

/// The final component of a '/'-separated relative path: everything after
/// the last separator.
pub open spec fn file_name_of(p: Seq<char>) -> Seq<char>
    decreases p.len(),
{
    if p.len() == 0 {
        p
    } else if p.last() == '/' {
        Seq::empty()
    } else {
        file_name_of(p.drop_last()).push(p.last())
    }
}

/// The extension of a file name: the part after the final '.', absent when
/// the name has no '.' past its first character.  A name that starts with
/// '.' and has no later '.' (version-control metadata style) has no
/// extension.
pub open spec fn extension_of_name(name: Seq<char>) -> Option<Seq<char>>
    decreases name.len(),
{
    if name.len() <= 1 {
        Option::None
    } else if name.last() == '.' {
        Option::Some(Seq::empty())
    } else {
        match extension_of_name(name.drop_last()) {
            Option::Some(e) => Option::Some(e.push(name.last())),
            Option::None => Option::None,
        }
    }
}

/// The lower-cased extension of the file named by a relative path.
pub open spec fn extension_of(p: Seq<char>) -> Option<Seq<char>> {
    match extension_of_name(file_name_of(p)) {
        Option::Some(e) => Option::Some(lower_seq(e)),
        Option::None => Option::None,
    }
}

/// Extracts the final path component of a relative path.
pub fn file_name_from_path(path: &String) -> (r: String)
    ensures
        r@ == file_name_of(path@),
{
    let st = path.as_str();
    let n = st.unicode_len();
    // Find the position right after the last '/'.
    let mut start: usize = n;
    while start > 0
        invariant
            start <= n,
            n == st@.len(),
            st@ == path@,
            forall|k: int| start <= k < n ==> path@[k] != '/',
        ensures
            start <= n,
            forall|k: int| start <= k < n ==> path@[k] != '/',
            start > 0 ==> path@[start - 1] == '/',
        decreases start,
    {
        if st.get_char(start - 1) == '/' {
            break;
        }
        start -= 1;
    }
    proof {
        if start > 0 {
            assert(path@[start - 1] == '/');
        }
        lemma_file_name_suffix(path@, start as int);
    }
    let mut r = String::new();
    let mut i: usize = start;
    while i < n
        invariant
            start <= i <= n,
            n == st@.len(),
            st@ == path@,
            r@ == path@.subrange(start as int, i as int),
        decreases n - i,
    {
        push_char(&mut r, st.get_char(i));
        proof {
            assert(r@ =~= path@.subrange(start as int, i + 1));
        }
        i += 1;
    }
    r
}

/// When every character from `start` on differs from '/', and the one
/// before `start` (if any) is '/', the file name is exactly the suffix.
proof fn lemma_file_name_suffix(p: Seq<char>, start: int)
    requires
        0 <= start <= p.len(),
        forall|k: int| start <= k < p.len() ==> p[k] != '/',
        start > 0 ==> p[start - 1] == '/',
    ensures
        file_name_of(p) == p.subrange(start, p.len() as int),
    decreases p.len() - start,
{
    if start == p.len() {
        lemma_file_name_after_sep(p);
        assert(p.subrange(start, p.len() as int) =~= Seq::<char>::empty());
    } else {
        lemma_file_name_extend(p, start);
    }
}

/// A path that is empty or ends in '/' names no file: its file name is
/// empty.
proof fn lemma_file_name_after_sep(p: Seq<char>)
    requires
        p.len() == 0 || p.last() == '/',
    ensures
        file_name_of(p) == Seq::<char>::empty(),
{
}

/// Walking right from `start`, each further non-'/' character extends the
/// file name by one.
proof fn lemma_file_name_extend(p: Seq<char>, start: int)
    requires
        0 <= start < p.len(),
        forall|k: int| start <= k < p.len() ==> p[k] != '/',
        start > 0 ==> p[start - 1] == '/',
    ensures
        file_name_of(p) == p.subrange(start, p.len() as int),
    decreases p.len() - start,
{
    if start == p.len() - 1 {
        let q = p.drop_last();
        assert(q.len() == 0 || q.last() == '/');
        lemma_file_name_after_sep(q);
        assert(file_name_of(p) == Seq::<char>::empty().push(p.last()));
        assert(p.subrange(start, p.len() as int) =~= Seq::<char>::empty().push(p.last()));
    } else {
        let q = p.drop_last();
        lemma_file_name_extend(q, start);
        assert(file_name_of(p) == file_name_of(q).push(p.last()));
        assert(p.subrange(start, p.len() as int) =~= q.subrange(start, q.len() as int).push(
            p.last(),
        ));
    }
}

/// Extracts the lower-cased extension of the file a relative path names.
pub fn get_extension_from_path(path: &String) -> (r: Option<String>)
    ensures
        match r {
            Some(e) => extension_of(path@) == Option::Some(e@),
            None => extension_of(path@) == Option::<Seq<char>>::None,
        },
{
    let name = file_name_from_path(path);
    let st = name.as_str();
    let n = st.unicode_len();
    // Find the final '.', ignoring a '.' in the very first position.
    let mut dot: usize = n;
    let mut i: usize = n;
    while i > 1
        invariant
            1 <= i <= n || (n == 0 && i == n),
            n == st@.len(),
            st@ == name@,
            dot == n || (i <= dot < n && name@[dot as int] == '.' && forall|k: int|
                dot < k < n ==> name@[k] != '.'),
            dot == n ==> forall|k: int| i <= k < n ==> name@[k] != '.',
        decreases i,
    {
        if st.get_char(i - 1) == '.' {
            if dot == n {
                dot = i - 1;
            }
        }
        i -= 1;
    }
    if n <= 1 || dot == n {
        proof {
            lemma_extension_none(name@);
        }
        return None;
    }
    let mut ext = String::new();
    let mut j: usize = dot + 1;
    while j < n
        invariant
            dot + 1 <= j <= n,
            n == st@.len(),
            st@ == name@,
            ext@ == name@.subrange(dot + 1, j as int),
        decreases n - j,
    {
        push_char(&mut ext, st.get_char(j));
        proof {
            assert(ext@ =~= name@.subrange(dot + 1, j + 1));
        }
        j += 1;
    }
    proof {
        lemma_extension_at_dot(name@, dot as int);
    }
    let lower = to_lower(&ext);
    Some(lower)
}

/// A name whose characters past the first hold no '.' has no extension.
proof fn lemma_extension_none(name: Seq<char>)
    requires
        name.len() <= 1 || forall|k: int| 1 <= k < name.len() ==> name[k] != '.',
    ensures
        extension_of_name(name) == Option::<Seq<char>>::None,
    decreases name.len(),
{
    if name.len() > 1 {
        assert(name.last() != '.');
        lemma_extension_none(name.drop_last());
    }
}

/// The kind a file name alone decides: the version-control ignore file.
pub open spec fn type_of_file_name(name: Seq<char>) -> FileType {
    if name == ".gitignore"@ {
        FileType::Git
    } else {
        FileType::Unknown
    }
}

/// The fixed extension table, first match wins; extensions are expected
/// already lower-cased.
pub open spec fn type_of_extension(e: Seq<char>) -> FileType {
    if e == "md"@ || e == "markdown"@ {
        FileType::Markdown
    } else if e == "jpg"@ || e == "jpeg"@ {
        FileType::Jpeg
    } else if e == "png"@ {
        FileType::Png
    } else if e == "svg"@ {
        FileType::Svg
    } else if e == "pdf"@ {
        FileType::Pdf
    } else if e == "json"@ {
        FileType::Json
    } else if e == "js"@ {
        FileType::Javascript
    } else if e == "canvas"@ {
        FileType::Canvas
    } else if e == "pptx"@ || e == "odp"@ {
        FileType::Presentation
    } else if e == "docx"@ {
        FileType::Document
    } else if e == "css"@ {
        FileType::Stylesheet
    } else if e == "gitignore"@ {
        FileType::Git
    } else {
        FileType::Unknown
    }
}

/// The kind of the file a relative path names: an exact file-name match
/// first, then the extension table, then the (empty) content-inspection
/// hook, then Unknown.
pub open spec fn type_of_path(p: Seq<char>) -> FileType {
    if type_of_file_name(file_name_of(p)) != FileType::Unknown {
        type_of_file_name(file_name_of(p))
    } else {
        match extension_of(p) {
            Option::Some(e) => type_of_extension(e),
            Option::None => FileType::Unknown,
        }
    }
}

/// Classifies by exact file name.
pub fn get_file_type_from_file_path(path: &String) -> (r: FileType)
    ensures
        r == type_of_file_name(file_name_of(path@)),
{
    let name = file_name_from_path(path);
    if str_eq(name.as_str(), ".gitignore") {
        FileType::Git
    } else {
        FileType::Unknown
    }
}

/// Classifies by lower-cased extension.
pub fn get_file_type_from_extension(extension: &String) -> (r: FileType)
    ensures
        r == type_of_extension(extension@),
{
    let e = extension.as_str();
    if str_eq(e, "md") || str_eq(e, "markdown") {
        FileType::Markdown
    } else if str_eq(e, "jpg") || str_eq(e, "jpeg") {
        FileType::Jpeg
    } else if str_eq(e, "png") {
        FileType::Png
    } else if str_eq(e, "svg") {
        FileType::Svg
    } else if str_eq(e, "pdf") {
        FileType::Pdf
    } else if str_eq(e, "json") {
        FileType::Json
    } else if str_eq(e, "js") {
        FileType::Javascript
    } else if str_eq(e, "canvas") {
        FileType::Canvas
    } else if str_eq(e, "pptx") || str_eq(e, "odp") {
        FileType::Presentation
    } else if str_eq(e, "docx") {
        FileType::Document
    } else if str_eq(e, "css") {
        FileType::Stylesheet
    } else if str_eq(e, "gitignore") {
        FileType::Git
    } else {
        FileType::Unknown
    }
}

/// The content-inspection hook, reserved for future sniffing: it reports
/// Unknown for every path.
pub fn get_file_type_from_file_inspection(_path: &String) -> (r: FileType)
    ensures
        r == FileType::Unknown,
{
    FileType::Unknown
}

/// Classifies a relative path, first match wins: exact file name, then
/// lower-cased extension, then content inspection, then Unknown.
pub fn get_file_type_from_path(path: &String) -> (r: FileType)
    ensures
        r == type_of_path(path@),
{
    let mut file_type = get_file_type_from_file_path(path);
    if file_type != FileType::Unknown {
        return file_type;
    }
    let extension_option = get_extension_from_path(path);
    file_type = match &extension_option {
        Some(extension) => get_file_type_from_extension(extension),
        None => FileType::Unknown,
    };
    if file_type != FileType::Unknown {
        return file_type;
    }
    file_type = get_file_type_from_file_inspection(path);
    if file_type != FileType::Unknown {
        return file_type;
    }
    FileType::Unknown
}

/// With the final '.' at index `dot` (past the first character), the
/// extension is everything after it.
proof fn lemma_extension_at_dot(name: Seq<char>, dot: int)
    requires
        1 <= dot < name.len(),
        name[dot] == '.',
        forall|k: int| dot < k < name.len() ==> name[k] != '.',
    ensures
        extension_of_name(name) == Option::Some(name.subrange(dot + 1, name.len() as int)),
    decreases name.len() - dot,
{
    if dot == name.len() - 1 {
        assert(name.last() == '.');
        assert(name.subrange(dot + 1, name.len() as int) =~= Seq::<char>::empty());
    } else {
        let q = name.drop_last();
        lemma_extension_at_dot(q, dot);
        assert(name.last() != '.');
        assert(name.subrange(dot + 1, name.len() as int) =~= q.subrange(
            dot + 1,
            q.len() as int,
        ).push(name.last()));
    }
}

} // verus!
