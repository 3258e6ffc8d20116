//! Paths as text, split as `std::path::Path` splits them on Unix: `/`
//! separates components, separators and `.` components at the end are not
//! part of the file name, the file name is the last component that remains,
//! and its stem is the file name without its last `.extension` (a leading
//! dot starts no extension).
use vstd::prelude::*;

verus! {

/// Whether `c` is white space: the characters of Unicode's White_Space
/// property.
pub open spec fn space_char(c: char) -> bool {
    ('\u{9}' <= c && c <= '\u{d}') || c == ' ' || c == '\u{85}' || c == '\u{a0}' || c == '\u{1680}'
        || ('\u{2000}' <= c && c <= '\u{200a}') || c == '\u{2028}' || c == '\u{2029}' || c
        == '\u{202f}' || c == '\u{205f}' || c == '\u{3000}'
}

/// Whether `c` is white space, as `char::is_whitespace` decides it.
pub fn is_space(c: char) -> (r: bool)
    ensures
        r == space_char(c),
{
    ('\u{9}' <= c && c <= '\u{d}') || c == ' ' || c == '\u{85}' || c == '\u{a0}' || c == '\u{1680}'
        || ('\u{2000}' <= c && c <= '\u{200a}') || c == '\u{2028}' || c == '\u{2029}' || c
        == '\u{202f}' || c == '\u{205f}' || c == '\u{3000}'
}

/// Index of the last occurrence of `c` in `s`, or -1.
pub open spec fn last_index(s: Seq<char>, c: char) -> int
    decreases s.len(),
{
    if s.len() == 0 {
        -1
    } else if s.last() == c {
        s.len() - 1
    } else {
        last_index(s.drop_last(), c)
    }
}

/// `p` without the separators and `.` components at its end; a lone `/`
/// or `.` stays.
pub open spec fn trim_tail(p: Seq<char>) -> Seq<char>
    decreases p.len(),
{
    if p.len() >= 2 && (p.last() == '/' || (p.last() == '.' && p[p.len() - 2] == '/')) {
        trim_tail(p.drop_last())
    } else {
        p
    }
}

/// Everything before the last component, up to and including its separator.
pub open spec fn dir_prefix(p: Seq<char>) -> Seq<char> {
    let t = trim_tail(p);
    t.subrange(0, last_index(t, '/') + 1)
}

/// The last component.
pub open spec fn file_name(p: Seq<char>) -> Seq<char> {
    let t = trim_tail(p);
    t.subrange(last_index(t, '/') + 1, t.len() as int)
}

/// A path names a file when its last component is neither empty, `.` nor `..`.
pub open spec fn has_file_name(p: Seq<char>) -> bool {
    let n = file_name(p);
    n.len() > 0 && n != seq!['.'] && n != seq!['.', '.']
}

/// The file name without its extension.
pub open spec fn stem(name: Seq<char>) -> Seq<char> {
    let d = last_index(name, '.');
    if d <= 0 {
        name
    } else {
        name.subrange(0, d)
    }
}

/// The text after the last dot of the file name, where there is one.
pub open spec fn extension(name: Seq<char>) -> Option<Seq<char>> {
    let d = last_index(name, '.');
    if d <= 0 {
        None
    } else {
        Some(name.subrange(d + 1, name.len() as int))
    }
}

/// The containing folder of a path that names a file: what precedes its
/// last component, without separators and `.` components at the end; `/`
/// for a file at the root, empty for a bare file name.
pub open spec fn folder_of(p: Seq<char>) -> Seq<char> {
    trim_tail(dir_prefix(p))
}

/// `name` inside the folder `dir`, with a separator between where `dir`
/// does not end in one.
pub open spec fn join(dir: Seq<char>, name: Seq<char>) -> Seq<char> {
    if dir.len() == 0 {
        name
    } else if dir.last() == '/' {
        dir + name
    } else {
        dir + seq!['/'] + name
    }
}

/// `p` cut after the stem of its file name, with `ext` (given with its dot)
/// added; a path that names no file stays as it is.
pub open spec fn with_extension(p: Seq<char>, ext: Seq<char>) -> Seq<char> {
    if has_file_name(p) {
        dir_prefix(p) + stem(file_name(p)) + ext
    } else {
        p
    }
}

pub open spec fn schema_suffix() -> Seq<char> {
    ".schema.json"@
}

pub open spec fn json_suffix() -> Seq<char> {
    ".json"@
}

/// The schema file that belongs to the data file `p`: `{folder}/{stem}.schema.json`.
pub open spec fn schema_path_of(p: Seq<char>) -> Seq<char> {
    join(folder_of(p), stem(file_name(p)) + schema_suffix())
}

/// `p` without the separators and `.` components at its end.
pub fn trim_tail_str(p: &str) -> (r: &str)
    ensures
        r@ == trim_tail(p@),
{
    let n = p.unicode_len();
    let mut j: usize = n;
    assert(p@.subrange(0, n as int) =~= p@);
    while j >= 2 && (p.get_char(j - 1) == '/' || (p.get_char(j - 1) == '.' && p.get_char(j - 2) == '/'))
        invariant
            j <= n == p@.len(),
            trim_tail(p@) == trim_tail(p@.subrange(0, j as int)),
        decreases j,
    {
        assert(p@.subrange(0, j as int).drop_last() =~= p@.subrange(0, j - 1));
        j = j - 1;
    }
    p.substring_char(0, j)
}

/// Where the last component of `p` starts and ends.
fn name_bounds(p: &str) -> (r: (usize, usize))
    ensures
        r.0 <= r.1 <= p@.len(),
        trim_tail(p@) == p@.subrange(0, r.1 as int),
        dir_prefix(p@) == p@.subrange(0, r.0 as int),
        file_name(p@) == p@.subrange(r.0 as int, r.1 as int),
{
    let t = trim_tail_str(p);
    let end = t.unicode_len();
    proof {
        lemma_trim_tail_prefix(p@);
    }
    let start: usize = match find_last(t, '/') {
        Some(i) => i + 1,
        None => 0,
    };
    assert(t@.subrange(0, start as int) =~= p@.subrange(0, start as int));
    assert(t@.subrange(start as int, end as int) =~= p@.subrange(start as int, end as int));
    (start, end)
}

/// `trim_tail(p)` begins `p`, and what follows it is separators and dots.
pub proof fn lemma_trim_tail_prefix(p: Seq<char>)
    ensures
        trim_tail(p).len() <= p.len(),
        trim_tail(p) == p.subrange(0, trim_tail(p).len() as int),
        forall|j: int| trim_tail(p).len() <= j < p.len() ==> p[j] == '/' || p[j] == '.',
    decreases p.len(),
{
    if p.len() >= 2 && (p.last() == '/' || (p.last() == '.' && p[p.len() - 2] == '/')) {
        lemma_trim_tail_prefix(p.drop_last());
        let t = trim_tail(p);
        assert(t == p.drop_last().subrange(0, t.len() as int));
        assert(p.drop_last().subrange(0, t.len() as int) =~= p.subrange(0, t.len() as int));
        assert forall|j: int| t.len() <= j < p.len() implies p[j] == '/' || p[j] == '.' by {
            if j < p.len() - 1 {
                assert(p[j] == p.drop_last()[j]);
            }
        }
    } else {
        assert(p.subrange(0, p.len() as int) =~= p);
    }
}

pub open spec fn trim_start(s: Seq<char>) -> Seq<char>
    decreases s.len(),
{
    if s.len() > 0 && space_char(s[0]) {
        trim_start(s.drop_first())
    } else {
        s
    }
}

pub open spec fn trim_end(s: Seq<char>) -> Seq<char>
    decreases s.len(),
{
    if s.len() > 0 && space_char(s.last()) {
        trim_end(s.drop_last())
    } else {
        s
    }
}

/// `s` without white space at either end.
pub open spec fn trimmed(s: Seq<char>) -> Seq<char> {
    trim_end(trim_start(s))
}

/// Finds the last occurrence of `c` in `s`.
pub fn find_last(s: &str, c: char) -> (r: Option<usize>)
    ensures
        r is None <==> last_index(s@, c) == -1,
        r matches Some(i) ==> i as int == last_index(s@, c),
        -1 <= last_index(s@, c) < s@.len() <= usize::MAX,
{
    let n = s.unicode_len();
    let mut i: usize = n;
    assert(s@.subrange(0, n as int) =~= s@);
    while i > 0
        invariant
            i <= n == s@.len(),
            last_index(s@, c) == last_index(s@.subrange(0, i as int), c),
        decreases i,
    {
        proof {
            assert(s@.subrange(0, i as int).drop_last() =~= s@.subrange(0, i - 1));
        }
        if s.get_char(i - 1) == c {
            return Some(i - 1);
        }
        i = i - 1;
    }
    proof {
        lemma_last_index_bounds(s@, c);
    }
    None
}

pub proof fn lemma_last_index_bounds(s: Seq<char>, c: char)
    ensures
        -1 <= last_index(s, c) < s.len(),
        last_index(s, c) >= 0 ==> s[last_index(s, c)] == c,
    decreases s.len(),
{
    if s.len() > 0 && s.last() != c {
        lemma_last_index_bounds(s.drop_last(), c);
    }
}

pub proof fn lemma_last_index_is_last(s: Seq<char>, c: char)
    ensures
        forall|j: int| last_index(s, c) < j < s.len() ==> s[j] != c,
    decreases s.len(),
{
    lemma_last_index_bounds(s, c);
    if s.len() > 0 && s.last() != c {
        lemma_last_index_is_last(s.drop_last(), c);
        assert forall|j: int| last_index(s, c) < j < s.len() implies s[j] != c by {
            if j < s.len() - 1 {
                assert(s[j] == s.drop_last()[j]);
            }
        }
    }
}

/// A file that takes a new extension holding a second dot followed by a
/// character other than a separator or a dot is renamed: its old extension
/// cannot have held that dot, nor can its end have held that character.
pub proof fn lemma_new_extension_renames(p: Seq<char>, ext: Seq<char>, k: int)
    requires
        has_file_name(p),
        0 < k,
        k + 1 < ext.len(),
        ext[0] == '.',
        ext[k] == '.',
        ext[1] != '/' && ext[1] != '.',
        ext[k + 1] != '/' && ext[k + 1] != '.',
    ensures
        with_extension(p, ext) != p,
{
    let t = trim_tail(p);
    let a = dir_prefix(p);
    let f = file_name(p);
    let st = stem(f);
    lemma_last_index_bounds(t, '/');
    lemma_trim_tail_prefix(p);
    assert(t =~= a + f);
    let q = a + st + ext;
    if q == p {
        assert(q.subrange(a.len() as int, q.len() as int) =~= st + ext);
        let d = last_index(f, '.');
        lemma_last_index_bounds(f, '.');
        lemma_last_index_is_last(f, '.');
        if d > 0 {
            assert(st.len() == d);
            let x: int = a.len() + d + k;
            assert(q[x] == ext[k]);
            assert(q[x + 1] == ext[k + 1]);
            if d + k < f.len() {
                assert(p[x] == t[x]);
                assert(t[x] == f[d + k]);
            } else {
                assert(x + 1 >= t.len());
                assert(p[x + 1] == '/' || p[x + 1] == '.');
            }
        } else {
            assert(st == f);
            let x: int = a.len() + f.len() + 1int;
            assert(q[x] == ext[1]);
            assert(p[x] == '/' || p[x] == '.');
        }
    }
}

/// Text without `c` appended to `a` leaves the last `c` where it was.
pub proof fn lemma_last_index_append(a: Seq<char>, x: Seq<char>, c: char)
    requires
        forall|j: int| 0 <= j < x.len() ==> x[j] != c,
    ensures
        last_index(a + x, c) == last_index(a, c),
    decreases x.len(),
{
    if x.len() > 0 {
        assert((a + x).drop_last() =~= a + x.drop_last());
        lemma_last_index_append(a, x.drop_last(), c);
    } else {
        assert(a + x =~= a);
    }
}

/// A path that names a file still names one once its extension gives way
/// to `ext`, which holds no separator and does not end in a dot; that file
/// is the old stem followed by `ext`.
pub proof fn lemma_renamed_names_file(p: Seq<char>, ext: Seq<char>)
    requires
        has_file_name(p),
        ext.len() >= 2,
        forall|j: int| 0 <= j < ext.len() ==> ext[j] != '/',
        ext.last() != '.',
    ensures
        has_file_name(with_extension(p, ext)),
        file_name(with_extension(p, ext)) == stem(file_name(p)) + ext,
{
    let t = trim_tail(p);
    let i = last_index(t, '/');
    let d = dir_prefix(p);
    let f = file_name(p);
    let st = stem(f);
    lemma_last_index_bounds(t, '/');
    lemma_last_index_is_last(t, '/');
    lemma_last_index_bounds(f, '.');
    let x = st + ext;
    assert forall|j: int| 0 <= j < x.len() implies x[j] != '/' by {
        if j < st.len() {
            assert(x[j] == st[j]);
            assert(st[j] == f[j]);
            assert(f[j] == t[i + 1 + j]);
        } else {
            assert(x[j] == ext[j - st.len()]);
        }
    }
    let q = with_extension(p, ext);
    assert(q =~= d + x);
    assert(q.last() == ext.last());
    assert(trim_tail(q) == q);
    lemma_last_index_append(d, x, '/');
    if i >= 0 {
        assert(d.last() == '/');
        assert(last_index(d, '/') == d.len() - 1);
    } else {
        assert(d.len() == 0);
    }
    assert(file_name(q) =~= x);
}

/// A path that a new workspace may be created at names a file.
pub proof fn lemma_new_data_path_names_file(p: Seq<char>)
    ensures
        new_data_path_of(p) matches Ok(d) ==> has_file_name(d),
{
    reveal_strlit(".json");
    let t = trimmed(p);
    if has_file_name(t) {
        lemma_renamed_names_file(t, json_suffix());
    }
}

/// Removes white space at both ends of `s`.
pub fn trim(s: &str) -> (r: String)
    ensures
        r@ == trimmed(s@),
{
    let n = s.unicode_len();
    let mut i: usize = 0;
    assert(s@.subrange(0, n as int) =~= s@);
    while i < n && is_space(s.get_char(i))
        invariant
            i <= n == s@.len(),
            trim_start(s@) == trim_start(s@.subrange(i as int, n as int)),
        decreases n - i,
    {
        proof {
            assert(s@.subrange(i as int, n as int).drop_first() =~= s@.subrange(i + 1, n as int));
        }
        i = i + 1;
    }
    assert(trim_start(s@) == s@.subrange(i as int, n as int)) by {
        if i < n {
            assert(s@.subrange(i as int, n as int)[0] == s@[i as int]);
        }
    }
    let mut j: usize = n;
    while j > i && is_space(s.get_char(j - 1))
        invariant
            i <= j <= n == s@.len(),
            trimmed(s@) == trim_end(s@.subrange(i as int, j as int)),
        decreases j,
    {
        proof {
            assert(s@.subrange(i as int, j as int).drop_last() =~= s@.subrange(i as int, j - 1));
        }
        j = j - 1;
    }
    String::from_str(s.substring_char(i, j))
}

/// Why a path cannot serve as a data file.
#[derive(Debug, Clone, Copy, PartialEq, Eq)]
pub enum PathError {
    /// The data file's path has no file name to derive a schema name from.
    NoDataFileName,
    /// The path asked for a new workspace names no file.
    NoFileName,
    /// The path is empty once white space is removed.
    EmptyPath,
    /// The file name is empty once its extension and white space are removed.
    EmptyName,
}

impl PathError {
    /// The message shown to the user.
    pub open spec fn text(self) -> Seq<char> {
        match self {
            PathError::NoDataFileName => "データファイル名を取得できません"@,
            PathError::NoFileName => "ファイル名を取得できません"@,
            PathError::EmptyPath => "ファイルパスを指定してください"@,
            PathError::EmptyName => "ファイル名を入力してください"@,
        }
    }

    pub fn message(&self) -> (r: String)
        ensures
            r@ == self.text(),
    {
        match self {
            PathError::NoDataFileName => String::from_str("データファイル名を取得できません"),
            PathError::NoFileName => String::from_str("ファイル名を取得できません"),
            PathError::EmptyPath => String::from_str("ファイルパスを指定してください"),
            PathError::EmptyName => String::from_str("ファイル名を入力してください"),
        }
    }
}

/// The stem of the file name of `p`.
pub fn file_stem(p: &str) -> (r: String)
    ensures
        r@ == stem(file_name(p@)),
{
    let (start, end) = name_bounds(p);
    let name = p.substring_char(start, end);
    let stem_end: usize = match find_last(name, '.') {
        Some(d) => if d == 0 { name.unicode_len() } else { d },
        None => name.unicode_len(),
    };
    assert(name@.subrange(0, name@.len() as int) =~= name@);
    String::from_str(name.substring_char(0, stem_end))
}

/// Whether the file name of `p` has the extension `ext` (given without its dot).
pub fn has_extension(p: &str, ext: &str) -> (r: bool)
    ensures
        r == (extension(file_name(p@)) == Some(ext@)),
{
    let (start, end) = name_bounds(p);
    let name = p.substring_char(start, end);
    match find_last(name, '.') {
        Some(d) => {
            if d == 0 {
                false
            } else {
                let found = String::from_str(name.substring_char(d + 1, name.unicode_len()));
                found == String::from_str(ext)
            }
        },
        None => false,
    }
}

/// Returns `p` cut after the stem of its file name, with `ext` added; a
/// path that names no file is returned as it is.
pub fn replace_extension(p: &str, ext: &str) -> (r: String)
    ensures
        r@ == with_extension(p@, ext@),
{
    if !names_file(p) {
        return String::from_str(p);
    }
    let (start, _end) = name_bounds(p);
    let mut r = String::from_str(p.substring_char(0, start));
    let name_stem = file_stem(p);
    r.append(name_stem.as_str());
    r.append(ext);
    r
}

/// What a new data file's path must satisfy, and where it leads: white
/// space is trimmed, the file name must have a non-blank stem, and the
/// extension becomes `.json`.
pub open spec fn new_data_path_of(p: Seq<char>) -> Result<Seq<char>, PathError> {
    let t = trimmed(p);
    if t.len() == 0 {
        Err(PathError::EmptyPath)
    } else if !has_file_name(t) {
        Err(PathError::NoFileName)
    } else if trimmed(stem(file_name(t))).len() == 0 {
        Err(PathError::EmptyName)
    } else if extension(file_name(t)) == Some("json"@) {
        Ok(t)
    } else {
        Ok(with_extension(t, json_suffix()))
    }
}

/// Normalises the path that a new workspace is asked for.
pub fn new_data_path(path: &str) -> (r: Result<String, PathError>)
    ensures
        r matches Ok(s) ==> new_data_path_of(path@) == Ok::<Seq<char>, PathError>(s@),
        r matches Err(e) ==> new_data_path_of(path@) == Err::<Seq<char>, PathError>(e),
{
    let t = trim(path);
    if t.as_str().unicode_len() == 0 {
        return Err(PathError::EmptyPath);
    }
    if !names_file(t.as_str()) {
        return Err(PathError::NoFileName);
    }
    let name_stem = file_stem(t.as_str());
    let trimmed_stem = trim(name_stem.as_str());
    if trimmed_stem.as_str().unicode_len() == 0 {
        return Err(PathError::EmptyName);
    }
    if has_extension(t.as_str(), "json") {
        Ok(t)
    } else {
        Ok(replace_extension(t.as_str(), ".json"))
    }
}

/// Derives the schema path of the data file `data_path`: `{stem}.schema.json`
/// in the folder of the data file.
pub fn schema_path_for(data_path: &str) -> (r: Result<String, PathError>)
    ensures
        has_file_name(data_path@) ==> (r matches Ok(s) && s@ == schema_path_of(data_path@)),
        !has_file_name(data_path@) ==> r == Err::<String, PathError>(PathError::NoDataFileName),
{
    if !names_file(data_path) {
        return Err(PathError::NoDataFileName);
    }
    let dir = folder(data_path);
    let mut name = file_stem(data_path);
    name.append(".schema.json");
    let n = dir.as_str().unicode_len();
    if n == 0 {
        Ok(name)
    } else if dir.as_str().get_char(n - 1) == '/' {
        let mut r = dir;
        r.append(name.as_str());
        Ok(r)
    } else {
        let mut r = dir;
        r.append("/");
        proof {
            reveal_strlit("/");
        }
        r.append(name.as_str());
        assert(r@ =~= folder_of(data_path@) + seq!['/'] + stem(file_name(data_path@)) + schema_suffix());
        Ok(r)
    }
}

/// Whether `p` ends in a file name.
pub fn names_file(p: &str) -> (r: bool)
    ensures
        r == has_file_name(p@),
{
    let (start, end) = name_bounds(p);
    let len = end - start;
    if len == 0 {
        return false;
    }
    assert(file_name(p@).len() == len);
    if len == 1 {
        if p.get_char(start) == '.' {
            assert(file_name(p@) =~= seq!['.']);
            return false;
        }
        assert(file_name(p@)[0] != seq!['.'][0]);
        return true;
    }
    if len == 2 {
        if p.get_char(start) == '.' && p.get_char(start + 1) == '.' {
            assert(file_name(p@) =~= seq!['.', '.']);
            return false;
        }
        assert(file_name(p@)[0] != '.' || file_name(p@)[1] != '.');
        return true;
    }
    true
}

/// The containing folder of `p`, as shown to the user.
pub fn folder(p: &str) -> (r: String)
    ensures
        r@ == folder_of(p@),
{
    let (start, _end) = name_bounds(p);
    let dir = p.substring_char(0, start);
    String::from_str(trim_tail_str(dir))
}

} // verus!
