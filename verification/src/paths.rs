//! File names and extensions of Unix paths, and what they say about a file:
//! which kinds the explorer shows, which it opens as data, which icon it
//! draws.
use vstd::prelude::*;
use crate::text::{chars_of, lower_ascii, str_eq, string_of, lower_ascii_str};

verus! {

/// The characters after the last `/`.
pub open spec fn last_segment(s: Seq<char>) -> Seq<char>
    decreases s.len(),
{
    if s.len() == 0 || s.last() == '/' {
        Seq::empty()
    } else {
        last_segment(s.drop_last()).push(s.last())
    }
}

/// The final component of a Unix path, as `Path::file_name` gives it:
/// trailing `/` and `.` components are passed over, and a path that ends in
/// `..` or has no normal component has none.
pub open spec fn file_name_of(s: Seq<char>) -> Option<Seq<char>>
    decreases s.len(),
{
    if s.len() == 0 {
        None
    } else if s.last() == '/' {
        file_name_of(s.drop_last())
    } else if last_segment(s) == seq!['.'] {
        file_name_of(s.drop_last())
    } else if last_segment(s) == seq!['.', '.'] {
        None
    } else {
        Some(last_segment(s))
    }
}

/// The position of the last `.` in a name.
pub open spec fn last_dot(f: Seq<char>) -> Option<int>
    decreases f.len(),
{
    if f.len() == 0 {
        None
    } else if f.last() == '.' {
        Some(f.len() - 1)
    } else {
        last_dot(f.drop_last())
    }
}

/// `Path::extension`: the part of the file name after its last `.`; none
/// without a file name, without a `.`, or for a name whose only `.` comes
/// first.
pub open spec fn extension_of(s: Seq<char>) -> Option<Seq<char>> {
    match file_name_of(s) {
        None => None,
        Some(f) => match last_dot(f) {
            None => None,
            Some(k) => if k == 0 {
                None
            } else {
                Some(f.subrange(k + 1, f.len() as int))
            },
        },
    }
}

/// The extension, lower-cased, or the empty text where there is none.
pub open spec fn lower_ext(s: Seq<char>) -> Seq<char> {
    match extension_of(s) {
        Some(e) => lower_ascii(e),
        None => Seq::empty(),
    }
}

/// The extensions the explorer lists, in any letter case.
pub open spec fn supported_ext(e: Seq<char>) -> bool {
    ||| e == "parquet"@
    ||| e == "csv"@
    ||| e == "tsv"@
    ||| e == "json"@
    ||| e == "jsonl"@
    ||| e == "sql"@
}

pub open spec fn is_supported_spec(path: Seq<char>) -> bool {
    extension_of(path) is Some && supported_ext(lower_ext(path))
}

pub open spec fn is_sql_spec(path: Seq<char>) -> bool {
    extension_of(path) is Some && lower_ext(path) == "sql"@
}

pub open spec fn is_jsonl_spec(path: Seq<char>) -> bool {
    extension_of(path) is Some && (lower_ext(path) == "jsonl"@ || lower_ext(path) == "ndjson"@)
}

/// A file the explorer opens as data: listed and not SQL, or
/// newline-delimited JSON under either of its extensions.
pub open spec fn is_data_file_spec(path: Seq<char>) -> bool {
    (is_supported_spec(path) && !is_sql_spec(path)) || is_jsonl_spec(path)
}

/// The icon drawn before a file's name.
pub open spec fn file_icon_spec(path: Seq<char>) -> Seq<char> {
    let e = lower_ext(path);
    if e == "parquet"@ {
        "▣"@
    } else if e == "csv"@ || e == "tsv"@ {
        "▦"@
    } else if e == "json"@ {
        "{ }"@
    } else if e == "jsonl"@ || e == "ndjson"@ {
        "☰"@
    } else if e == "sql"@ {
        "Σ"@
    } else {
        "·"@
    }
}

fn last_segment_start(v: &Vec<char>, end: usize) -> (k: usize)
    requires
        end <= v@.len(),
    ensures
        k <= end,
        v@.subrange(k as int, end as int) == last_segment(v@.take(end as int)),
{
    let mut k: usize = end;
    while k > 0 && v[k - 1] != '/'
        invariant
            k <= end <= v@.len(),
            last_segment(v@.take(end as int)) == last_segment(v@.take(k as int)) + v@.subrange(
                k as int,
                end as int,
            ),
        decreases k,
    {
        proof {
            let t = v@.take(k as int);
            assert(t.drop_last() =~= v@.take(k - 1));
            assert(t.last() == v@[k - 1]);
            assert(v@.subrange(k - 1, end as int) =~= seq![v@[k - 1]] + v@.subrange(
                k as int,
                end as int,
            ));
            assert(last_segment(t) == last_segment(v@.take(k - 1)).push(v@[k - 1]));
            assert(last_segment(v@.take(k - 1)).push(v@[k - 1]) + v@.subrange(k as int, end as int)
                =~= last_segment(v@.take(k - 1)) + v@.subrange(k - 1, end as int));
        }
        k -= 1;
    }
    proof {
        let t = v@.take(k as int);
        if k > 0 {
            assert(t.last() == v@[k - 1]);
        }
        assert(last_segment(t) == Seq::<char>::empty());
        assert(last_segment(v@.take(end as int)) =~= v@.subrange(k as int, end as int));
    }
    k
}

/// The final component of a path (see [`file_name_of`]).
pub fn file_name(path: &str) -> (r: Option<String>)
    ensures
        match r {
            Some(f) => file_name_of(path@) == Some(f@),
            None => file_name_of(path@) is None,
        },
{
    let v = chars_of(path);
    let mut end: usize = v.len();
    assert(v@.take(end as int) =~= v@);
    loop
        invariant
            end <= v@.len(),
            v@ == path@,
            file_name_of(path@) == file_name_of(v@.take(end as int)),
        decreases end,
    {
        if end == 0 {
            return None;
        }
        let t = Ghost(v@.take(end as int));
        assert(t@.drop_last() =~= v@.take(end - 1));
        if v[end - 1] == '/' {
            end -= 1;
        } else {
            let k = last_segment_start(&v, end);
            let seg_len = end - k;
            if seg_len == 1 && v[k] == '.' {
                assert(last_segment(t@) =~= seq!['.']);
                end -= 1;
            } else if seg_len == 2 && v[k] == '.' && v[k + 1] == '.' {
                assert(last_segment(t@) =~= seq!['.', '.']);
                return None;
            } else {
                let ghost seg = v@.subrange(k as int, end as int);
                assert(seg.len() == seg_len);
                assert(last_segment(t@) != seq!['.']) by {
                    if last_segment(t@) == seq!['.'] {
                        assert(seg[0] == v@[k as int]);
                    }
                }
                assert(last_segment(t@) != seq!['.', '.']) by {
                    if last_segment(t@) == seq!['.', '.'] {
                        assert(seg[0] == v@[k as int]);
                        assert(seg[1] == v@[k + 1]);
                    }
                }
                let mut seg: Vec<char> = Vec::new();
                let mut m: usize = k;
                while m < end
                    invariant
                        k <= m <= end <= v@.len(),
                        seg@ == v@.subrange(k as int, m as int),
                    decreases end - m,
                {
                    seg.push(v[m]);
                    m += 1;
                    assert(seg@ =~= v@.subrange(k as int, m as int));
                }
                return Some(string_of(&seg));
            }
        }
    }
}

/// The extension of a path (see [`extension_of`]).
pub fn extension(path: &str) -> (r: Option<String>)
    ensures
        match r {
            Some(e) => extension_of(path@) == Some(e@),
            None => extension_of(path@) is None,
        },
{
    let f = match file_name(path) {
        Some(f) => f,
        None => return None,
    };
    let v = chars_of(f.as_str());
    let mut k: usize = v.len();
    assert(v@.take(k as int) =~= v@);
    while k > 0 && v[k - 1] != '.'
        invariant
            k <= v@.len(),
            last_dot(v@) == last_dot(v@.take(k as int)),
        decreases k,
    {
        assert(v@.take(k as int).drop_last() =~= v@.take(k - 1));
        k -= 1;
    }
    if k == 0 {
        assert(v@.take(0) =~= Seq::<char>::empty());
        return None;
    }
    assert(v@.take(k as int).last() == '.');
    if k == 1 {
        return None;
    }
    let mut out: Vec<char> = Vec::new();
    let mut m: usize = k;
    while m < v.len()
        invariant
            k <= m <= v@.len(),
            out@ == v@.subrange(k as int, m as int),
        decreases v.len() - m,
    {
        out.push(v[m]);
        m += 1;
        assert(out@ =~= v@.subrange(k as int, m as int));
    }
    Some(string_of(&out))
}

/// The lower-cased extension, or the empty text.
pub fn lower_extension(path: &str) -> (r: String)
    ensures
        r@ == lower_ext(path@),
{
    match extension(path) {
        Some(e) => lower_ascii_str(e.as_str()),
        None => String::new(),
    }
}

/// Whether the explorer lists a file of this path: `.parquet`, `.csv`,
/// `.tsv`, `.json`, `.jsonl` or `.sql`, in any letter case.
pub fn is_supported(path: &str) -> (b: bool)
    ensures
        b == is_supported_spec(path@),
{
    match extension(path) {
        None => false,
        Some(e) => {
            let l = lower_ascii_str(e.as_str());
            let s = l.as_str();
            str_eq(s, "parquet") || str_eq(s, "csv") || str_eq(s, "tsv") || str_eq(s, "json")
                || str_eq(s, "jsonl") || str_eq(s, "sql")
        },
    }
}

/// Whether a path names an SQL file.
pub fn is_sql(path: &str) -> (b: bool)
    ensures
        b == is_sql_spec(path@),
{
    match extension(path) {
        None => false,
        Some(e) => {
            let l = lower_ascii_str(e.as_str());
            str_eq(l.as_str(), "sql")
        },
    }
}

/// Whether a path names a newline-delimited JSON file (`.jsonl`, `.ndjson`).
pub fn is_jsonl(path: &str) -> (b: bool)
    ensures
        b == is_jsonl_spec(path@),
{
    match extension(path) {
        None => false,
        Some(e) => {
            let l = lower_ascii_str(e.as_str());
            str_eq(l.as_str(), "jsonl") || str_eq(l.as_str(), "ndjson")
        },
    }
}

/// Whether a file of this path is opened as data (listed and not SQL).
pub fn is_data_file(path: &str) -> (b: bool)
    ensures
        b == is_data_file_spec(path@),
{
    (is_supported(path) && !is_sql(path)) || is_jsonl(path)
}

/// Whether a path is opened as data: a directory that directly holds a data
/// file, or a data file itself.  Whether the path is a directory, and whether
/// it holds such a file, are read from the file system by the caller.
pub fn is_tabular(path: &str, is_dir: bool, dir_has_tabular: bool) -> (b: bool)
    ensures
        b == (if is_dir {
            dir_has_tabular
        } else {
            is_data_file_spec(path@)
        }),
{
    if is_dir {
        dir_has_tabular
    } else {
        is_data_file(path)
    }
}

/// The icon drawn before a file's name in the tree.
pub fn file_icon(path: &str) -> (r: &'static str)
    ensures
        r@ == file_icon_spec(path@),
{
    let e = lower_extension(path);
    let s = e.as_str();
    if str_eq(s, "parquet") {
        "▣"
    } else if str_eq(s, "csv") || str_eq(s, "tsv") {
        "▦"
    } else if str_eq(s, "json") {
        "{ }"
    } else if str_eq(s, "jsonl") || str_eq(s, "ndjson") {
        "☰"
    } else if str_eq(s, "sql") {
        "Σ"
    } else {
        "·"
    }
}

/// Whether a path has the extension `parquet` in any letter case.
pub fn has_parquet_ext(path: &str) -> (b: bool)
    ensures
        b == (extension_of(path@) is Some && lower_ext(path@) == "parquet"@),
{
    match extension(path) {
        None => false,
        Some(e) => {
            let l = lower_ascii_str(e.as_str());
            str_eq(l.as_str(), "parquet")
        },
    }
}

/// An SQL file is one the explorer lists, and a newline-delimited JSON file
/// is always opened as data.
pub proof fn lemma_sql_listed_jsonl_data(path: Seq<char>)
    ensures
        is_sql_spec(path) ==> is_supported_spec(path),
        is_jsonl_spec(path) ==> is_data_file_spec(path),
{
}

/// The folder tree lists exactly the `.parquet`, `.csv`, `.tsv`, `.json`,
/// `.jsonl` and `.sql` files, in any letter case: a `.ndjson` file is not
/// listed.
pub proof fn lemma_listed_kinds(path: Seq<char>)
    ensures
        is_supported_spec(path) <==> extension_of(path) is Some && {
            let e = lower_ext(path);
            e == "parquet"@ || e == "csv"@ || e == "tsv"@ || e == "json"@ || e == "jsonl"@
                || e == "sql"@
        },
{
}

/// A data file is never an SQL file, and an SQL file is never opened as data.
pub proof fn lemma_data_excludes_sql(path: Seq<char>)
    ensures
        is_data_file_spec(path) ==> !is_sql_spec(path),
        is_sql_spec(path) ==> !is_data_file_spec(path),
{
    reveal_strlit("sql");
    reveal_strlit("jsonl");
    reveal_strlit("ndjson");
    assert("sql"@.len() != "jsonl"@.len());
    assert("sql"@.len() != "ndjson"@.len());
}

} // verus!
