//! Project file paths: where a project is saved, which importer a path
//! calls for, and the class path of the import helper.
use crate::text::{
    eq_ignore_ascii_case, eq_ignore_ascii_case_spec, join, join_spec, lemma_trim_fixed,
    lemma_trim_trimmed, split_on, trim_spec, trim_string,
};
use vstd::prelude::*;

verus! {

/// Whether a path reads the same under every platform's path rules: it holds
/// neither a backslash (a separator on Windows) nor a colon (which starts a
/// Windows drive prefix), and does not begin with two slashes (a network
/// share on Windows), so `/` is its only separator and it has no prefix.
pub open spec fn portable_path(path: Seq<char>) -> bool {
    &&& !path.contains('\\')
    &&& !path.contains(':')
    &&& !(path.len() >= 2 && path[0] == '/' && path[1] == '/')
}

/// The last piece that names a component: neither empty (repeated or
/// trailing separators) nor `.` (which the path rules drop).
pub open spec fn last_named_piece(pieces: Seq<Seq<char>>) -> Option<Seq<char>>
    decreases pieces.len(),
{
    if pieces.len() == 0 {
        None
    } else if pieces.last().len() == 0 || pieces.last() == seq!['.'] {
        last_named_piece(pieces.drop_last())
    } else {
        Some(pieces.last())
    }
}

/// `Path::file_name` of a path whose only separator is `/`: its final
/// component, unless there is none or it is `..`.
pub open spec fn file_name_spec(path: Seq<char>) -> Option<Seq<char>> {
    match last_named_piece(split_on(path, '/')) {
        Some(p) => if p == seq!['.', '.'] {
            None
        } else {
            Some(p)
        },
        None => None,
    }
}

/// The position of the last `.` in a text, if any.
pub open spec fn last_dot(s: Seq<char>) -> Option<int>
    decreases s.len(),
{
    if s.len() == 0 {
        None
    } else if s.last() == '.' {
        Some(s.len() - 1)
    } else {
        last_dot(s.drop_last())
    }
}

/// `Path::extension` of a path whose only separator is `/`: the part of the
/// file name after its last `.`; none when the name has no `.` or its only
/// `.` leads it.
pub open spec fn path_extension_spec(path: Seq<char>) -> Option<Seq<char>> {
    match file_name_spec(path) {
        Some(name) => match last_dot(name) {
            Some(i) => if i == 0 {
                None
            } else {
                Some(name.subrange(i + 1, name.len() as int))
            },
            None => None,
        },
        None => None,
    }
}

/// `std::path::Path::extension` of `path` (a `&str`, so always valid
/// Unicode). For a path whose only separator is `/` the contract states the
/// documented result: the part of the final component after its last `.`,
/// with none for a name without `.`, a name whose only `.` leads it, or a path
/// without a final named component. For paths with a backslash or a colon the
/// result depends on the platform's separators and prefixes, and the contract
/// states nothing of it.
#[verifier::external_body]
fn path_extension(path: &str) -> (r: Option<String>)
    ensures
        portable_path(path@) ==> match r {
            Some(e) => path_extension_spec(path@) == Some(e@),
            None => path_extension_spec(path@) is None,
        },
{
    match std::path::Path::new(path).extension() {
        Some(ext) => match ext.to_str() {
            Some(text) => Some(text.to_string()),
            None => None,
        },
        None => None,
    }
}

/// The position just after the last `/` of a text (0 when it has none):
/// where its final piece starts.
pub open spec fn last_slash_end(s: Seq<char>) -> int
    decreases s.len(),
{
    if s.len() == 0 {
        0
    } else if s.last() == '/' {
        s.len() as int
    } else {
        last_slash_end(s.drop_last())
    }
}

/// Whether a path whose only separator is `/` ends with its file name: its
/// final piece is neither empty, `.` nor `..`.
pub open spec fn ends_with_file_name(path: Seq<char>) -> bool {
    let name = path.subrange(last_slash_end(path), path.len() as int);
    &&& portable_path(path)
    &&& name.len() > 0
    &&& name != seq!['.']
    &&& name != seq!['.', '.']
}

/// `Path::with_extension(path, ext)` for a path that ends with its file name:
/// the file name's extension (the part after its last `.`, where that `.`
/// does not lead the name) is replaced by `ext`, or `ext` is added when the
/// name has none; an empty `ext` leaves the name without extension.
pub open spec fn with_extension_spec(path: Seq<char>, ext: Seq<char>) -> Seq<char> {
    let k = last_slash_end(path);
    let name = path.subrange(k, path.len() as int);
    let stem_end = match last_dot(name) {
        Some(i) => if i > 0 {
            k + i
        } else {
            path.len() as int
        },
        None => path.len() as int,
    };
    if ext.len() == 0 {
        path.subrange(0, stem_end)
    } else {
        path.subrange(0, stem_end) + seq!['.'] + ext
    }
}

/// Whether the contract of [`path_with_extension`] speaks of `path`: it ends
/// with its file name, and that name does not have the stem `.` (two dots
/// and an extension, such as `..mpp`), on which `std` versions differ.
pub open spec fn with_extension_stated(path: Seq<char>) -> bool {
    let name = path.subrange(last_slash_end(path), path.len() as int);
    &&& ends_with_file_name(path)
    &&& !(name[0] == '.' && last_dot(name) == Some(1int))
}

/// Whether a text holds a path separator of some platform (`/` or `\\`).
pub open spec fn has_separator(s: Seq<char>) -> bool {
    s.contains('/') || s.contains('\\')
}

/// `std::path::Path::with_extension`, shown with `Path::display`. The
/// extension may hold no path separator, on which `PathBuf::set_extension`
/// panics. For a path whose only separator is `/` and that ends with its file
/// name, the contract states the documented result (see
/// [`with_extension_spec`] and [`with_extension_stated`]). For other paths (a
/// trailing separator or `.`, a backslash, a colon, a network share, a name
/// such as `..mpp`) the text depends on the platform or the version of `std`
/// and is not documented; the contract states of it only that a non-empty
/// path with a non-empty extension gives a non-empty text, which holds on
/// every platform: the result carries that extension, or is the path itself
/// when it has no file name (`set_extension` then does nothing).
#[verifier::external_body]
fn path_with_extension(path: &str, extension: &str) -> (r: String)
    requires
        !has_separator(extension@),
    ensures
        with_extension_stated(path@) ==> r@ == with_extension_spec(path@, extension@),
        path@.len() > 0 && extension@.len() > 0 ==> r@.len() > 0,
{
    std::path::Path::new(path).with_extension(extension).display().to_string()
}

/// Whether a file extension names a Microsoft Project file (`mpp`, in any
/// ASCII case).
pub open spec fn is_mpp_extension_spec(extension: Option<Seq<char>>) -> bool {
    extension matches Some(e) && eq_ignore_ascii_case_spec(e, "mpp"@)
}

/// Whether a file extension names a Microsoft Project file.
pub fn is_mpp_extension(extension: &Option<String>) -> (r: bool)
    ensures
        r == is_mpp_extension_spec(
            match extension {
                Some(e) => Some(e@),
                None => None,
            },
        ),
{
    match extension {
        Some(e) => eq_ignore_ascii_case(e.as_str(), "mpp"),
        None => false,
    }
}

/// Whether a path names a Microsoft Project file by its extension (see
/// [`path_extension_spec`] for paths whose only separator is `/`).
pub fn is_mpp_path(path: &str) -> (r: bool)
    ensures
        portable_path(path@) ==> r == is_mpp_extension_spec(path_extension_spec(path@)),
{
    let extension = path_extension(path);
    is_mpp_extension(&extension)
}

/// The save path for a trimmed entry `trimmed` whose extension is
/// `extension`, where `json_path` is the entry with extension `json`: empty
/// for an empty entry, `json_path` for a Microsoft Project file, else the
/// entry itself.
pub open spec fn save_path_spec(
    trimmed: Seq<char>,
    extension: Option<Seq<char>>,
    json_path: Seq<char>,
) -> Seq<char> {
    if trimmed.len() == 0 {
        Seq::empty()
    } else if is_mpp_extension_spec(extension) {
        json_path
    } else {
        trimmed
    }
}

/// Chooses the save path from a trimmed entry, its extension and the entry
/// with extension `json` (see [`save_path_spec`]).
pub fn save_path_choice(trimmed: &str, extension: &Option<String>, json_path: &str) -> (r: String)
    ensures
        r@ == save_path_spec(
            trimmed@,
            match extension {
                Some(e) => Some(e@),
                None => None,
            },
            json_path@,
        ),
{
    if trimmed.unicode_len() == 0 {
        String::new()
    } else if is_mpp_extension(extension) {
        String::from_str(json_path)
    } else {
        String::from_str(trimmed)
    }
}

/// The path under which a project entered as `path` is saved: empty for a
/// blank entry; for a Microsoft Project file the trimmed entry with its
/// extension replaced by `json`; otherwise the trimmed entry.
pub open spec fn json_save_spec(path: Seq<char>) -> Seq<char> {
    let t = trim_spec(path);
    if t.len() == 0 {
        Seq::empty()
    } else if is_mpp_extension_spec(path_extension_spec(t)) {
        with_extension_spec(t, seq!['j', 's', 'o', 'n'])
    } else {
        t
    }
}

/// Whether [`json_save_spec`] is what the platform's path rules give for
/// `path`: the trimmed entry has `/` as its only separator and, when it is a
/// Microsoft Project file, ends with its file name.
pub open spec fn json_save_stated(path: Seq<char>) -> bool {
    let t = trim_spec(path);
    &&& portable_path(t)
    &&& is_mpp_extension_spec(path_extension_spec(t)) ==> with_extension_stated(t)
}

/// The final piece of a text split at `/` starts at [`last_slash_end`] and
/// holds no `/`; a `/` stands just before it, unless it starts the text.
proof fn lemma_split_last(s: Seq<char>)
    ensures
        0 <= last_slash_end(s) <= s.len(),
        last_slash_end(s) > 0 ==> s[last_slash_end(s) - 1] == '/',
        forall|i: int| last_slash_end(s) <= i < s.len() ==> s[i] != '/',
        split_on(s, '/').len() > 0,
        split_on(s, '/').last() =~= s.subrange(last_slash_end(s), s.len() as int),
    decreases s.len(),
{
    if s.len() > 0 {
        lemma_split_last(s.drop_last());
        assert forall|i: int| last_slash_end(s) <= i < s.len() implies s[i] != '/' by {
            if i < s.len() - 1 {
                assert(s[i] == s.drop_last()[i]);
            }
        }
    }
}

/// Appending a text without `/` keeps where the final piece starts.
proof fn lemma_slash_end_append(a: Seq<char>, b: Seq<char>)
    requires
        forall|i: int| 0 <= i < b.len() ==> b[i] != '/',
    ensures
        last_slash_end(a + b) == last_slash_end(a),
    decreases b.len(),
{
    if b.len() == 0 {
        assert(a + b =~= a);
    } else {
        assert((a + b).drop_last() =~= a + b.drop_last());
        assert((a + b).last() == b.last());
        lemma_slash_end_append(a, b.drop_last());
    }
}

/// Where the last `.` of a text stands, and that none follows it.
proof fn lemma_last_dot_bounds(s: Seq<char>)
    ensures
        last_dot(s) matches Some(i) ==> 0 <= i < s.len() && s[i] == '.' && forall|j: int|
            i < j < s.len() ==> s[j] != '.',
    decreases s.len(),
{
    if s.len() > 0 && s.last() != '.' {
        lemma_last_dot_bounds(s.drop_last());
        if let Some(i) = last_dot(s) {
            assert forall|j: int| i < j < s.len() implies s[j] != '.' by {
                if j < s.len() - 1 {
                    assert(s[j] == s.drop_last()[j]);
                }
            }
        }
    }
}

/// The last `.` of `a + b`, when `b` holds one, is the last `.` of `b`.
proof fn lemma_last_dot_append(a: Seq<char>, b: Seq<char>)
    requires
        last_dot(b) is Some,
    ensures
        last_dot(a + b) == Some(a.len() + last_dot(b)->0),
    decreases b.len(),
{
    assert((a + b).last() == b.last());
    if b.last() != '.' {
        assert((a + b).drop_last() =~= a + b.drop_last());
        lemma_last_dot_append(a, b.drop_last());
    }
}

/// A path that ends with its file name has that name as its file name.
proof fn lemma_file_name(path: Seq<char>)
    requires
        ends_with_file_name(path),
    ensures
        file_name_spec(path) == Some(path.subrange(last_slash_end(path), path.len() as int)),
{
    lemma_split_last(path);
}

/// The saved path of a saved path is itself: saving twice gives the same
/// path as saving once, wherever the path rules give [`json_save_spec`].
pub proof fn lemma_json_save_idempotent(path: Seq<char>)
    requires
        json_save_stated(path),
    ensures
        json_save_stated(json_save_spec(path)),
        json_save_spec(json_save_spec(path)) == json_save_spec(path),
{
    let t = trim_spec(path);
    lemma_trim_trimmed(path);
    reveal_strlit("mpp");
    if t.len() == 0 {
        assert(t =~= Seq::<char>::empty());
    } else if is_mpp_extension_spec(path_extension_spec(t)) {
        let k = last_slash_end(t);
        let name = t.subrange(k, t.len() as int);
        lemma_split_last(t);
        lemma_file_name(t);
        lemma_last_dot_bounds(name);
        let i = last_dot(name)->0;
        assert(i > 0);
        let ext = seq!['j', 's', 'o', 'n'];
        let tail = seq!['.'] + ext;
        let a = t.subrange(0, k + i);
        let j = with_extension_spec(t, ext);
        assert(j =~= a + tail);
        // The final piece of `j` starts where that of `t` does.
        let head = t.subrange(0, k);
        assert(a =~= head + name.subrange(0, i));
        if k > 0 {
            assert(head.last() == '/');
        } else {
            assert(head =~= Seq::<char>::empty());
        }
        assert(last_slash_end(head) == k);
        lemma_slash_end_append(head, name.subrange(0, i));
        assert(tail[0] == '.');
        lemma_slash_end_append(a, tail);
        assert(last_slash_end(j) == k);
        let jname = j.subrange(k, j.len() as int);
        assert(jname =~= name.subrange(0, i) + tail);
        // Its last `.` is the one before `json`.
        assert(tail =~= seq!['.', 'j', 's', 'o', 'n']);
        assert(seq!['.', 'j', 's', 'o', 'n'].drop_last() =~= seq!['.', 'j', 's', 'o']);
        assert(seq!['.', 'j', 's', 'o'].drop_last() =~= seq!['.', 'j', 's']);
        assert(seq!['.', 'j', 's'].drop_last() =~= seq!['.', 'j']);
        assert(seq!['.', 'j'].drop_last() =~= seq!['.']);
        assert(last_dot(seq!['.']) == Some(0int));
        assert(last_dot(seq!['.', 'j']) == Some(0int));
        assert(last_dot(seq!['.', 'j', 's']) == Some(0int));
        assert(last_dot(seq!['.', 'j', 's', 'o']) == Some(0int));
        assert(last_dot(tail) == Some(0int));
        lemma_last_dot_append(name.subrange(0, i), tail);
        assert(last_dot(jname) == Some(i));
        // `j` is portable and ends with its file name.
        assert(!j.contains('\\')) by {
            if j.contains('\\') {
                let x = choose|x: int| 0 <= x < j.len() && j[x] == '\\';
                if x < a.len() {
                    assert(t[x] == j[x]);
                }
            }
        }
        assert(!j.contains(':')) by {
            if j.contains(':') {
                let x = choose|x: int| 0 <= x < j.len() && j[x] == ':';
                if x < a.len() {
                    assert(t[x] == j[x]);
                }
            }
        }
        assert(j[0] == t[0]);
        if j.len() >= 2 && j[0] == '/' && j[1] == '/' {
            assert(k + i >= 2);
            assert(j[1] == t[1]);
        }
        assert(ends_with_file_name(j));
        lemma_file_name(j);
        assert(path_extension_spec(j) == Some(jname.subrange(i + 1, jname.len() as int)));
        assert(jname.subrange(i + 1, jname.len() as int) =~= ext);
        assert(!is_mpp_extension_spec(path_extension_spec(j)));
        // `j` begins with the first character of `t` and ends with `n`.
        lemma_trim_fixed(j);
    }
}

/// Saves under [`json_save_spec`] wherever the path rules give it
/// ([`json_save_stated`]); on every path, the result is empty exactly when
/// the entry is blank.
pub fn json_save_path(path: &str) -> (r: String)
    ensures
        r@.len() == 0 <==> trim_spec(path@).len() == 0,
        json_save_stated(path@) ==> r@ == json_save_spec(path@),
{
    let trimmed = trim_string(path);
    if trimmed.unicode_len() == 0 {
        return String::new();
    }
    let extension = path_extension(trimmed.as_str());
    proof {
        reveal_strlit("json");
        assert(!"json"@.contains('/'));
        assert(!"json"@.contains('\\'));
    }
    let json_path = path_with_extension(trimmed.as_str(), "json");
    let r = save_path_choice(trimmed.as_str(), &extension, json_path.as_str());
    proof {
        assert("json"@ =~= seq!['j', 's', 'o', 'n']);
    }
    r
}

/// The class path of the import helper: the helper's classes, the MPXJ jar
/// and its dependency jars, separated by `;`.
pub fn classpath(classes_dir: &str, mpxj_jar: &str, jars: &Vec<String>) -> (r: String)
    ensures
        r@ == join_spec(seq![classes_dir@, mpxj_jar@] + jars@.map_values(|j: String| j@), ";"@),
{
    let mut parts: Vec<String> = Vec::new();
    parts.push(String::from_str(classes_dir));
    parts.push(String::from_str(mpxj_jar));
    let mut i: usize = 0;
    while i < jars.len()
        invariant
            i <= jars.len(),
            parts@.map_values(|p: String| p@) == seq![classes_dir@, mpxj_jar@] + jars@.subrange(
                0,
                i as int,
            ).map_values(|j: String| j@),
        decreases jars.len() - i,
    {
        let ghost before = parts@.map_values(|p: String| p@);
        parts.push(jars[i].clone());
        assert(parts@.map_values(|p: String| p@) =~= before.push(jars@[i as int]@));
        i = i + 1;
        assert(parts@.map_values(|p: String| p@) =~= seq![classes_dir@, mpxj_jar@] + jars@.subrange(
            0,
            i as int,
        ).map_values(|j: String| j@));
    }
    assert(jars@.subrange(0, jars.len() as int) =~= jars@);
    join(&parts, ";")
}

} // verus!
