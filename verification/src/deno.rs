//! Source classification for a JavaScript/TypeScript engine backend.
//!
//! The engine itself — compiling modules, executing functions — lives
//! outside this crate; what is decidable from the source description alone
//! is decided here: which sources the backend takes, which file the entry
//! point of a directory is, and the glob pattern that lists a directory's
//! candidate files.

use vstd::prelude::*;

use crate::source::PluginSource;

verus! {

/// Position `i` holds the last occurrence of `c` in `s`.
pub open spec fn is_last_occurrence(s: Seq<char>, i: int, c: char) -> bool {
    0 <= i < s.len() && s[i] == c && forall|j: int| i < j < s.len() ==> s[j] != c
}

/// Where the file name of a path starts: right after the last `/`, or at
/// the start when the path has no separator.
pub open spec fn file_name_start(s: Seq<char>) -> int {
    if exists|i: int| is_last_occurrence(s, i, '/') {
        (choose|i: int| is_last_occurrence(s, i, '/')) + 1
    } else {
        0
    }
}

/// The file name of a path: everything after the last separator.
pub open spec fn file_name_of(s: Seq<char>) -> Seq<char> {
    s.subrange(file_name_start(s), s.len() as int)
}

/// The extension of a path: what follows the last `.` of its file name,
/// provided that dot is neither absent nor the file name's first character.
pub open spec fn extension_of(s: Seq<char>) -> Option<Seq<char>> {
    let fname = file_name_of(s);
    if exists|i: int| #![auto] 0 < i < fname.len() && is_last_occurrence(fname, i, '.') {
        let i = choose|i: int| #![auto] 0 < i < fname.len() && is_last_occurrence(fname, i, '.');
        Some(fname.subrange(i + 1, fname.len() as int))
    } else {
        None
    }
}

/// The stem of a path: its file name up to the last `.`, or the whole file
/// name when [`extension_of`] is absent.
pub open spec fn stem_of(s: Seq<char>) -> Seq<char> {
    let fname = file_name_of(s);
    if exists|i: int| #![auto] 0 < i < fname.len() && is_last_occurrence(fname, i, '.') {
        let i = choose|i: int| #![auto] 0 < i < fname.len() && is_last_occurrence(fname, i, '.');
        fname.subrange(0, i)
    } else {
        fname
    }
}

/// The position of the first file whose stem is `index`, if any.
pub open spec fn first_index_stem(files: Seq<Seq<char>>) -> Option<int>
    decreases files.len(),
{
    if files.len() == 0 {
        None
    } else if stem_of(files[0]) == "index"@ {
        Some(0int)
    } else {
        match first_index_stem(files.drop_first()) {
            Some(i) => Some(i + 1),
            None => None,
        }
    }
}

/// Which directory entry a load should treat as the entry point: the first
/// file whose stem is `index`, or failing that the first file.
pub open spec fn entry_choice(files: Seq<Seq<char>>) -> Option<int> {
    if files.len() == 0 {
        None
    } else {
        match first_index_stem(files) {
            Some(i) => Some(i),
            None => Some(0int),
        }
    }
}

/// Scans backwards for the last occurrence of a character, as chars.
fn rscan(path: &str, c: char) -> (r: Option<usize>)
    ensures
        match r {
            Some(i) => is_last_occurrence(path@, i as int, c),
            None => forall|j: int| 0 <= j < path@.len() ==> path@[j] != c,
        },
{
    let n = path.unicode_len();
    let mut i: usize = n;
    while i > 0
        invariant
            i <= n,
            n == path@.len(),
            forall|j: int| i <= j < path@.len() ==> path@[j] != c,
        decreases i,
    {
        i -= 1;
        if path.get_char(i) == c {
            return Some(i);
        }
    }
    None
}

/// The engine's backend for JavaScript and TypeScript plugins: the pure,
/// source-level half. It owns the rules for which sources are taken and how
/// directory loads pick their entry point; an engine wrapper built around
/// it performs the actual compilation and execution.
pub struct DenoRuntime;

impl DenoRuntime {
    /// Creates the classifier.
    pub fn new() -> (r: Self)
        ensures
            r == (DenoRuntime {  }),
    {
        DenoRuntime
    }

    /// Returns the name of this backend for identification purposes.
    pub fn runtime_name(&self) -> (r: String)
        ensures
            r@ == "deno"@,
    {
        String::from_str("deno")
    }

    /// Which sources this backend takes: any inline code, raw bytes — read
    /// as text, a byte buffer is inline code, and whether either actually
    /// parses is the engine's verdict at load time — and file paths bearing
    /// one of the supported extensions. Probing a directory, whose
    /// acceptance depends on its contents, is its engine wrapper's concern.
    pub open spec fn supports_spec(source: &PluginSource) -> bool {
        match source {
            PluginSource::Code(_) => true,
            PluginSource::Bytes(_) => true,
            PluginSource::FilePath(path) => extension_of(path@) == Some("ts"@) || extension_of(
                path@,
            ) == Some("js"@),
        }
    }

    /// Checks if this backend can handle the given plugin source.
    pub fn supports_plugin(&self, source: &PluginSource) -> (b: bool)
        ensures
            b == Self::supports_spec(source),
    {
        match source {
            PluginSource::Code(_) => true,
            PluginSource::Bytes(_) => true,
            PluginSource::FilePath(path) => Self::matches_supported_extension(path.as_str()),
        }
    }

    /// Whether a path carries one of the supported extensions, `ts` or
    /// `js`.
    pub fn matches_supported_extension(path: &str) -> (b: bool)
        ensures
            b == (extension_of(path@) == Some("ts"@) || extension_of(path@) == Some("js"@)),
    {
        proof {
            reveal_strlit("ts");
            reveal_strlit("js");
        }
        let n = path.unicode_len();
        let start: usize = match rscan(path, '/') {
            Some(i) => i + 1,
            None => 0,
        };
        proof {
            assert(file_name_start(path@) == start as int);
        }
        let ghost fname = file_name_of(path@);
        let dot: usize = match rscan(path, '.') {
            Some(i) => i,
            None => {
                proof {
                    assert forall|i: int| #![auto]
                        !(0 < i < fname.len() && is_last_occurrence(fname, i, '.')) by {
                        if 0 <= i < fname.len() {
                            assert(fname[i] == path@[start + i]);
                        }
                    }
                    assert(extension_of(path@) is None);
                }
                return false;
            },
        };
        if dot <= start {
            proof {
                assert forall|i: int| #![auto]
                    !(0 < i < fname.len() && is_last_occurrence(fname, i, '.')) by {
                    if 0 < i < fname.len() && is_last_occurrence(fname, i, '.') {
                        assert(path@[start + i] == '.');
                        assert(start + i > dot);
                    }
                }
                assert(extension_of(path@) is None);
            }
            return false;
        }
        proof {
            assert(fname[dot - start] == path@[dot as int]);
            assert(is_last_occurrence(fname, dot - start, '.')) by {
                assert forall|j: int| dot - start < j < fname.len() implies fname[j] != '.' by {
                    assert(fname[j] == path@[start + j]);
                }
            }
            assert(0 < dot - start < fname.len() ==> (extension_of(path@) matches Some(e) && e
                =~= fname.subrange(dot - start + 1, fname.len() as int))) by {
                if 0 < dot - start < fname.len() {
                    let k = choose|i: int| #![auto]
                        0 < i < fname.len() && is_last_occurrence(fname, i, '.');
                    assert(fname[k] == '.');
                    assert(k == dot - start);
                }
            }
        }
        if n - dot != 3 {
            proof {
                if 0 < dot - start < fname.len() {
                    let e = extension_of(path@)->Some_0;
                    assert(e.len() == n - dot - 1);
                    assert("ts"@.len() == 2 && "js"@.len() == 2);
                }
            }
            return false;
        }
        let c1 = path.get_char(dot + 1);
        let c2 = path.get_char(dot + 2);
        let b = (c1 == 't' && c2 == 's') || (c1 == 'j' && c2 == 's');
        proof {
            let e = extension_of(path@)->Some_0;
            assert(e.len() == 2);
            assert(e[0] == path@[dot + 1] && e[1] == path@[dot + 2]);
            assert(c1 == 't' && c2 == 's' ==> e =~= "ts"@);
            assert(c1 == 'j' && c2 == 's' ==> e =~= "js"@);
            assert(e == "ts"@ ==> e[0] == 't' && e[1] == 's');
            assert(e == "js"@ ==> e[0] == 'j' && e[1] == 's');
        }
        b
    }

    /// The glob pattern that lists a directory's candidate plugin files:
    /// the directory joined with a pattern over the supported extensions,
    /// inserting a separator unless the directory already ends with one.
    pub fn build_glob_pattern(dir: &str) -> (r: String)
        ensures
            dir@.len() == 0 ==> r@ == "*.{ts,js}"@,
            dir@.len() > 0 && dir@.last() == '/' ==> r@ == dir@ + "*.{ts,js}"@,
            dir@.len() > 0 && dir@.last() != '/' ==> r@ == dir@ + "/"@ + "*.{ts,js}"@,
    {
        let n = dir.unicode_len();
        if n == 0 {
            return String::from_str("*.{ts,js}");
        }
        let mut out = String::from_str(dir);
        if !(dir.get_char(n - 1) == '/') {
            out.append("/");
        }
        out.append("*.{ts,js}");
        out
    }

    /// Picks the entry point among a directory's candidate files: the first
    /// whose stem is `index`, or the first file at all — `None` only when
    /// the listing is empty.
    pub fn select_entry(files: &Vec<String>) -> (r: Option<usize>)
        ensures
            match r {
                Some(i) => entry_choice(files.deep_view()) == Some(i as int),
                None => files@.len() == 0,
            },
    {
        let mut idx: usize = 0;
        while idx < files.len()
            invariant
                idx <= files@.len(),
                forall|j: int|
                    0 <= j < idx ==> stem_of(#[trigger] files.deep_view()[j]) != "index"@,
            decreases files@.len() - idx,
        {
            if Self::has_index_stem(files[idx].as_str()) {
                proof {
                    lemma_entry_choice(files.deep_view(), idx as int);
                }
                return Some(idx);
            }
            idx += 1;
        }
        if files.len() > 0 {
            proof {
                lemma_entry_choice_none(files.deep_view());
            }
            Some(0)
        } else {
            None
        }
    }

    /// Whether a path's stem is `index`.
    #[verifier::loop_isolation(false)]
    fn has_index_stem(path: &str) -> (b: bool)
        ensures
            b == (stem_of(path@) == "index"@),
    {
        proof {
            reveal_strlit("index");
        }
        let n = path.unicode_len();
        let start: usize = match rscan(path, '/') {
            Some(i) => i + 1,
            None => 0,
        };
        proof {
            assert(file_name_start(path@) == start as int);
        }
        let ghost fname = file_name_of(path@);
        let stem_end: usize = match rscan(path, '.') {
            Some(i) => {
                if i <= start {
                    proof {
                        assert forall|k: int| #![auto]
                            !(0 < k < fname.len() && is_last_occurrence(fname, k, '.')) by {
                            if 0 < k < fname.len() && is_last_occurrence(fname, k, '.') {
                                assert(path@[start + k] == '.');
                                assert(start + k > i);
                            }
                        }
                    }
                    n
                } else {
                    proof {
                        assert(fname[i - start] == path@[i as int]);
                        assert(is_last_occurrence(fname, i - start, '.')) by {
                            assert forall|j: int|
                                i - start < j < fname.len() implies fname[j] != '.' by {
                                assert(fname[j] == path@[start + j]);
                            }
                        }
                        if 0 < i - start < fname.len() {
                            let k = choose|k: int| #![auto]
                                0 < k < fname.len() && is_last_occurrence(fname, k, '.');
                            assert(fname[k] == '.');
                            assert(k == i - start);
                            assert(stem_of(path@) =~= path@.subrange(start as int, i as int));
                        }
                    }
                    i
                }
            },
            None => {
                proof {
                    assert forall|k: int| #![auto]
                        !(0 < k < fname.len() && is_last_occurrence(fname, k, '.')) by {
                        if 0 <= k < fname.len() {
                            assert(fname[k] == path@[start + k]);
                        }
                    }
                }
                n
            },
        };
        proof {
            assert(stem_end == n ==> stem_of(path@) == fname);
            assert(stem_of(path@) =~= path@.subrange(start as int, stem_end as int));
        }
        if stem_end - start != 5 {
            proof {
                assert("index"@.len() == 5);
            }
            return false;
        }
        let mut k: usize = 0;
        let pattern = "index";
        while k < 5
            invariant
                k <= 5,
                start + 5 == stem_end,
                stem_end <= n,
                n == path@.len(),
                stem_of(path@) =~= path@.subrange(start as int, stem_end as int),
                forall|j: int| 0 <= j < k ==> path@[start + j] == "index"@[j],
            decreases 5 - k,
        {
            if !(path.get_char(start + k) == pattern.get_char(k)) {
                proof {
                    assert(stem_of(path@)[k as int] != "index"@[k as int]);
                }
                return false;
            }
            k += 1;
        }
        proof {
            assert(stem_of(path@) =~= "index"@);
        }
        true
    }
}

/// When every file before position `k` has a stem other than `index` and
/// the file at `k` has stem `index`, the entry choice is `k`.
proof fn lemma_entry_choice(files: Seq<Seq<char>>, k: int)
    requires
        0 <= k < files.len(),
        forall|j: int| 0 <= j < k ==> stem_of(#[trigger] files[j]) != "index"@,
        stem_of(files[k]) == "index"@,
    ensures
        entry_choice(files) == Some(k),
    decreases k,
{
    if k > 0 {
        let tail = files.drop_first();
        assert forall|j: int| 0 <= j < k - 1 implies stem_of(#[trigger] tail[j]) != "index"@ by {
            assert(tail[j] == files[j + 1]);
        }
        assert(tail[k - 1] == files[k]);
        lemma_entry_choice(tail, k - 1);
    }
}

/// When no file's stem is `index`, the entry choice falls back to the first
/// file of a non-empty listing.
proof fn lemma_entry_choice_none(files: Seq<Seq<char>>)
    requires
        files.len() > 0,
        forall|j: int| 0 <= j < files.len() ==> stem_of(#[trigger] files[j]) != "index"@,
    ensures
        first_index_stem(files) is None,
        entry_choice(files) == Some(0int),
    decreases files.len(),
{
    let tail = files.drop_first();
    assert forall|j: int| 0 <= j < tail.len() implies stem_of(#[trigger] tail[j]) != "index"@ by {
        assert(tail[j] == files[j + 1]);
    }
    if tail.len() > 0 {
        lemma_entry_choice_none(tail);
    }
    assert(first_index_stem(files) is None);
}

} // verus!
