//! Media slot assignment and the slot manifest.
//!
//! Each input media file gets a zero-based sequential slot.  The manifest maps
//! the slot's decimal string to the file's base name; the slot's decimal
//! string is also the archive member name for the file's raw bytes.

use vstd::prelude::*;

use crate::error::PkgError;

verus! {

/// The character standing for the decimal digit `d`.
pub open spec fn dec_char(d: int) -> char {
    if d == 0 {
        '0'
    } else if d == 1 {
        '1'
    } else if d == 2 {
        '2'
    } else if d == 3 {
        '3'
    } else if d == 4 {
        '4'
    } else if d == 5 {
        '5'
    } else if d == 6 {
        '6'
    } else if d == 7 {
        '7'
    } else if d == 8 {
        '8'
    } else {
        '9'
    }
}

/// The decimal representation of `n` (no sign, no leading zeroes except for
/// `n == 0` itself).
pub open spec fn dec_rep(n: int) -> Seq<char>
    decreases n,
{
    if n < 10 {
        seq![dec_char(n)]
    } else {
        dec_rep(n / 10).push(dec_char(n % 10))
    }
}

/// The decimal string of `n`.
pub fn dec_string(n: u64) -> (s: String)
    ensures
        s@ == dec_rep(n as int),
    decreases n,
{
    proof {
        reveal_strlit("0123456789");
    }
    let digits: &str = "0123456789";
    let d: usize = (n % 10) as usize;
    let dig: &str = digits.substring_char(d, d + 1);
    proof {
        assert(dig@ =~= seq![dec_char(n as int % 10)]);
    }
    if n < 10 {
        let s = dig.to_owned();
        proof {
            assert(s@ =~= dec_rep(n as int));
        }
        s
    } else {
        let mut s = dec_string(n / 10);
        s.append(dig);
        proof {
            assert(s@ =~= dec_rep(n as int));
        }
        s
    }
}

/// A decimal representation is never empty.
proof fn lemma_dec_rep_len_pos(n: int)
    ensures
        dec_rep(n).len() >= 1,
    decreases n,
{
    if n >= 10 {
        lemma_dec_rep_len_pos(n / 10);
    }
}

/// Law: distinct slot numbers get distinct decimal strings, so the manifest
/// keys — and the archive member names of the media slots — are pairwise
/// distinct: the key set of N entries is exactly the decimals 0 to N - 1.
pub proof fn lemma_dec_rep_injective(a: int, b: int)
    requires
        0 <= a,
        0 <= b,
        a != b,
    ensures
        dec_rep(a) != dec_rep(b),
    decreases a + b,
{
    if a < 10 && b < 10 {
        if dec_rep(a) == dec_rep(b) {
            assert(dec_rep(a)[0] == dec_rep(b)[0]);
            assert(false);
        }
    } else if a < 10 {
        lemma_dec_rep_len_pos(b / 10);
        assert(dec_rep(a).len() == 1);
        assert(dec_rep(b).len() >= 2);
    } else if b < 10 {
        lemma_dec_rep_len_pos(a / 10);
        assert(dec_rep(b).len() == 1);
        assert(dec_rep(a).len() >= 2);
    } else {
        if dec_rep(a) == dec_rep(b) {
            lemma_dec_rep_len_pos(a / 10);
            lemma_dec_rep_len_pos(b / 10);
            assert(dec_rep(a).last() == dec_char(a % 10));
            assert(dec_rep(b).last() == dec_char(b % 10));
            assert(a % 10 == b % 10);
            assert(a / 10 != b / 10);
            lemma_dec_rep_injective(a / 10, b / 10);
            assert(dec_rep(a).drop_last() =~= dec_rep(a / 10));
            assert(dec_rep(b).drop_last() =~= dec_rep(b / 10));
            assert(false);
        }
    }
}

/// The `/`-separated component a path ends with; empty when the path is empty
/// or ends with a separator.
pub open spec fn last_component(s: Seq<char>) -> Seq<char>
    decreases s.len(),
{
    if s.len() == 0 {
        Seq::empty()
    } else if s.last() == '/' {
        Seq::empty()
    } else {
        last_component(s.drop_last()).push(s.last())
    }
}

/// The base file name of a path: its last non-empty component, ignoring
/// trailing separators and `.` components.  `None` when no component remains
/// (empty path, a bare root) or when the path terminates in `..`.
pub open spec fn base_name_spec(s: Seq<char>) -> Option<Seq<char>>
    decreases s.len(),
{
    if s.len() == 0 {
        None
    } else if s.last() == '/' {
        base_name_spec(s.drop_last())
    } else if last_component(s) == seq!['.'] {
        base_name_spec(s.drop_last())
    } else if last_component(s) == seq!['.', '.'] {
        None
    } else {
        Some(last_component(s))
    }
}

/// When `s` ends with a non-separator and the characters from `start` on hold
/// no separator, while `start` sits at the string's start or right after a
/// separator, the last component is exactly the suffix from `start`.
proof fn lemma_last_component_range(s: Seq<char>, start: int)
    requires
        0 <= start < s.len(),
        s.last() != '/',
        forall|k: int| start <= k < s.len() ==> s[k] != '/',
        start == 0 || s[start - 1] == '/',
    ensures
        last_component(s) == s.subrange(start, s.len() as int),
    decreases s.len(),
{
    if s.len() - 1 == start {
        if start == 0 {
            assert(s.drop_last().len() == 0);
            assert(last_component(s.drop_last()) == Seq::<char>::empty());
            assert(last_component(s) =~= s.subrange(start, s.len() as int));
        } else {
            assert(s.drop_last().last() == s[start - 1]);
            assert(last_component(s.drop_last()) == Seq::<char>::empty());
            assert(last_component(s) =~= s.subrange(start, s.len() as int));
        }
    } else {
        let t = s.drop_last();
        assert(t.last() == s[s.len() - 2]);
        lemma_last_component_range(t, start);
        assert(last_component(s) =~= s.subrange(start, s.len() as int));
    }
}

/// The base file name of `path`, or `None` when the path has no extractable
/// base name.
pub fn base_name(path: &str) -> (r: Option<String>)
    ensures
        r is Some <==> base_name_spec(path@) is Some,
        r matches Some(b) ==> Some(b@) == base_name_spec(path@),
{
    let mut end: usize = path.unicode_len();
    proof {
        assert(path@.subrange(0, end as int) =~= path@);
    }
    loop
        invariant
            end <= path@.len(),
            base_name_spec(path@) == base_name_spec(path@.subrange(0, end as int)),
        decreases end,
    {
        let ghost prefix = path@.subrange(0, end as int);
        if end == 0 {
            proof {
                assert(prefix.len() == 0);
            }
            return None;
        }
        let c = path.get_char(end - 1);
        if c == '/' {
            proof {
                assert(prefix.last() == '/');
                assert(prefix.drop_last() =~= path@.subrange(0, end - 1));
            }
            end = end - 1;
        } else {
            let mut start: usize = end - 1;
            while start > 0 && path.get_char(start - 1) != '/'
                invariant
                    start < end,
                    end <= path@.len(),
                    forall|k: int| start <= k < end ==> path@[k] != '/',
                decreases start,
            {
                start = start - 1;
            }
            proof {
                assert(prefix.last() == path@[end - 1]);
                assert forall|k: int| start <= k < prefix.len() implies prefix[k] != '/' by {
                    assert(prefix[k] == path@[k]);
                }
                if start > 0 {
                    assert(prefix[start - 1] == path@[start - 1]);
                }
                lemma_last_component_range(prefix, start as int);
                assert(prefix.subrange(start as int, prefix.len() as int) =~= path@.subrange(
                    start as int,
                    end as int,
                ));
            }
            let len = end - start;
            if len == 1 && path.get_char(start) == '.' {
                proof {
                    assert(last_component(prefix) =~= seq!['.']);
                    assert(prefix.drop_last() =~= path@.subrange(0, end - 1));
                }
                end = end - 1;
            } else if len == 2 && path.get_char(start) == '.' && path.get_char(start + 1) == '.' {
                proof {
                    assert(last_component(prefix) =~= seq!['.', '.']);
                    assert(base_name_spec(path@) is None);
                }
                return None;
            } else {
                let b = path.substring_char(start, end);
                proof {
                    assert(last_component(prefix) == path@.subrange(start as int, end as int));
                    if len == 1 {
                        assert(last_component(prefix) != seq!['.']) by {
                            assert(path@.subrange(start as int, end as int)[0] == path@[start as int]);
                        }
                    }
                    if len != 1 {
                        assert(last_component(prefix) != seq!['.']);
                    }
                    if len != 2 {
                        assert(last_component(prefix) != seq!['.', '.']);
                    }
                    if len == 2 {
                        assert(last_component(prefix) != seq!['.', '.']) by {
                            assert(path@.subrange(start as int, end as int)[0] == path@[start as int]);
                            assert(path@.subrange(start as int, end as int)[1] == path@[start + 1]);
                        }
                    }
                    assert(base_name_spec(prefix) == Some(last_component(prefix)));
                }
                return Some(b.to_owned());
            }
        }
    }
}

/// A media path string the package accepts: non-empty and free of NUL
/// characters, which no host path may contain.
pub open spec fn valid_path_string(s: Seq<char>) -> bool {
    s.len() > 0 && (forall|i: int| 0 <= i < s.len() ==> s[i] != '\u{0}')
}

/// Check a path string for acceptance at construction.
pub fn check_path_string(s: &str) -> (b: bool)
    ensures
        b == valid_path_string(s@),
{
    let n = s.unicode_len();
    if n == 0 {
        return false;
    }
    let mut i: usize = 0;
    while i < n
        invariant
            i <= n,
            n == s@.len(),
            forall|k: int| 0 <= k < i ==> s@[k] != '\u{0}',
        decreases n - i,
    {
        if s.get_char(i) == '\u{0}' {
            return false;
        }
        i = i + 1;
    }
    true
}

/// The key/value map a list of manifest entries stands for (later pairs win,
/// though manifest entries built here always carry distinct keys).
pub open spec fn entries_map(entries: Seq<(Seq<char>, Seq<char>)>) -> Map<Seq<char>, Seq<char>>
    decreases entries.len(),
{
    if entries.len() == 0 {
        Map::empty()
    } else {
        entries_map(entries.drop_last()).insert(entries.last().0, entries.last().1)
    }
}

/// The canonical JSON text of an object with the given string entries, as
/// serde_json renders it (keys in the map's own order).
pub uninterp spec fn json_object_of(entries: Map<Seq<char>, Seq<char>>) -> Seq<char>;

/// Relies on serde_json::to_string over a serde_json::Map built from the
/// entries: the JSON text of such an object is a function of the key/value
/// map alone (the map is ordered by key).
#[verifier::external_body]
pub(crate) fn manifest_json(entries: &Vec<(String, String)>) -> (r: Result<String, PkgError>)
    ensures
        r matches Ok(s) ==> s@ == json_object_of(entries_map(manifest_entry_views(entries@))),
        r matches Err(e) ==> e is Encoding,
{
    let mut m = serde_json::Map::new();
    for (k, v) in entries.iter() {
        m.insert(k.clone(), serde_json::Value::String(v.clone()));
    }
    serde_json::to_string(&m).map_err(|e| PkgError::Encoding(e.to_string()))
}

/// The views of a list of manifest entries.
pub open spec fn manifest_entry_views(entries: Seq<(String, String)>) -> Seq<(Seq<char>, Seq<char>)> {
    entries.map_values(|e: (String, String)| (e.0@, e.1@))
}

/// The views of a list of path strings.
pub open spec fn string_views(s: Seq<String>) -> Seq<Seq<char>> {
    s.map_values(|x: String| x@)
}

/// The content of a present optional base name.
pub open spec fn some_value(o: Option<Seq<char>>) -> Seq<char> {
    match o {
        Option::Some(s) => s,
        Option::None => Seq::empty(),
    }
}

/// The manifest entries the given paths determine: for the `i`-th path, the
/// decimal slot key and the path's base name.
pub open spec fn manifest_entries_spec(paths: Seq<Seq<char>>) -> Seq<(Seq<char>, Seq<char>)> {
    Seq::new(paths.len(), |i: int| (dec_rep(i), some_value(base_name_spec(paths[i]))))
}

/// Build the media manifest entries: for the `i`-th input path, the pair of
/// the slot key (the decimal string of `i`) and the path's base name.
/// Fails exactly when some path has no extractable base name.
pub fn media_manifest_entries(paths: &Vec<String>) -> (r: Result<Vec<(String, String)>, PkgError>)
    ensures
        r is Ok <==> (forall|i: int|
            0 <= i < paths@.len() ==> base_name_spec(#[trigger] paths@[i]@) is Some),
        r matches Ok(m) ==> {
            &&& m@.len() == paths@.len()
            &&& forall|i: int| 0 <= i < m@.len() ==> (#[trigger] m@[i].0)@ == dec_rep(i)
            &&& forall|i: int|
                0 <= i < m@.len() ==> Some((#[trigger] m@[i].1)@) == base_name_spec(paths@[i]@)
            &&& manifest_entry_views(m@) == manifest_entries_spec(string_views(paths@))
        },
        r matches Err(e) ==> e is PathFormat,
{
    let mut out: Vec<(String, String)> = Vec::new();
    let mut i: usize = 0;
    while i < paths.len()
        invariant
            i <= paths@.len(),
            out@.len() == i,
            forall|j: int| 0 <= j < i ==> (#[trigger] out@[j].0)@ == dec_rep(j),
            forall|j: int|
                0 <= j < i ==> Some((#[trigger] out@[j].1)@) == base_name_spec(paths@[j]@),
            forall|j: int| 0 <= j < i ==> base_name_spec(#[trigger] paths@[j]@) is Some,
        decreases paths@.len() - i,
    {
        let b = match base_name(paths[i].as_str()) {
            Some(b) => b,
            None => {
                proof {
                    assert(base_name_spec(paths@[i as int]@) is None);
                }
                return Err(PkgError::PathFormat);
            },
        };
        let key = dec_string(i as u64);
        out.push((key, b));
        i = i + 1;
    }
    proof {
        assert forall|j: int| 0 <= j < out@.len() implies manifest_entry_views(out@)[j]
            == manifest_entries_spec(string_views(paths@))[j] by {
            assert(manifest_entry_views(out@)[j] == (out@[j].0@, out@[j].1@));
            assert(string_views(paths@)[j] == paths@[j]@);
        }
        assert(manifest_entry_views(out@) =~= manifest_entries_spec(string_views(paths@)));
    }
    Ok(out)
}

} // verus!
