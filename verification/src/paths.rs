//! The file name of a `/`-separated path, as used to name uploaded firmware.
use vstd::prelude::*;

use crate::text::string_of_range;

verus! {

/// The characters after the last `/` of `s`, or all of `s` when it has none.
pub open spec fn last_segment(s: Seq<char>) -> Seq<char>
    decreases s.len(),
{
    if s.len() == 0 || s.last() == '/' {
        Seq::empty()
    } else {
        last_segment(s.drop_last()).push(s.last())
    }
}

/// The final component of the path `s` when it names a file or directory:
/// separators and `.` components at the end are skipped; a final `..`, a bare
/// root, `.` or an empty path name nothing.
pub open spec fn file_name_text(s: Seq<char>) -> Option<Seq<char>>
    decreases s.len(),
{
    if s.len() == 0 {
        None
    } else if s.last() == '/' {
        file_name_text(s.drop_last())
    } else {
        let seg = last_segment(s);
        if seg == seq!['.'] {
            if seg.len() == s.len() {
                None
            } else {
                file_name_text(s.drop_last())
            }
        } else if seg == seq!['.', '.'] {
            None
        } else {
            Some(seg)
        }
    }
}

/// The name given to firmware whose path has no file name.
pub open spec fn fallback_name() -> Seq<char> {
    seq!['f', 'i', 'r', 'm', 'w', 'a', 'r', 'e', '.', 'b', 'i', 'n']
}

/// The file name of `s`, or the fallback name.
pub open spec fn safe_name_text(s: Seq<char>) -> Seq<char> {
    match file_name_text(s) {
        Some(n) => n,
        None => fallback_name(),
    }
}

proof fn lemma_last_segment(s: Seq<char>, start: int)
    requires
        0 <= start <= s.len(),
        start == 0 || s[start - 1] == '/',
        forall|j: int| start <= j < s.len() ==> s[j] != '/',
    ensures
        last_segment(s) == s.subrange(start, s.len() as int),
    decreases s.len() - start,
{
    if s.len() == start {
        if s.len() > 0 {
            assert(s.last() == '/');
        }
        assert(s.subrange(start, s.len() as int) =~= Seq::<char>::empty());
    } else {
        lemma_last_segment(s.drop_last(), start);
        assert(s.subrange(start, s.len() as int) =~= s.drop_last().subrange(
            start,
            s.len() - 1,
        ).push(s.last()));
    }
}

/// The final component of the path `path`, if it names one.
pub fn file_name(path: &str) -> (r: Option<String>)
    ensures
        r matches Some(n) ==> file_name_text(path@) == Some(n@),
        r is None ==> file_name_text(path@) is None,
{
    let v = crate::text::chars_of(path);
    let mut end: usize = v.len();
    assert(v@.take(v.len() as int) =~= v@);
    loop
        invariant
            v@ == path@,
            end <= v.len(),
            file_name_text(path@) == file_name_text(v@.take(end as int)),
        decreases end,
    {
        let ghost s = v@.take(end as int);
        if end == 0 {
            return None;
        }
        if v[end - 1] == '/' {
            assert(s.drop_last() =~= v@.take(end - 1));
            end = end - 1;
            continue;
        }
        let mut start: usize = end;
        while start > 0 && v[start - 1] != '/'
            invariant
                start <= end <= v.len(),
                forall|j: int| start <= j < end ==> v@[j] != '/',
            decreases start,
        {
            start = start - 1;
        }
        proof {
            lemma_last_segment(s, start as int);
            assert(s.subrange(start as int, end as int) =~= v@.subrange(start as int, end as int));
        }
        let len = end - start;
        if len == 1 && v[start] == '.' {
            assert(last_segment(s) =~= seq!['.']);
            if start == 0 {
                return None;
            }
            assert(s.drop_last() =~= v@.take(end - 1));
            end = end - 1;
            continue;
        }
        if len == 2 && v[start] == '.' && v[start + 1] == '.' {
            assert(last_segment(s) =~= seq!['.', '.']);
            return None;
        }
        proof {
            let seg = v@.subrange(start as int, end as int);
            if seg == seq!['.'] {
                assert(seg.len() == 1 && seg[0] == v@[start as int]);
            }
            if seg == seq!['.', '.'] {
                assert(seg.len() == 2 && seg[0] == v@[start as int] && seg[1] == v@[start + 1]);
            }
        }
        return Some(string_of_range(&v, start, end));
    }
}

/// The name under which firmware at `path` is uploaded and staged: its file
/// name, or `firmware.bin` when the path has none.
pub fn safe_file_name(path: &str) -> (r: String)
    ensures
        r@ == safe_name_text(path@),
{
    match file_name(path) {
        Some(n) => n,
        None => {
            let s = String::from_str("firmware.bin");
            proof {
                reveal_strlit("firmware.bin");
                assert(s@ =~= fallback_name());
            }
            s
        },
    }
}

/// A file name never holds a separator and is never empty, `.` or `..`.
pub proof fn lemma_file_name_is_plain(s: Seq<char>)
    ensures
        file_name_text(s) matches Some(n) ==> n.len() > 0 && !n.contains('/') && n != seq!['.']
            && n != seq!['.', '.'],
    decreases s.len(),
{
    if s.len() > 0 {
        if s.last() == '/' {
            lemma_file_name_is_plain(s.drop_last());
        } else {
            let seg = last_segment(s);
            if seg == seq!['.'] {
                if seg.len() != s.len() {
                    lemma_file_name_is_plain(s.drop_last());
                }
            } else if seg != seq!['.', '.'] {
                lemma_segment_plain(s);
            }
        }
    }
}

proof fn lemma_segment_plain(s: Seq<char>)
    requires
        s.len() > 0,
        s.last() != '/',
    ensures
        last_segment(s).len() > 0,
        !last_segment(s).contains('/'),
    decreases s.len(),
{
    let p = s.drop_last();
    if p.len() > 0 && p.last() != '/' {
        lemma_segment_plain(p);
    }
    let seg = last_segment(s);
    assert(seg == last_segment(p).push(s.last()));
    assert forall|j: int| 0 <= j < seg.len() implies seg[j] != '/' by {
        if j < seg.len() - 1 {
            assert(seg[j] == last_segment(p)[j]);
        }
    }
}

proof fn lemma_plain_name_is_own_file_name(n: Seq<char>)
    requires
        n.len() > 0,
        !n.contains('/'),
        n != seq!['.'],
        n != seq!['.', '.'],
    ensures
        file_name_text(n) == Some(n),
{
    assert forall|j: int| 0 <= j < n.len() implies n[j] != '/' by {
        if n[j] == '/' {
            assert(n.contains(n[j]));
        }
    }
    lemma_last_segment(n, 0);
    assert(n.subrange(0, n.len() as int) =~= n);
    assert(n.last() != '/');
}

/// The name the workstation sends for an upload is the name the agent stages
/// it under: making a name safe twice changes nothing.
pub proof fn lemma_safe_name_idempotent(path: Seq<char>)
    ensures
        safe_name_text(safe_name_text(path)) == safe_name_text(path),
{
    lemma_file_name_is_plain(path);
    match file_name_text(path) {
        Some(n) => lemma_plain_name_is_own_file_name(n),
        None => {
            let f = fallback_name();
            assert(!f.contains('/')) by {
                if f.contains('/') {
                    let j = choose|j: int| 0 <= j < f.len() && f[j] == '/';
                    assert(f[j] != '/');
                }
            }
            lemma_plain_name_is_own_file_name(f);
        },
    }
}

} // verus!
