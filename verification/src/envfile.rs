//! The environment file: lines of the form `KEY=VALUE`.

use vstd::prelude::*;
use vstd::string::*;
use crate::text::chars_of;

verus! {

/// Whether `c` is white space in the sense of Unicode.
pub uninterp spec fn is_space(c: char) -> bool;

/// `char::is_whitespace` tests the `White_Space` property of Unicode, which
/// is a property of the character alone.
pub assume_specification[ char::is_whitespace ](c: char) -> (r: bool)
    ensures
        r == is_space(c),
;

/// The position of the first `c` in `s`, if there is one.
pub open spec fn first_index(s: Seq<char>, c: char) -> Option<int>
    decreases s.len(),
{
    if s.len() == 0 {
        None
    } else if s[0] == c {
        Some(0)
    } else {
        match first_index(s.skip(1), c) {
            Some(i) => Some(i + 1),
            None => None,
        }
    }
}

/// `s` without the white space at its start.
pub open spec fn trim_start(s: Seq<char>) -> Seq<char>
    decreases s.len(),
{
    if s.len() > 0 && is_space(s[0]) {
        trim_start(s.skip(1))
    } else {
        s
    }
}

/// `s` without the white space at its end.
pub open spec fn trim_end(s: Seq<char>) -> Seq<char>
    decreases s.len(),
{
    if s.len() > 0 && is_space(s.last()) {
        trim_end(s.drop_last())
    } else {
        s
    }
}

/// `s` without the white space at its start and at its end.
pub open spec fn trimmed(s: Seq<char>) -> Seq<char> {
    trim_end(trim_start(s))
}

/// A line without the carriage return that may end it.
pub open spec fn without_cr(line: Seq<char>) -> Seq<char> {
    if line.len() > 0 && line.last() == '\r' {
        line.drop_last()
    } else {
        line
    }
}

/// The entry that a line holds: what stands before its first `=` and what
/// stands after it, each trimmed. A line without `=` holds none.
pub open spec fn entry_of(line: Seq<char>) -> Option<(Seq<char>, Seq<char>)> {
    match first_index(line, '=') {
        Some(i) => Some((trimmed(line.take(i)), trimmed(line.skip(i + 1)))),
        None => None,
    }
}

/// The entries of a file, in the order of its lines. Lines end at a line
/// feed; a carriage return before the line feed belongs to the line end.
pub open spec fn env_entries(text: Seq<char>) -> Seq<(Seq<char>, Seq<char>)>
    decreases text.len(),
    via env_entries_decreases
{
    if text.len() == 0 {
        Seq::empty()
    } else {
        match first_index(text, '\n') {
            Some(i) => {
                let rest = env_entries(text.skip(i + 1));
                match entry_of(without_cr(text.take(i))) {
                    Some(e) => seq![e] + rest,
                    None => rest,
                }
            },
            None => match entry_of(text) {
                Some(e) => seq![e],
                None => Seq::empty(),
            },
        }
    }
}

#[via_fn]
proof fn env_entries_decreases(text: Seq<char>) {
    lemma_first_index(text, '\n');
}

/// `first_index` finds a position of `c` that no `c` precedes, and finds
/// nothing only where there is no `c`.
pub proof fn lemma_first_index(s: Seq<char>, c: char)
    ensures
        first_index(s, c) matches Some(i) ==> 0 <= i < s.len() && s[i] == c && forall|j: int|
            0 <= j < i ==> s[j] != c,
        first_index(s, c) is None ==> forall|j: int| 0 <= j < s.len() ==> s[j] != c,
    decreases s.len(),
{
    if s.len() > 0 && s[0] != c {
        lemma_first_index(s.skip(1), c);
        match first_index(s.skip(1), c) {
            Some(i) => {
                assert forall|j: int| 0 <= j < i + 1 implies s[j] != c by {
                    if j > 0 {
                        assert(s.skip(1)[j - 1] == s[j]);
                    }
                }
            },
            None => {
                assert forall|j: int| 0 <= j < s.len() implies s[j] != c by {
                    if j > 0 {
                        assert(s.skip(1)[j - 1] == s[j]);
                    }
                }
            },
        }
    }
}

/// A position of `c` that no `c` precedes is what `first_index` finds.
pub proof fn lemma_first_index_is(s: Seq<char>, c: char, i: int)
    requires
        0 <= i <= s.len(),
        forall|j: int| 0 <= j < i ==> s[j] != c,
        i < s.len() ==> s[i] == c,
    ensures
        first_index(s, c) == if i < s.len() {
            Some(i)
        } else {
            None
        },
{
    lemma_first_index(s, c);
}

/// Finds the first `c` in `chars[from..to]`; the answer is `to` where there
/// is none.
fn find_char(chars: &Vec<char>, from: usize, to: usize, c: char) -> (r: usize)
    requires
        from <= to <= chars.len(),
    ensures
        from <= r <= to,
        first_index(chars@.subrange(from as int, to as int), c) == if r < to {
            Some(r - from)
        } else {
            None
        },
{
    let mut i: usize = from;
    while i < to
        invariant
            from <= i <= to <= chars.len(),
            forall|j: int| from <= j < i ==> chars@[j] != c,
        decreases to - i,
    {
        if chars[i] == c {
            proof {
                lemma_first_index_is(chars@.subrange(from as int, to as int), c, i - from);
            }
            return i;
        }
        i = i + 1;
    }
    proof {
        lemma_first_index_is(chars@.subrange(from as int, to as int), c, to - from);
    }
    to
}

/// Finds the part of `chars[from..to]` that is left when the white space at
/// both ends is taken away.
pub fn trim_range(chars: &Vec<char>, from: usize, to: usize) -> (r: (usize, usize))
    requires
        from <= to <= chars.len(),
    ensures
        from <= r.0 <= r.1 <= to,
        chars@.subrange(r.0 as int, r.1 as int) == trimmed(chars@.subrange(from as int, to as int)),
{
    let mut a: usize = from;
    proof {
        assert(chars@.subrange(from as int, to as int) =~= chars@.subrange(a as int, to as int));
    }
    while a < to && chars[a].is_whitespace()
        invariant
            from <= a <= to <= chars.len(),
            trim_start(chars@.subrange(a as int, to as int)) == trim_start(
                chars@.subrange(from as int, to as int),
            ),
        decreases to - a,
    {
        proof {
            let s = chars@.subrange(a as int, to as int);
            assert(s[0] == chars@[a as int]);
            assert(s.skip(1) =~= chars@.subrange(a + 1, to as int));
        }
        a = a + 1;
    }
    proof {
        let s = chars@.subrange(a as int, to as int);
        if a < to {
            assert(s[0] == chars@[a as int]);
        }
        assert(trim_start(s) == s);
    }
    let mut b: usize = to;
    while a < b && chars[b - 1].is_whitespace()
        invariant
            from <= a <= b <= to <= chars.len(),
            trim_end(chars@.subrange(a as int, b as int)) == trimmed(
                chars@.subrange(from as int, to as int),
            ),
        decreases b - a,
    {
        proof {
            let s = chars@.subrange(a as int, b as int);
            assert(s.last() == chars@[b - 1]);
            assert(s.drop_last() =~= chars@.subrange(a as int, b - 1));
        }
        b = b - 1;
    }
    proof {
        let s = chars@.subrange(a as int, b as int);
        if a < b {
            assert(s.last() == chars@[b - 1]);
        }
        assert(trim_end(s) == s);
    }
    (a, b)
}

/// The texts of a list of entries.
pub open spec fn entry_views(list: Seq<(String, String)>) -> Seq<(Seq<char>, Seq<char>)> {
    list.map_values(|e: (String, String)| (e.0@, e.1@))
}

/// Reads the entries of an environment file.
pub fn parse_env(contents: &str) -> (r: Vec<(String, String)>)
    ensures
        entry_views(r@) == env_entries(contents@),
{
    let chars = chars_of(contents);
    let n = chars.len();
    let mut out: Vec<(String, String)> = Vec::new();
    let mut pos: usize = 0;
    proof {
        assert(chars@.skip(0) =~= chars@);
        assert(entry_views(out@) + env_entries(chars@) =~= env_entries(chars@));
    }
    while pos < n
        invariant
            n == chars.len(),
            chars@ == contents@,
            pos <= n,
            entry_views(out@) + env_entries(chars@.skip(pos as int)) == env_entries(chars@),
        decreases n - pos,
    {
        let ghost rest = chars@.skip(pos as int);
        let ghost before = entry_views(out@);
        let end = find_char(&chars, pos, n, '\n');
        proof {
            assert(chars@.subrange(pos as int, n as int) =~= rest);
            assert(rest.take(end - pos) =~= chars@.subrange(pos as int, end as int));
        }
        let line_end: usize = if end < n && end > pos && chars[end - 1] == '\r' {
            end - 1
        } else {
            end
        };
        let ghost line = chars@.subrange(pos as int, line_end as int);
        proof {
            let raw = chars@.subrange(pos as int, end as int);
            if end < n {
                if raw.len() > 0 {
                    assert(raw.last() == chars@[end - 1]);
                }
                assert(line =~= without_cr(raw));
            } else {
                assert(line =~= rest);
            }
        }
        let eq = find_char(&chars, pos, line_end, '=');
        if eq < line_end {
            let (ka, kb) = trim_range(&chars, pos, eq);
            let (va, vb) = trim_range(&chars, eq + 1, line_end);
            let key = String::from_str(contents.substring_char(ka, kb));
            let value = String::from_str(contents.substring_char(va, vb));
            proof {
                assert(line.take(eq - pos) =~= chars@.subrange(pos as int, eq as int));
                assert(line.skip(eq - pos + 1) =~= chars@.subrange(eq + 1, line_end as int));
                assert(entry_of(line) == Some((key@, value@)));
            }
            out.push((key, value));
            proof {
                assert(entry_views(out@) =~= before.push((key@, value@)));
            }
        } else {
            proof {
                assert(entry_of(line) is None);
            }
        }
        proof {
            let tail = if end < n {
                env_entries(rest.skip(end - pos + 1))
            } else {
                Seq::<(Seq<char>, Seq<char>)>::empty()
            };
            if end < n {
                assert(rest.skip(end - pos + 1) =~= chars@.skip(end + 1));
            } else {
                assert(chars@.skip(n as int) =~= Seq::<char>::empty());
            }
            match entry_of(line) {
                Some(e) => {
                    assert(env_entries(rest) =~= seq![e] + tail);
                    assert(before.push(e) + tail =~= before + (seq![e] + tail));
                },
                None => {
                    assert(env_entries(rest) =~= tail);
                },
            }
        }
        pos = if end < n {
            end + 1
        } else {
            n
        };
    }
    proof {
        assert(chars@.skip(n as int) =~= Seq::<char>::empty());
        assert(entry_views(out@) + Seq::<(Seq<char>, Seq<char>)>::empty() =~= entry_views(out@));
    }
    out
}

} // verus!
