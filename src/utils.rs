use vstd::prelude::*;

use crate::text::span_is;

verus! {

/// Index of the last occurrence of `c` in `s`, or -1 where there is none.
pub open spec fn last_index_of(s: Seq<char>, c: char) -> int
    decreases s.len(),
{
    if s.len() == 0 {
        -1
    } else if s.last() == c {
        s.len() - 1
    } else {
        last_index_of(s.drop_last(), c)
    }
}

/// The path with its trailing separators removed.
pub open spec fn trim_trailing_slashes(p: Seq<char>) -> Seq<char>
    decreases p.len(),
{
    if p.len() > 0 && p.last() == '/' {
        trim_trailing_slashes(p.drop_last())
    } else {
        p
    }
}

/// The last component of a path: what follows its last separator.
pub open spec fn file_name(p: Seq<char>) -> Seq<char> {
    let t = trim_trailing_slashes(p);
    t.subrange(last_index_of(t, '/') + 1, t.len() as int)
}

/// The extension of a path: the text after the last '.' of its file name.
/// A name without a dot, or whose only dot leads it (".hidden"), has none.
pub open spec fn extension(p: Seq<char>) -> Option<Seq<char>> {
    let name = file_name(p);
    let d = last_index_of(name, '.');
    if d <= 0 {
        None
    } else {
        Some(name.subrange(d + 1, name.len() as int))
    }
}

/// The extensions of the media containers and codecs that the encoder is asked to handle.
pub open spec fn is_allowed_extension(e: Seq<char>) -> bool {
    ||| e == seq!['m', 'p', '4']
    ||| e == seq!['m', 'p', '3']
    ||| e == seq!['a', 'v', 'i']
    ||| e == seq!['m', 'k', 'v']
    ||| e == seq!['m', 'o', 'v']
    ||| e == seq!['w', 'a', 'v']
    ||| e == seq!['f', 'l', 'a', 'c']
    ||| e == seq!['j', 'p', 'g']
    ||| e == seq!['p', 'n', 'g']
    ||| e == seq!['w', 'e', 'b', 'p']
}

/// Whether a path names a supported format: its extension, compared case-sensitively,
/// is on the allowlist.
pub open spec fn valid_format(p: Seq<char>) -> bool {
    match extension(p) {
        Some(e) => is_allowed_extension(e),
        None => false,
    }
}

proof fn lemma_last_index_bounds(s: Seq<char>, c: char)
    ensures
        -1 <= last_index_of(s, c) < s.len(),
        last_index_of(s, c) >= 0 ==> s[last_index_of(s, c)] == c,
        forall|j: int| last_index_of(s, c) < j < s.len() ==> s[j] != c,
    decreases s.len(),
{
    if s.len() > 0 && s.last() != c {
        lemma_last_index_bounds(s.drop_last(), c);
        assert(forall|j: int| 0 <= j < s.len() - 1 ==> s.drop_last()[j] == s[j]);
    }
}

/// Position, counted from `from`, of the last `c` that `s` holds between `from` and `to`.
fn find_last(s: &str, c: char, from: usize, to: usize) -> (r: Option<usize>)
    requires
        from <= to <= s@.len(),
    ensures
        match r {
            Some(i) => i as int == last_index_of(s@.subrange(from as int, to as int), c),
            None => last_index_of(s@.subrange(from as int, to as int), c) == -1,
        },
{
    let mut i: usize = to;
    while i > from
        invariant
            from <= i <= to <= s@.len(),
            last_index_of(s@.subrange(from as int, to as int), c) == last_index_of(
                s@.subrange(from as int, i as int),
                c,
            ),
        decreases i,
    {
        assert(s@.subrange(from as int, i as int).drop_last() =~= s@.subrange(from as int, i - 1));
        if s.get_char(i - 1) == c {
            return Some(i - 1 - from);
        }
        i = i - 1;
    }
    None
}

/// Whether the text of `s` from `from` to `to` is an allowed extension.
fn span_is_allowed(s: &str, from: usize, to: usize) -> (r: bool)
    requires
        from <= to <= s@.len(),
    ensures
        r == is_allowed_extension(s@.subrange(from as int, to as int)),
{
    proof {
        reveal_strlit("mp4");
        reveal_strlit("mp3");
        reveal_strlit("avi");
        reveal_strlit("mkv");
        reveal_strlit("mov");
        reveal_strlit("wav");
        reveal_strlit("flac");
        reveal_strlit("jpg");
        reveal_strlit("png");
        reveal_strlit("webp");
        assert("mp4"@ =~= seq!['m', 'p', '4']);
        assert("mp3"@ =~= seq!['m', 'p', '3']);
        assert("avi"@ =~= seq!['a', 'v', 'i']);
        assert("mkv"@ =~= seq!['m', 'k', 'v']);
        assert("mov"@ =~= seq!['m', 'o', 'v']);
        assert("wav"@ =~= seq!['w', 'a', 'v']);
        assert("flac"@ =~= seq!['f', 'l', 'a', 'c']);
        assert("jpg"@ =~= seq!['j', 'p', 'g']);
        assert("png"@ =~= seq!['p', 'n', 'g']);
        assert("webp"@ =~= seq!['w', 'e', 'b', 'p']);
    }
    span_is(s, from, to, "mp4") || span_is(s, from, to, "mp3") || span_is(s, from, to, "avi")
        || span_is(s, from, to, "mkv") || span_is(s, from, to, "mov") || span_is(s, from, to, "wav")
        || span_is(s, from, to, "flac") || span_is(s, from, to, "jpg") || span_is(s, from, to, "png")
        || span_is(s, from, to, "webp")
}

/// Tells whether `file` has one of the supported media extensions.
pub fn is_valid_format(file: &str) -> (r: bool)
    ensures
        r == valid_format(file@),
{
    let ghost p = file@;
    let n = file.unicode_len();
    // drop trailing separators
    let mut end: usize = n;
    assert(p.subrange(0, n as int) =~= p);
    while end > 0 && file.get_char(end - 1) == '/'
        invariant
            end <= n == p.len(),
            p == file@,
            trim_trailing_slashes(p) == trim_trailing_slashes(p.subrange(0, end as int)),
        decreases end,
    {
        assert(p.subrange(0, end as int).drop_last() =~= p.subrange(0, end - 1));
        end = end - 1;
    }
    let ghost t = p.subrange(0, end as int);
    assert(trim_trailing_slashes(t) == t);
    proof {
        lemma_last_index_bounds(t, '/');
    }
    let start: usize = match find_last(file, '/', 0, end) {
        Some(i) => i + 1,
        None => 0,
    };
    proof {
        lemma_last_index_bounds(t, '/');
        assert(t.subrange(0, end as int) =~= t);
        lemma_last_index_bounds(t, '/');
    }
    let ghost name = p.subrange(start as int, end as int);
    assert(name =~= file_name(p));
    match find_last(file, '.', start, end) {
        None => false,
        Some(i) => {
            if i == 0 {
                false
            } else {
                proof {
                    lemma_last_index_bounds(name, '.');
                }
                assert(name.subrange(i + 1, name.len() as int) =~= p.subrange(
                    start + i + 1,
                    end as int,
                ));
                span_is_allowed(file, start + i + 1, end)
            }
        },
    }
}

} // verus!
