//! Removal of block comments `/* ... */` and line comments `// ...`.
//!
//! Scanning goes left to right. At a `/*` that is closed later, everything up to and
//! including the first `*/` after it goes; at a `//`, everything up to the next newline (the
//! newline stays); any other character stays. A `/*` that is never closed stays as text.
//! String and character literals get no special treatment.
use vstd::prelude::*;
use crate::text::chars_of;

verus! {

/// The first position at or after `i` where `*/` starts.
pub open spec fn close_from(s: Seq<char>, i: int) -> Option<int>
    decreases s.len() - i,
{
    if i < 0 || i + 1 >= s.len() {
        None
    } else if s[i] == '*' && s[i + 1] == '/' {
        Some(i)
    } else {
        close_from(s, i + 1)
    }
}

/// The first position at or after `i` that holds a newline, or the length of `s`.
pub open spec fn line_end(s: Seq<char>, i: int) -> int
    decreases s.len() - i,
{
    if i < 0 || i >= s.len() {
        s.len() as int
    } else if s[i] == '\n' {
        i
    } else {
        line_end(s, i + 1)
    }
}

/// Where a block comment that opens at the start of `s` ends, just past its `*/`; `None`
/// when `s` does not start with `/*` or the comment is never closed.
pub open spec fn block_end(s: Seq<char>) -> Option<int> {
    if s.len() >= 2 && s[0] == '/' && s[1] == '*' {
        match close_from(s, 2) {
            Some(j) => if 2 <= j && j + 2 <= s.len() {
                Some(j + 2)
            } else {
                None
            },
            None => None,
        }
    } else {
        None
    }
}

/// Where a line comment that opens at the start of `s` ends, at its newline or the end of
/// `s`; `None` when `s` does not start with `//`.
pub open spec fn line_comment_end(s: Seq<char>) -> Option<int> {
    if s.len() >= 2 && s[0] == '/' && s[1] == '/' {
        let e = line_end(s, 2);
        if 2 <= e <= s.len() {
            Some(e)
        } else {
            None
        }
    } else {
        None
    }
}

/// `s` with its comments removed.
pub open spec fn strip_comments(s: Seq<char>) -> Seq<char>
    decreases s.len(),
{
    if s.len() == 0 {
        s
    } else {
        match block_end(s) {
            Some(e) => strip_comments(s.skip(e)),
            None => match line_comment_end(s) {
                Some(e) => strip_comments(s.skip(e)),
                None => seq![s[0]] + strip_comments(s.skip(1)),
            },
        }
    }
}

/// Whether `*/` starts at position `j` of `s`.
pub open spec fn closes_at(s: Seq<char>, j: int) -> bool {
    0 <= j && j + 1 < s.len() && s[j] == '*' && s[j + 1] == '/'
}

/// `*/` occurs nowhere in `s`.
pub open spec fn no_close(s: Seq<char>) -> bool {
    forall|j: int| !#[trigger] closes_at(s, j)
}

proof fn lemma_close_from(s: Seq<char>, i: int)
    requires
        0 <= i,
    ensures
        close_from(s, i) matches Some(j) ==> i <= j && closes_at(s, j) && forall|k: int|
            i <= k < j ==> !#[trigger] closes_at(s, k),
        close_from(s, i) is None ==> forall|k: int| i <= k ==> !#[trigger] closes_at(s, k),
    decreases s.len() - i,
{
    if i + 1 < s.len() && !(s[i] == '*' && s[i + 1] == '/') {
        lemma_close_from(s, i + 1);
    }
}

proof fn lemma_close_from_first(s: Seq<char>, i: int, j: int)
    requires
        0 <= i <= j,
        closes_at(s, j),
        forall|k: int| i <= k < j ==> !#[trigger] closes_at(s, k),
    ensures
        close_from(s, i) == Some(j),
    decreases j - i,
{
    if i < j {
        assert(!closes_at(s, i));
        lemma_close_from_first(s, i + 1, j);
    }
}

proof fn lemma_line_end(s: Seq<char>, i: int, e: int)
    requires
        0 <= i <= e <= s.len(),
        e == s.len() || s[e] == '\n',
        forall|k: int| i <= k < e ==> s[k] != '\n',
    ensures
        line_end(s, i) == e,
    decreases e - i,
{
    if i < e {
        lemma_line_end(s, i + 1, e);
    }
}

proof fn lemma_line_end_bounds(s: Seq<char>, i: int)
    requires
        0 <= i <= s.len(),
    ensures
        i <= line_end(s, i) <= s.len(),
    decreases s.len() - i,
{
    if i < s.len() && s[i] != '\n' {
        lemma_line_end_bounds(s, i + 1);
    }
}

/// A text that does not start with `/` keeps its first character.
proof fn lemma_keeps_first(u: Seq<char>)
    requires
        u.len() > 0,
        u[0] != '/',
    ensures
        strip_comments(u) == seq![u[0]] + strip_comments(u.skip(1)),
{
}

/// Removing comments from a text without `*/` gives a text without `*/`.
proof fn lemma_no_close_kept(u: Seq<char>)
    requires
        no_close(u),
    ensures
        no_close(strip_comments(u)),
    decreases u.len(),
{
    if u.len() == 0 {
        return;
    }
    if let Some(e) = block_end(u) {
        lemma_close_from(u, 2);
        assert(closes_at(u, close_from(u, 2)->0));
    } else if let Some(e) = line_comment_end(u) {
        let rest = u.skip(e);
        assert forall|j: int| !#[trigger] closes_at(rest, j) by {
            assert(!closes_at(u, j + e));
        }
        lemma_no_close_kept(rest);
    } else {
        let rest = u.skip(1);
        assert forall|j: int| !#[trigger] closes_at(rest, j) by {
            assert(!closes_at(u, j + 1));
        }
        lemma_no_close_kept(rest);
        let w = strip_comments(rest);
        let t = seq![u[0]] + w;
        assert(t == strip_comments(u));
        if u.len() >= 2 && u[0] == '*' {
            assert(!closes_at(u, 0));
            lemma_keeps_first(rest);
        }
        assert forall|j: int| !#[trigger] closes_at(t, j) by {
            if j >= 1 {
                assert(!closes_at(w, j - 1));
            }
        }
    }
}

/// Removing comments twice gives what removing them once gives.
pub proof fn lemma_strip_comments_idempotent(s: Seq<char>)
    ensures
        strip_comments(strip_comments(s)) == strip_comments(s),
    decreases s.len(),
{
    if s.len() == 0 {
        return;
    }
    if let Some(e) = block_end(s) {
        lemma_strip_comments_idempotent(s.skip(e));
    } else if let Some(e) = line_comment_end(s) {
        lemma_strip_comments_idempotent(s.skip(e));
    } else {
        let r = s.skip(1);
        lemma_strip_comments_idempotent(r);
        let w = strip_comments(r);
        let c = s[0];
        let u = seq![c] + w;
        assert(u == strip_comments(s));
        assert(u.skip(1) =~= w);
        if c == '/' && s.len() >= 2 {
            if s[1] == '/' {
                lemma_line_end_bounds(s, 2);
                assert(false);
            } else if s[1] == '*' {
                lemma_close_from(s, 2);
                assert(close_from(s, 2) is None);
                let tail = s.skip(2);
                assert forall|j: int| !#[trigger] closes_at(tail, j) by {
                    if j >= 0 {
                        assert(!closes_at(s, j + 2));
                    }
                }
                lemma_no_close_kept(tail);
                lemma_keeps_first(r);
                assert(r.skip(1) =~= tail);
                let st = strip_comments(tail);
                assert forall|k: int| 2 <= k implies !#[trigger] closes_at(u, k) by {
                    assert(!closes_at(st, k - 2));
                }
                lemma_close_from(u, 2);
                if close_from(u, 2) is Some {
                    assert(closes_at(u, close_from(u, 2)->0));
                }
                assert(block_end(u) is None);
                assert(line_comment_end(u) is None);
            } else {
                lemma_keeps_first(r);
                assert(block_end(u) is None);
                assert(line_comment_end(u) is None);
            }
        }
    }
}

/// `source` with its block and line comments removed.
pub fn remove_comments(source: &str) -> (r: String)
    ensures
        r@ == strip_comments(source@),
{
    let v = chars_of(source);
    let n = v.len();
    let ghost s = source@;
    let mut out = String::new();
    let mut seg: usize = 0;
    let mut i: usize = 0;
    proof {
        assert(s.skip(0) =~= s);
        assert(out@ + s.subrange(0, 0) + s.skip(0) =~= s);
    }
    while i < n
        invariant
            v@ == s,
            s == source@,
            n == s.len(),
            seg <= i <= n,
            strip_comments(s) == out@ + s.subrange(seg as int, i as int) + strip_comments(
                s.skip(i as int),
            ),
        decreases n - i,
    {
        let ghost u = s.skip(i as int);
        let mut comment_end: Option<usize> = None;
        if v[i] == '/' && i + 1 < n && v[i + 1] == '*' {
            let mut j: usize = i + 2;
            while j < n - 1 && !(v[j] == '*' && v[j + 1] == '/')
                invariant
                    v@ == s,
                    n == s.len(),
                    i + 2 <= j <= n,
                    i + 1 < n,
                    u == s.skip(i as int),
                    forall|k: int| 2 <= k < j - i ==> !#[trigger] closes_at(u, k),
                decreases n - j,
            {
                assert(!closes_at(u, j - i));
                j = j + 1;
            }
            if j < n - 1 {
                proof {
                    assert(closes_at(u, j - i));
                    lemma_close_from_first(u, 2, j - i);
                    assert(u.skip(j - i + 2) =~= s.skip(j + 2));
                }
                comment_end = Some(j + 2);
            } else {
                proof {
                    assert forall|k: int| 2 <= k implies !#[trigger] closes_at(u, k) by {
                        if k >= j - i {
                            assert(!closes_at(u, k));
                        }
                    }
                    lemma_close_from(u, 2);
                    if close_from(u, 2) is Some {
                        assert(closes_at(u, close_from(u, 2)->0));
                    }
                }
            }
        } else if v[i] == '/' && i + 1 < n && v[i + 1] == '/' {
            let mut e: usize = i + 2;
            while e < n && v[e] != '\n'
                invariant
                    v@ == s,
                    n == s.len(),
                    i + 2 <= e <= n,
                    u == s.skip(i as int),
                    forall|k: int| 2 <= k < e - i ==> u[k] != '\n',
                decreases n - e,
            {
                e = e + 1;
            }
            proof {
                lemma_line_end(u, 2, e - i);
                assert(u.skip(e - i) =~= s.skip(e as int));
            }
            comment_end = Some(e);
        }
        proof {
            assert(u.skip(1) =~= s.skip(i + 1));
        }
        match comment_end {
            Some(e) => {
                let piece = source.substring_char(seg, i);
                let ghost before = out@;
                out.append(piece);
                proof {
                    assert(strip_comments(u) == strip_comments(s.skip(e as int)));
                    assert(out@ + s.subrange(e as int, e as int) + strip_comments(s.skip(e as int))
                        =~= before + s.subrange(seg as int, i as int) + strip_comments(u));
                }
                i = e;
                seg = e;
            },
            None => {
                proof {
                    assert(strip_comments(u) == seq![s[i as int]] + strip_comments(s.skip(i + 1)));
                    assert(out@ + s.subrange(seg as int, i + 1) + strip_comments(s.skip(i + 1))
                        =~= out@ + s.subrange(seg as int, i as int) + strip_comments(u));
                }
                i = i + 1;
            },
        }
    }
    let piece = source.substring_char(seg, n);
    out.append(piece);
    proof {
        assert(s.skip(n as int) =~= Seq::<char>::empty());
        assert(out@ =~= strip_comments(s));
    }
    out
}

} // verus!
