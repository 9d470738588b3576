//! Removal of ANSI terminal escape sequences from log lines.
//!
//! A recognized escape sequence is an escape byte (0x1b) followed by `[`,
//! then a run of digits and semicolons, then a terminating `m` — the common
//! color/style shape. Matching is non-overlapping, left to right, and greedy
//! on the digit/semicolon run; fragments that do not complete the shape pass
//! through unchanged.

use vstd::prelude::*;

verus! {

use vstd::string::*;

/// The escape marker that opens a sequence (0x1b).
pub open spec fn esc_char() -> char {
    '\u{1b}'
}

/// Characters allowed in the interior run of a sequence: digits and `;`.
pub open spec fn is_inner(c: char) -> bool {
    (('0' as u32) <= (c as u32) && (c as u32) <= ('9' as u32)) || c == ';'
}

/// Length of the maximal run of interior characters starting at index `i`.
pub open spec fn run_len(s: Seq<char>, i: int) -> nat
    decreases s.len() - i,
{
    if 0 <= i < s.len() && is_inner(s[i]) {
        (run_len(s, i + 1) + 1) as nat
    } else {
        0
    }
}

/// A complete escape sequence begins at index `i`: the marker, `[`, the
/// maximal interior run, and a terminating `m` directly after the run.
pub open spec fn has_escape_at(s: Seq<char>, i: int) -> bool {
    &&& 0 <= i
    &&& i + 1 < s.len()
    &&& s[i] == esc_char()
    &&& s[i + 1] == '['
    &&& i + 2 + run_len(s, i + 2) < s.len()
    &&& s[i + 2 + run_len(s, i + 2)] == 'm'
}

/// Length of the escape sequence beginning at `i`: marker, `[`, run, `m`.
pub open spec fn escape_len_at(s: Seq<char>, i: int) -> int {
    run_len(s, i + 2) as int + 3
}

/// The characters of `s` from index `i` on, with every escape sequence
/// deleted: a sequence starting at the current position is skipped whole,
/// any other character is kept.
pub open spec fn strip_from(s: Seq<char>, i: int) -> Seq<char>
    decreases s.len() - i,
{
    if i >= s.len() || i < 0 {
        Seq::empty()
    } else if has_escape_at(s, i) {
        strip_from(s, i + escape_len_at(s, i))
    } else {
        seq![s[i]] + strip_from(s, i + 1)
    }
}

/// `s` with every escape sequence deleted.
pub open spec fn strip_spec(s: Seq<char>) -> Seq<char> {
    strip_from(s, 0)
}

/// One complete escape sequence and nothing else.
pub open spec fn is_escape_seq(s: Seq<char>) -> bool {
    &&& s.len() >= 3
    &&& s[0] == esc_char()
    &&& s[1] == '['
    &&& s[s.len() - 1] == 'm'
    &&& forall|i: int| 2 <= i < s.len() - 1 ==> is_inner(#[trigger] s[i])
}

/// A concatenation of zero or more complete escape sequences.
pub open spec fn all_escape_seqs(s: Seq<char>) -> bool
    decreases s.len(),
{
    s.len() == 0 || (exists|k: int|
        3 <= k <= s.len() && is_escape_seq(#[trigger] s.subrange(0, k)) && all_escape_seqs(
            s.skip(k),
        ))
}

/// The maximal interior run starting at `a` ends exactly at `b` when every
/// character in `[a, b)` is interior and `b` is the end of the sequence or a
/// non-interior character.
pub proof fn lemma_run_len_exact(s: Seq<char>, a: int, b: int)
    requires
        0 <= a <= b <= s.len(),
        forall|t: int| a <= t < b ==> is_inner(#[trigger] s[t]),
        b == s.len() || !is_inner(s[b]),
    ensures
        run_len(s, a) == b - a,
    decreases b - a,
{
    if a < b {
        lemma_run_len_exact(s, a + 1, b);
    }
}

/// With no escape sequence anywhere in `s`, stripping keeps every character
/// from `i` on.
proof fn lemma_strip_from_no_escape(s: Seq<char>, i: int)
    requires
        0 <= i <= s.len(),
        forall|j: int| !has_escape_at(s, j),
    ensures
        strip_from(s, i) == s.skip(i),
    decreases s.len() - i,
{
    assert(!has_escape_at(s, i));
    if i < s.len() {
        lemma_strip_from_no_escape(s, i + 1);
        assert(seq![s[i]] + s.skip(i + 1) =~= s.skip(i));
    } else {
        assert(s.skip(i) =~= Seq::<char>::empty());
    }
}

/// A line that contains no escape marker is left unchanged by stripping.
pub proof fn lemma_strip_clean_identity(s: Seq<char>)
    requires
        forall|i: int| 0 <= i < s.len() ==> #[trigger] s[i] != esc_char(),
    ensures
        strip_spec(s) == s,
{
    assert forall|j: int| !has_escape_at(s, j) by {
        if 0 <= j && j + 1 < s.len() {
            assert(s[j] != esc_char());
        }
    }
    lemma_strip_from_no_escape(s, 0);
    assert(s.skip(0) =~= s);
}

/// Stripping is idempotent on every input whose stripped form contains no
/// escape sequence. (A second pass can remove more when stripping uncovers a
/// fresh sequence: a lone marker whose continuation `[..m` only appears once
/// the sequence after the marker is deleted.)
pub proof fn lemma_strip_idempotent(s: Seq<char>)
    requires
        forall|i: int| !has_escape_at(strip_spec(s), i),
    ensures
        strip_spec(strip_spec(s)) == strip_spec(s),
{
    lemma_strip_from_no_escape(strip_spec(s), 0);
    assert(strip_spec(s).skip(0) =~= strip_spec(s));
}

/// Run lengths are unchanged by dropping a prefix that lies before them.
proof fn lemma_run_len_skip(s: Seq<char>, d: int, j: int)
    requires
        0 <= d <= s.len(),
        0 <= j,
    ensures
        run_len(s.skip(d), j) == run_len(s, d + j),
    decreases s.len() - d - j,
{
    if d + j < s.len() && is_inner(s[d + j]) {
        lemma_run_len_skip(s, d, j + 1);
    }
}

/// Escape sequences are unchanged by dropping a prefix that lies before them.
proof fn lemma_has_escape_skip(s: Seq<char>, d: int, j: int)
    requires
        0 <= d <= s.len(),
        0 <= j,
    ensures
        has_escape_at(s.skip(d), j) == has_escape_at(s, d + j),
{
    lemma_run_len_skip(s, d, j + 2);
}

/// Stripping from index `i` of a suffix equals stripping the whole sequence
/// from the corresponding absolute index.
proof fn lemma_strip_from_skip(s: Seq<char>, d: int, i: int)
    requires
        0 <= d <= s.len(),
        0 <= i,
    ensures
        strip_from(s.skip(d), i) == strip_from(s, d + i),
    decreases s.len() - d - i,
{
    let t = s.skip(d);
    if d + i >= s.len() {
        assert(strip_from(t, i) =~= Seq::<char>::empty());
    } else {
        lemma_has_escape_skip(s, d, i);
        if has_escape_at(s, d + i) {
            lemma_run_len_skip(s, d, i + 2);
            lemma_strip_from_skip(s, d, i + escape_len_at(s, d + i));
        } else {
            lemma_strip_from_skip(s, d, i + 1);
            assert(seq![t[i]] =~= seq![s[d + i]]);
        }
    }
}

/// A line composed solely of complete escape sequences strips to the empty
/// string.
pub proof fn lemma_strip_all_escapes_empty(s: Seq<char>)
    requires
        all_escape_seqs(s),
    ensures
        strip_spec(s) == Seq::<char>::empty(),
    decreases s.len(),
{
    if s.len() != 0 {
        let k = choose|k: int|
            3 <= k <= s.len() && is_escape_seq(#[trigger] s.subrange(0, k)) && all_escape_seqs(
                s.skip(k),
            );
        let head = s.subrange(0, k);
        assert forall|t: int| 2 <= t < k - 1 implies is_inner(#[trigger] s[t]) by {
            assert(is_inner(head[t]));
        }
        assert(s[k - 1] == head[k - 1]);
        assert(!is_inner('m'));
        lemma_run_len_exact(s, 2, k - 1);
        assert(has_escape_at(s, 0));
        assert(escape_len_at(s, 0) == k);
        lemma_strip_from_skip(s, k, 0);
        lemma_strip_all_escapes_empty(s.skip(k));
    }
}

/// Reports whether `c` may stand in the interior run of an escape sequence.
fn is_inner_char(c: char) -> (b: bool)
    ensures
        b == is_inner(c),
{
    (('0' as u32) <= (c as u32) && (c as u32) <= ('9' as u32)) || c == ';'
}

/// Finds the end of the escape sequence beginning at index `i`, if one
/// begins there: the index just past its terminating `m`.
fn escape_end(log: &str, i: usize, n: usize) -> (r: Option<usize>)
    requires
        n == log@.len(),
        i < n,
    ensures
        has_escape_at(log@, i as int) ==> r == Some((i + escape_len_at(log@, i as int)) as usize),
        !has_escape_at(log@, i as int) ==> r is None,
{
    if log.get_char(i) != '\u{1b}' {
        return None;
    }
    if i + 1 >= n {
        return None;
    }
    if log.get_char(i + 1) != '[' {
        return None;
    }
    let mut j: usize = i + 2;
    loop
        invariant
            n == log@.len(),
            i + 2 <= j <= n,
            forall|t: int| i + 2 <= t < j ==> is_inner(#[trigger] log@[t]),
        ensures
            i + 2 <= j <= n,
            forall|t: int| i + 2 <= t < j ==> is_inner(#[trigger] log@[t]),
            j == n || !is_inner(log@[j as int]),
        decreases n - j,
    {
        if j == n {
            break;
        }
        if !is_inner_char(log.get_char(j)) {
            break;
        }
        j = j + 1;
    }
    proof {
        lemma_run_len_exact(log@, i as int + 2, j as int);
    }
    if j < n && log.get_char(j) == 'm' {
        Some(j + 1)
    } else {
        None
    }
}

/// Removes every ANSI color/style escape sequence from the log line, and
/// nothing else.
pub fn remove_ansi_escape_codes(log: &str) -> (r: String)
    ensures
        r@ == strip_spec(log@),
{
    let n: usize = log.unicode_len();
    let mut out: String = String::new();
    proof {
        assert(Seq::<char>::empty() + strip_spec(log@) =~= strip_spec(log@));
    }
    let mut i: usize = 0;
    while i < n
        invariant
            n == log@.len(),
            i <= n,
            out@ + strip_from(log@, i as int) == strip_spec(log@),
        decreases n - i,
    {
        match escape_end(log, i, n) {
            Some(next) => {
                proof {
                    assert(has_escape_at(log@, i as int));
                    assert(i + 2 + run_len(log@, i as int + 2) < n);
                    assert(strip_from(log@, i as int) == strip_from(log@, next as int));
                }
                i = next;
            },
            None => {
                let ghost old_out = out@;
                let piece = log.substring_char(i, i + 1);
                out.append(piece);
                proof {
                    assert(!has_escape_at(log@, i as int));
                    assert(log@.subrange(i as int, i as int + 1) =~= seq![log@[i as int]]);
                    assert(strip_from(log@, i as int) == seq![log@[i as int]] + strip_from(
                        log@,
                        i as int + 1,
                    ));
                    assert(out@ + strip_from(log@, i as int + 1) =~= old_out + strip_from(
                        log@,
                        i as int,
                    ));
                }
                i = i + 1;
            },
        }
    }
    proof {
        assert(strip_from(log@, n as int) =~= Seq::<char>::empty());
        assert(out@ + strip_from(log@, n as int) =~= out@);
    }
    out
}

} // verus!
