//! Laws of the scanner, stated over [`spec_next`] and proved once for every
//! source text: the shape of the whole token stream follows from the
//! contract of [`crate::lexer::Lexer::next`] and these lemmas.

use vstd::prelude::*;

use crate::lexer::advance_over;
use crate::lexer::comment_end;
use crate::lexer::identifier_end;
use crate::lexer::initial_state;
use crate::lexer::is_whitespace_char;
use crate::lexer::number_end;
use crate::lexer::skip_whitespace_spec;
use crate::lexer::spec_next;
use crate::lexer::LexState;
use crate::token::TokenValue;

verus! {

/// Whether `st` is a state the scanner can be in over source `s`: the
/// cursor within the source, line and column positive and within range.
pub open spec fn wf_state(s: Seq<char>, st: LexState) -> bool {
    &&& 0 <= st.cursor <= s.len()
    &&& 1 <= st.line <= u64::MAX
    &&& 1 <= st.column <= u64::MAX
}

/// Skipping whitespace keeps the state well formed and moves the cursor
/// and the line number only forward.
proof fn lemma_skip_whitespace_bounds(s: Seq<char>, st: LexState)
    requires
        wf_state(s, st),
    ensures
        wf_state(s, skip_whitespace_spec(s, st)),
        st.cursor <= skip_whitespace_spec(s, st).cursor,
        st.line <= skip_whitespace_spec(s, st).line,
    decreases s.len() - st.cursor,
{
    if st.cursor < s.len() && is_whitespace_char(s[st.cursor]) {
        lemma_skip_whitespace_bounds(s, advance_over(s[st.cursor], st));
    }
}

/// An identifier run ends between its start and the end of the source.
proof fn lemma_identifier_end_bounds(s: Seq<char>, i: int)
    requires
        0 <= i <= s.len(),
    ensures
        i <= identifier_end(s, i) <= s.len(),
    decreases s.len() - i,
{
    if i < s.len() && crate::lexer::is_identifier_char(s[i]) {
        lemma_identifier_end_bounds(s, i + 1);
    }
}

/// A numeric-literal run ends between its start and the end of the source.
proof fn lemma_number_end_bounds(s: Seq<char>, i: int)
    requires
        0 <= i <= s.len(),
    ensures
        i <= number_end(s, i) <= s.len(),
    decreases s.len() - i,
{
    if i < s.len() && crate::lexer::is_number_char(s[i]) {
        lemma_number_end_bounds(s, i + 1);
    }
}

/// A comment ends between its start and the end of the source.
proof fn lemma_comment_end_bounds(s: Seq<char>, i: int)
    requires
        0 <= i <= s.len(),
    ensures
        i <= comment_end(s, i) <= s.len(),
    decreases s.len() - i,
{
    if i < s.len() && s[i] != '\n' {
        lemma_comment_end_bounds(s, i + 1);
    }
}

/// One scanning step keeps the state well formed, never moves the cursor
/// backwards or past the end of the source, and never decreases the line
/// number: no token re-reads input an earlier token already covered.
pub proof fn lemma_next_advances(s: Seq<char>, st: LexState)
    requires
        wf_state(s, st),
    ensures
        ({
            let (tv, st2) = spec_next(s, st);
            wf_state(s, st2) && st.cursor <= st2.cursor && st.line <= st2.line
        }),
{
    let q = skip_whitespace_spec(s, st);
    lemma_skip_whitespace_bounds(s, st);
    if q.cursor < s.len() {
        lemma_identifier_end_bounds(s, q.cursor);
        lemma_number_end_bounds(s, q.cursor);
        lemma_comment_end_bounds(s, q.cursor);
    }
}

/// A step that returns the end-of-input token leaves the cursor exactly at
/// the end of the source.
proof fn lemma_next_eof_cursor(s: Seq<char>, st: LexState)
    requires
        wf_state(s, st),
        spec_next(s, st).0.kind is Eof,
    ensures
        spec_next(s, st).1.cursor == s.len(),
{
    lemma_skip_whitespace_bounds(s, st);
}

/// The scanner state before call `n`, counting calls from a fresh lexer.
pub open spec fn scan_state(s: Seq<char>, n: nat) -> LexState
    decreases n,
{
    if n == 0 {
        initial_state()
    } else {
        spec_next(s, scan_state(s, (n - 1) as nat)).1
    }
}

/// The token returned by call `n` (0-based) of a fresh lexer over `s`.
pub open spec fn scan_token(s: Seq<char>, n: nat) -> TokenValue {
    spec_next(s, scan_state(s, n)).0
}

/// Every reachable scanner state is well formed.
pub proof fn lemma_scan_state_wf(s: Seq<char>, n: nat)
    ensures
        wf_state(s, scan_state(s, n)),
    decreases n,
{
    if n > 0 {
        lemma_scan_state_wf(s, (n - 1) as nat);
        lemma_next_advances(s, scan_state(s, (n - 1) as nat));
    }
}

/// For any source consisting only of whitespace, the first call returns
/// the end-of-input token.
pub proof fn lemma_whitespace_only_yields_eof(s: Seq<char>)
    requires
        forall|i: int| 0 <= i < s.len() ==> is_whitespace_char(s[i]),
    ensures
        scan_token(s, 0).kind is Eof,
{
    lemma_skip_all_whitespace(s, initial_state());
}

/// Skipping whitespace over an all-whitespace tail reaches the end.
proof fn lemma_skip_all_whitespace(s: Seq<char>, st: LexState)
    requires
        0 <= st.cursor <= s.len(),
        forall|i: int| st.cursor <= i < s.len() ==> is_whitespace_char(s[i]),
    ensures
        skip_whitespace_spec(s, st).cursor == s.len(),
    decreases s.len() - st.cursor,
{
    if st.cursor < s.len() {
        lemma_skip_all_whitespace(s, advance_over(s[st.cursor], st));
    }
}

/// The text consumed by calls 0 up to (not through) `n`: each call's span
/// runs from its starting cursor to its successor state's cursor and covers
/// the token's text together with the whitespace skipped before it.
pub open spec fn consumed_spans(s: Seq<char>, n: nat) -> Seq<char>
    decreases n,
{
    if n == 0 {
        Seq::empty()
    } else {
        consumed_spans(s, (n - 1) as nat) + s.subrange(
            scan_state(s, (n - 1) as nat).cursor,
            scan_state(s, n).cursor,
        )
    }
}

/// The spans consumed so far concatenate to exactly the prefix of the
/// source the scanner has read: spans are adjacent, in order, with no gap
/// and no overlap.
pub proof fn lemma_spans_are_prefix(s: Seq<char>, n: nat)
    ensures
        consumed_spans(s, n) == s.subrange(0, scan_state(s, n).cursor),
    decreases n,
{
    if n == 0 {
        assert(consumed_spans(s, 0) =~= s.subrange(0, 0));
    } else {
        let m = (n - 1) as nat;
        lemma_spans_are_prefix(s, m);
        lemma_scan_state_wf(s, m);
        lemma_next_advances(s, scan_state(s, m));
        assert(s.subrange(0, scan_state(s, m).cursor) + s.subrange(
            scan_state(s, m).cursor,
            scan_state(s, n).cursor,
        ) =~= s.subrange(0, scan_state(s, n).cursor));
    }
}

/// Token boundaries partition the source exactly: when call `n` returns
/// the end-of-input token, the concatenation of every consumed span —
/// token text plus skipped whitespace — reconstructs the whole source text.
pub proof fn lemma_tokens_partition_source(s: Seq<char>, n: nat)
    requires
        scan_token(s, n).kind is Eof,
    ensures
        scan_state(s, (n + 1) as nat).cursor == s.len(),
        consumed_spans(s, (n + 1) as nat) == s,
{
    lemma_scan_state_wf(s, n);
    lemma_next_eof_cursor(s, scan_state(s, n));
    lemma_spans_are_prefix(s, (n + 1) as nat);
    assert(s.subrange(0, s.len() as int) =~= s);
}

/// Re-scanning identical source text from two fresh scanners yields
/// identical token sequences: each call's token and successor state are a
/// function of the source text and the call number alone.
pub proof fn lemma_rescan_deterministic(s1: Seq<char>, s2: Seq<char>, n: nat)
    requires
        s1 == s2,
    ensures
        scan_token(s1, n) == scan_token(s2, n),
        scan_state(s1, n) == scan_state(s2, n),
{
}

/// Once a call has returned the end-of-input token, every further call
/// returns the same end-of-input token and leaves the state unchanged.
pub proof fn lemma_eof_absorbing(s: Seq<char>, st: LexState)
    requires
        wf_state(s, st),
        spec_next(s, st).0.kind is Eof,
    ensures
        spec_next(s, spec_next(s, st).1) == spec_next(s, st),
{
    lemma_skip_whitespace_bounds(s, st);
    lemma_next_eof_cursor(s, st);
}

} // verus!
