//! The argument splitter reads back what shell quoting writes: splitting a line of
//! quoted, space-separated values gives the values again.

use vstd::prelude::*;
use crate::launch::{
    join_words, shell_join_seq, shell_quote_seq, split_args_seq, split_init, split_state, split_step,
    SplitState,
};
use crate::text::{has_prefix, replace_seq};

verus! {

/// The splitter after reading `s`, starting from `st`.
pub open spec fn split_from(st: SplitState, s: Seq<char>) -> SplitState
    decreases s.len(),
{
    if s.len() == 0 {
        st
    } else {
        split_step(split_from(st, s.drop_last()), s.last())
    }
}

/// Reading `a` then `b` is reading `a + b`.
proof fn lemma_split_from_concat(st: SplitState, a: Seq<char>, b: Seq<char>)
    ensures
        split_from(st, a + b) == split_from(split_from(st, a), b),
    decreases b.len(),
{
    if b.len() == 0 {
        assert(a + b =~= a);
    } else {
        assert((a + b).drop_last() =~= a + b.drop_last());
        assert((a + b).last() == b.last());
        lemma_split_from_concat(st, a, b.drop_last());
    }
}

/// The splitter from the start is the splitter from the initial state.
proof fn lemma_split_state_from_init(s: Seq<char>)
    ensures
        split_state(s) == split_from(split_init(), s),
    decreases s.len(),
{
    if s.len() > 0 {
        lemma_split_state_from_init(s.drop_last());
    }
}

/// Inside single quotes, the escaped text of `v` adds `v` to the argument and leaves the
/// single quote open.
proof fn lemma_escaped_body(st: SplitState, v: Seq<char>)
    requires
        st.quote == Some('\''),
    ensures
        split_from(st, replace_seq(v, "'"@, "'\"'\"'"@)) == (SplitState { done: st.done, cur: st.cur + v, quote: Some('\'') }),
    decreases v.len(),
{
    reveal_strlit("'");
    reveal_strlit("'\"'\"'");
    if v.len() == 0 {
        assert(st.cur + v =~= st.cur);
    } else {
        let c = v[0];
        let rest = v.drop_first();
        let piece = if c == '\'' { "'\"'\"'"@ } else { seq![c] };
        assert(has_prefix(v, "'"@) == (c == '\'')) by {
            if c == '\'' {
                assert(v.subrange(0, 1) =~= "'"@);
            } else {
                assert(v.subrange(0, 1)[0] == c);
            }
        }
        if c == '\'' {
            assert(v.subrange(1, v.len() as int) =~= rest);
        }
        assert(replace_seq(v, "'"@, "'\"'\"'"@) == piece + replace_seq(rest, "'"@, "'\"'\"'"@));
        lemma_split_from_concat(st, piece, replace_seq(rest, "'"@, "'\"'\"'"@));
        let mid = SplitState { done: st.done, cur: st.cur.push(c), quote: Some('\'') };
        assert(split_from(st, piece) == mid) by {
            reveal_with_fuel(split_from, 6);
            if c == '\'' {
                assert(piece.drop_last().drop_last().drop_last().drop_last().drop_last() =~= Seq::<char>::empty());
                assert(piece.drop_last().drop_last().drop_last().drop_last() =~= seq!['\'']);
                assert(piece.drop_last().drop_last().drop_last() =~= seq!['\'', '"']);
                assert(piece.drop_last().drop_last() =~= seq!['\'', '"', '\'']);
                assert(piece.drop_last() =~= seq!['\'', '"', '\'', '"']);
            } else {
                assert(piece.drop_last() =~= Seq::<char>::empty());
            }
        }
        lemma_escaped_body(mid, rest);
        assert(st.cur.push(c) + rest =~= st.cur + v);
    }
}

/// A quoted value read with no argument under way and no quote open becomes the argument
/// under way, with no quote open.
proof fn lemma_quoted_token(st: SplitState, v: Seq<char>)
    requires
        st.quote is None,
        st.cur.len() == 0,
    ensures
        split_from(st, shell_quote_seq(v)) == (SplitState { done: st.done, cur: v, quote: None }),
{
    reveal_strlit("'");
    let body = replace_seq(v, "'"@, "'\"'\"'"@);
    assert(shell_quote_seq(v) == "'"@ + body + "'"@);
    lemma_split_from_concat(st, "'"@ + body, "'"@);
    lemma_split_from_concat(st, "'"@, body);
    let opened = SplitState { done: st.done, cur: st.cur, quote: Some('\'') };
    assert(split_from(st, "'"@) == opened) by {
        reveal_with_fuel(split_from, 2);
        assert("'"@.drop_last() =~= Seq::<char>::empty());
    }
    lemma_escaped_body(opened, v);
    assert(st.cur + v =~= v);
    let inside = SplitState { done: st.done, cur: v, quote: Some('\'') };
    assert(split_from(inside, "'"@) == (SplitState { done: st.done, cur: v, quote: None })) by {
        reveal_with_fuel(split_from, 2);
        assert("'"@.drop_last() =~= Seq::<char>::empty());
    }
}

/// The quoted values.
pub open spec fn quoted_all(ts: Seq<Seq<char>>) -> Seq<Seq<char>> {
    ts.map_values(|v: Seq<char>| shell_quote_seq(v))
}

/// Reading non-empty quoted values joined by spaces finishes all but the last, which is
/// under way, with no quote open.
proof fn lemma_joined_tokens(ts: Seq<Seq<char>>)
    requires
        ts.len() > 0,
        forall|i: int| 0 <= i < ts.len() ==> #[trigger] ts[i].len() > 0,
    ensures
        split_from(split_init(), join_words(quoted_all(ts))) == (SplitState {
            done: ts.drop_last(),
            cur: ts.last(),
            quote: None,
        }),
    decreases ts.len(),
{
    let qs = quoted_all(ts);
    if ts.len() == 1 {
        assert(join_words(qs) == qs[0]);
        lemma_quoted_token(split_init(), ts[0]);
        assert(ts.drop_last() =~= Seq::<Seq<char>>::empty());
    } else {
        let front = ts.drop_last();
        assert(quoted_all(front) =~= qs.drop_last());
        lemma_joined_tokens(front);
        assert(join_words(qs) == join_words(qs.drop_last()) + " "@ + qs.last());
        lemma_split_from_concat(split_init(), join_words(qs.drop_last()) + " "@, qs.last());
        lemma_split_from_concat(split_init(), join_words(qs.drop_last()), " "@);
        let before = SplitState { done: front.drop_last(), cur: front.last(), quote: None };
        assert(front.last().len() > 0) by {
            assert(front.last() == ts[ts.len() - 2]);
        }
        let after_space = SplitState { done: front.drop_last().push(front.last()), cur: Seq::empty(), quote: None };
        assert(split_from(before, " "@) == after_space) by {
            reveal_with_fuel(split_from, 2);
            reveal_strlit(" ");
            assert(" "@.drop_last() =~= Seq::<char>::empty());
        }
        assert(front.drop_last().push(front.last()) =~= front);
        lemma_quoted_token(after_space, ts.last());
    }
}

/// Splitting a line of non-empty values, each quoted for a shell and separated by
/// single spaces, gives the values back.
pub proof fn lemma_split_undoes_shell_join(ts: Seq<Seq<char>>)
    requires
        forall|i: int| 0 <= i < ts.len() ==> #[trigger] ts[i].len() > 0,
    ensures
        split_args_seq(shell_join_seq(ts)) == ts,
{
    assert(shell_join_seq(ts) == join_words(quoted_all(ts)));
    lemma_split_state_from_init(shell_join_seq(ts));
    if ts.len() == 0 {
        assert(quoted_all(ts) =~= Seq::<Seq<char>>::empty());
        assert(split_state(shell_join_seq(ts)) == split_init());
    } else {
        lemma_joined_tokens(ts);
        assert(ts.drop_last().push(ts.last()) =~= ts);
    }
}

/// Splitting one non-empty value quoted for a shell gives the value back.
pub proof fn lemma_split_undoes_shell_quote(v: Seq<char>)
    requires
        v.len() > 0,
    ensures
        split_args_seq(shell_quote_seq(v)) == seq![v],
{
    lemma_split_state_from_init(shell_quote_seq(v));
    lemma_quoted_token(split_init(), v);
}

} // verus!
