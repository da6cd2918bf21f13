//! The reply classifier: decides whether an incoming chat message resolves
//! a pending confirmation, and if so extracts the candidate action id and
//! the verdict.
//!
//! The rules are deliberately simple. A message is a resolution when its
//! case-folded text contains `confirm` or `cancel` as a substring and the
//! message has at least two whitespace-delimited tokens; the candidate id is
//! the last token of the original text. The verdict affirms when the folded
//! text contains `yes` or `confirm`; affirmation takes priority over
//! negation when both kinds of keyword appear.
use vstd::prelude::*;

use crate::text::chars_to_string;
use crate::text::contains_pat;
use crate::text::contains_sub;
use crate::text::copy_range;
use crate::text::is_ws;
use crate::text::lower;
use crate::text::str_chars;
use crate::text::to_lower;
use crate::text::ws_char;

verus! {

broadcast use vstd::seq::group_seq_axioms, vstd::std_specs::vec::group_vec_axioms;

/// The text has at least two whitespace-delimited tokens: two non-blank
/// characters with a blank one between them.
pub open spec fn has_two_tokens(s: Seq<char>) -> bool {
    exists|i: int, j: int, k: int|
        0 <= i < j < k < s.len() && !is_ws(s[i]) && is_ws(s[j]) && !is_ws(s[k])
}

/// One past the last non-blank character; 0 when the text is all blank.
pub open spec fn token_end(s: Seq<char>) -> int
    decreases s.len(),
{
    if s.len() == 0 {
        0
    } else if is_ws(s[s.len() - 1]) {
        token_end(s.drop_last())
    } else {
        s.len() as int
    }
}

/// Walks left from `j` over non-blank characters to the start of the token
/// that ends at `j`.
pub open spec fn token_start(s: Seq<char>, j: int) -> int
    decreases j,
{
    if j <= 0 {
        0
    } else if j - 1 < s.len() && !is_ws(s[j - 1]) {
        token_start(s, j - 1)
    } else {
        j
    }
}

/// The last whitespace-delimited token of `s` (empty when `s` is blank).
pub open spec fn last_token(s: Seq<char>) -> Seq<char> {
    s.subrange(token_start(s, token_end(s)), token_end(s))
}

/// What the classifier decides for a message: the candidate action id and
/// whether the reply affirms, or nothing when the message is not a
/// resolution.
pub open spec fn spec_classify(s: Seq<char>) -> Option<(Seq<char>, bool)> {
    let low = lower(s);
    if !(contains_sub(low, "confirm"@) || contains_sub(low, "cancel"@)) {
        None
    } else if !has_two_tokens(s) {
        None
    } else {
        Some((last_token(s), contains_sub(low, "yes"@) || contains_sub(low, "confirm"@)))
    }
}

/// Everything at or past `token_end` is blank, and the character just
/// before it (if any) is not.
proof fn lemma_token_end(s: Seq<char>)
    ensures
        0 <= token_end(s) <= s.len(),
        forall|i: int| token_end(s) <= i < s.len() ==> is_ws(s[i]),
        token_end(s) > 0 ==> !is_ws(s[token_end(s) - 1]),
    decreases s.len(),
{
    if s.len() > 0 {
        lemma_token_end(s.drop_last());
        if is_ws(s[s.len() - 1]) {
            assert forall|i: int| token_end(s) <= i < s.len() implies is_ws(s[i]) by {
                if i < s.len() - 1 {
                    assert(s.drop_last()[i] == s[i]);
                }
            }
            if token_end(s) > 0 {
                assert(s.drop_last()[token_end(s) - 1] == s[token_end(s) - 1]);
            }
        }
    }
}

/// Everything between `token_start(s, j)` and `j` is non-blank, and the
/// character just before the start (if any) is blank.
proof fn lemma_token_start(s: Seq<char>, j: int)
    requires
        0 <= j <= s.len(),
    ensures
        0 <= token_start(s, j) <= j,
        forall|i: int| token_start(s, j) <= i < j ==> !is_ws(s[i]),
        token_start(s, j) > 0 ==> is_ws(s[token_start(s, j) - 1]),
    decreases j,
{
    if j > 0 && !is_ws(s[j - 1]) {
        lemma_token_start(s, j - 1);
    }
}

/// The two-token test is decided by whether any non-blank character stands
/// before the last token.
proof fn lemma_two_tokens(s: Seq<char>)
    ensures
        has_two_tokens(s) <==> (exists|i: int|
            0 <= i < token_start(s, token_end(s)) && !is_ws(s[i])),
{
    let e = token_end(s);
    let st = token_start(s, e);
    lemma_token_end(s);
    lemma_token_start(s, e);
    if exists|i: int| 0 <= i < st && !is_ws(s[i]) {
        let i = choose|i: int| 0 <= i < st && !is_ws(s[i]);
        assert(st > 0);
        assert(e > 0) by {
            if e == 0 {
                assert(token_start(s, 0) == 0);
            }
        }
        assert(st <= e - 1) by {
            if st == e {
                assert(!is_ws(s[e - 1]));
                assert(token_start(s, e) <= e - 1);
            }
        }
        assert(i != st - 1);
        assert(0 <= i < st - 1 < st < s.len() && !is_ws(s[i]) && is_ws(s[st - 1]) && !is_ws(s[st]));
    }
    if has_two_tokens(s) {
        let (i, j, k) = choose|i: int, j: int, k: int|
            0 <= i < j < k < s.len() && !is_ws(s[i]) && is_ws(s[j]) && !is_ws(s[k]);
        assert(k < e);
        if k >= st {
            assert(j < st);
            assert(0 <= i < st && !is_ws(s[i]));
        } else {
            assert(0 <= k < st && !is_ws(s[k]));
        }
    }
}

/// Returns one past the last non-blank character of `cs`.
fn token_end_x(cs: &Vec<char>) -> (r: usize)
    ensures
        r as int == token_end(cs@),
        r <= cs@.len(),
{
    let mut j: usize = cs.len();
    proof {
        assert(cs@.subrange(0, cs@.len() as int) =~= cs@);
    }
    while j > 0 && ws_char(cs[j - 1])
        invariant
            j <= cs@.len(),
            token_end(cs@) == token_end(cs@.subrange(0, j as int)),
        decreases j,
    {
        j = j - 1;
        proof {
            assert(cs@.subrange(0, j as int + 1).drop_last() =~= cs@.subrange(0, j as int));
        }
    }
    proof {
        if j > 0 {
            assert(cs@.subrange(0, j as int)[j - 1] == cs@[j - 1]);
        }
        lemma_token_end(cs@);
    }
    j
}

/// Returns the start of the token ending at `e`.
fn token_start_x(cs: &Vec<char>, e: usize) -> (r: usize)
    requires
        e <= cs@.len(),
    ensures
        r as int == token_start(cs@, e as int),
        r <= e,
{
    proof {
        lemma_token_start(cs@, e as int);
    }
    let mut j: usize = e;
    while j > 0 && !ws_char(cs[j - 1])
        invariant
            j <= e <= cs@.len(),
            token_start(cs@, e as int) == token_start(cs@, j as int),
        decreases j,
    {
        j = j - 1;
    }
    j
}

/// Classifies `text`: returns the candidate action id and the verdict when
/// the message resolves a pending confirmation, or nothing when it should
/// go to the model instead.
pub fn classify_reply(text: &str) -> (r: Option<(String, bool)>)
    ensures
        match r {
            Some(p) => spec_classify(text@) == Some((p.0@, p.1)),
            None => spec_classify(text@) is None,
        },
{
    let cs = str_chars(text);
    let low = to_lower(&cs);
    let confirm_pat = str_chars("confirm");
    let cancel_pat = str_chars("cancel");
    let yes_pat = str_chars("yes");
    proof {
        reveal_strlit("confirm");
        reveal_strlit("cancel");
        reveal_strlit("yes");
    }
    let has_confirm = contains_pat(&low, &confirm_pat);
    let has_cancel = contains_pat(&low, &cancel_pat);
    if !(has_confirm || has_cancel) {
        return None;
    }
    let e = token_end_x(&cs);
    let st = token_start_x(&cs, e);
    proof {
        lemma_two_tokens(cs@);
    }
    let mut found: bool = false;
    let mut i: usize = 0;
    while i < st
        invariant
            i <= st <= cs@.len(),
            found == exists|j: int| 0 <= j < i && !is_ws(cs@[j]),
        decreases st - i,
    {
        if !ws_char(cs[i]) {
            found = true;
        }
        i = i + 1;
    }
    if !found {
        return None;
    }
    let id_chars = copy_range(&cs, st, e);
    let id = chars_to_string(&id_chars);
    let affirm = contains_pat(&low, &yes_pat) || has_confirm;
    Some((id, affirm))
}

/// Affirmation takes priority over negation: a two-token reply whose folded
/// text contains both `confirm` and `cancel` resolves as a confirmation of
/// its trailing token.
pub proof fn lemma_affirmation_precedence(s: Seq<char>)
    requires
        contains_sub(lower(s), "confirm"@),
        contains_sub(lower(s), "cancel"@),
        has_two_tokens(s),
    ensures
        spec_classify(s) == Some((last_token(s), true)),
{
}

/// A reply of the form `confirm <id>`, with a non-blank id, classifies as a
/// confirmation of exactly that id.
pub proof fn lemma_confirm_reply_classifies(x: Seq<char>)
    requires
        x.len() > 0,
        forall|i: int| 0 <= i < x.len() ==> !is_ws(x[i]),
    ensures
        spec_classify("confirm "@ + x) == Some((x, true)),
{
    reveal_strlit("confirm ");
    reveal_strlit("confirm");
    let s = "confirm "@ + x;
    let low = lower(s);
    assert(low.len() == s.len());
    assert forall|i: int| 0 <= i < 7 implies low[i] == "confirm"@[i] by {
        assert(s[i] == "confirm "@[i]);
    }
    assert(low.subrange(0, 7) =~= "confirm"@);
    assert(crate::text::occurs_at(low, "confirm"@, 0));
    assert(has_two_tokens(s)) by {
        assert(!is_ws(s[0]));
        assert(is_ws(s[7]));
        assert(!is_ws(s[8]));
        assert(0 < 7 < 8 < s.len());
    }
    let e = token_end(s);
    let st = token_start(s, e);
    lemma_token_end(s);
    lemma_token_start(s, e);
    assert(e == s.len()) by {
        assert(!is_ws(s[s.len() - 1]));
    }
    assert(st == 8) by {
        if st > 8 {
            assert(!is_ws(s[st - 1]));
        }
        if st < 8 {
            assert(is_ws(s[7]));
            assert(!is_ws(s[7]));
        }
    }
    assert(last_token(s) =~= x);
}

} // verus!
