//! What holds of the colours of nested brackets.
//!
//! The tokenizer goes through a line character by character. The laws here
//! say what that comes to: which class a bracket gets from the depth at
//! which it stands, how the depth of a pair follows from the brackets before
//! it, and that a closing bracket is shown like the opening bracket to whose
//! depth it comes back.

use vstd::prelude::*;
use crate::annotation_type::AnnotationType;
use crate::highlight::config::{BracketConfig, LanguageConfig};
use crate::highlight::generic::{block_scan, bracket_class, bracket_scan, bracket_step, level_of};
use crate::highlight::generic::{line_annotations, line_comment_tokens, line_tokens, string_tokens};
use crate::highlight::generic::with_level;
use crate::highlight::highlighter::HighlightState;
use crate::highlight::scan::{in_any, token, Token};
use crate::text::capped;

verus! {

/// The first of the pairs from the `j`-th on, among the three that count, of
/// which `c` is a bracket.
pub open spec fn claimer(brackets: Seq<BracketConfig>, c: char, j: int) -> Option<int>
    decreases 3 - j,
{
    if j < 0 || j >= 3 || j >= brackets.len() {
        None
    } else if c == brackets[j].open || c == brackets[j].close {
        Some(j)
    } else {
        claimer(brackets, c, j + 1)
    }
}

/// `c` is taken as the opening bracket of pair `k`.
pub open spec fn opens(brackets: Seq<BracketConfig>, c: char, k: int) -> bool {
    claimer(brackets, c, 0) == Some(k) && c == brackets[k].open
}

/// `c` is taken as the closing bracket of pair `k`.
pub open spec fn closes(brackets: Seq<BracketConfig>, c: char, k: int) -> bool {
    claimer(brackets, c, 0) == Some(k) && c != brackets[k].open
}

/// Character `p` of the line lies outside strings and comments.
pub open spec fn counted(strings: Seq<Token>, comments: Seq<Token>, p: int) -> bool {
    !in_any(strings, p) && !in_any(comments, p)
}

/// The state of the brackets in front of character `n` of a line that
/// starts in `state`.
pub open spec fn bracket_state(
    chars: Seq<char>,
    brackets: Seq<BracketConfig>,
    strings: Seq<Token>,
    comments: Seq<Token>,
    state: HighlightState,
    n: int,
) -> HighlightState
    decreases n,
{
    if n <= 0 || n > chars.len() {
        state
    } else {
        let before = bracket_state(chars, brackets, strings, comments, state, n - 1);
        if counted(strings, comments, n - 1) {
            match bracket_step(brackets, chars[n - 1], before, 0) {
                Some((_, next)) => next,
                None => before,
            }
        } else {
            before
        }
    }
}

/// The class in which character `p` is shown as a bracket, if it is one
/// outside strings and comments.
pub open spec fn bracket_class_at(
    chars: Seq<char>,
    brackets: Seq<BracketConfig>,
    strings: Seq<Token>,
    comments: Seq<Token>,
    state: HighlightState,
    p: int,
) -> Option<AnnotationType> {
    if 0 <= p < chars.len() && counted(strings, comments, p) {
        match bracket_step(
            brackets,
            chars[p],
            bracket_state(chars, brackets, strings, comments, state, p),
            0,
        ) {
            Some((kind, _)) => Some(kind),
            None => None,
        }
    } else {
        None
    }
}

/// The bracket tokens of the first `n` characters.
pub open spec fn bracket_tokens(
    chars: Seq<char>,
    brackets: Seq<BracketConfig>,
    strings: Seq<Token>,
    comments: Seq<Token>,
    state: HighlightState,
    n: int,
) -> Seq<Token>
    decreases n,
{
    if n <= 0 || n > chars.len() {
        Seq::empty()
    } else {
        let rest = bracket_tokens(chars, brackets, strings, comments, state, n - 1);
        match bracket_class_at(chars, brackets, strings, comments, state, n - 1) {
            Some(kind) => rest.push(token(kind, n - 1, n)),
            None => rest,
        }
    }
}

/// The depth of pair `k` in front of character `n`.
pub open spec fn depth(
    chars: Seq<char>,
    brackets: Seq<BracketConfig>,
    strings: Seq<Token>,
    comments: Seq<Token>,
    state: HighlightState,
    k: int,
    n: int,
) -> int {
    level_of(bracket_state(chars, brackets, strings, comments, state, n), k)
}

/// The opening brackets of pair `k` among the first `n` characters, less the
/// closing ones, counting those outside strings and comments.
pub open spec fn net_depth(
    chars: Seq<char>,
    brackets: Seq<BracketConfig>,
    strings: Seq<Token>,
    comments: Seq<Token>,
    k: int,
    n: int,
) -> int
    decreases n,
{
    if n <= 0 || n > chars.len() {
        0
    } else {
        net_depth(chars, brackets, strings, comments, k, n - 1) + if !counted(strings, comments, n - 1) {
            0int
        } else if opens(brackets, chars[n - 1], k) {
            1int
        } else if closes(brackets, chars[n - 1], k) {
            -1int
        } else {
            0int
        }
    }
}

/// The pairs of the line are properly nested for pair `k`, seen from depth
/// `level`: no closing bracket comes before its opening one, every bracket
/// that opens is closed, and the depth stays a machine number.
pub open spec fn properly_nested(
    chars: Seq<char>,
    brackets: Seq<BracketConfig>,
    strings: Seq<Token>,
    comments: Seq<Token>,
    k: int,
    level: int,
) -> bool {
    &&& net_depth(chars, brackets, strings, comments, k, chars.len() as int) == 0
    &&& forall|m: int|
        0 <= m <= chars.len() ==> 0 <= #[trigger] net_depth(chars, brackets, strings, comments, k, m)
            && level + net_depth(chars, brackets, strings, comments, k, m) <= usize::MAX
}

/// The opening bracket at `i` and the closing bracket at `j` of pair `k`
/// belong together: the line stands as deep behind the closing bracket as it
/// stood in front of the opening one, and deeper all the way between them.
pub open spec fn matched(
    chars: Seq<char>,
    brackets: Seq<BracketConfig>,
    strings: Seq<Token>,
    comments: Seq<Token>,
    k: int,
    i: int,
    j: int,
) -> bool {
    &&& 0 <= i < j < chars.len()
    &&& counted(strings, comments, i) && opens(brackets, chars[i], k)
    &&& counted(strings, comments, j) && closes(brackets, chars[j], k)
    &&& net_depth(chars, brackets, strings, comments, k, j + 1) == net_depth(
        chars,
        brackets,
        strings,
        comments,
        k,
        i,
    )
    &&& forall|m: int|
        i < m <= j ==> #[trigger] net_depth(chars, brackets, strings, comments, k, m) > net_depth(
            chars,
            brackets,
            strings,
            comments,
            k,
            i,
        )
}

/// What a character does as a bracket is decided by the first pair that has
/// it: an opening bracket takes the class of the depth of that pair and
/// deepens it, a closing bracket goes up a level and takes the class of the
/// depth it comes to. A character that no pair has does nothing.
pub proof fn lemma_bracket_step(brackets: Seq<BracketConfig>, c: char, state: HighlightState, j: int)
    requires
        0 <= j,
    ensures
        match claimer(brackets, c, j) {
            Some(r) => j <= r < 3 && r < brackets.len() && bracket_step(brackets, c, state, j) == Some(
                if c == brackets[r].open {
                    (
                        bracket_class(level_of(state, r), brackets[r].color_offset as int),
                        with_level(state, r, capped(level_of(state, r) + 1)),
                    )
                } else {
                    (
                        bracket_class(
                            if level_of(state, r) > 0 {
                                level_of(state, r) - 1
                            } else {
                                0
                            },
                            brackets[r].color_offset as int,
                        ),
                        with_level(
                            state,
                            r,
                            if level_of(state, r) > 0 {
                                level_of(state, r) - 1
                            } else {
                                0
                            },
                        ),
                    )
                },
            ),
            None => bracket_step(brackets, c, state, j) is None,
        },
    decreases 3 - j,
{
    if j < 3 && j < brackets.len() && c != brackets[j].open && c != brackets[j].close {
        lemma_bracket_step(brackets, c, state, j + 1);
    }
}

/// A character changes the depth of pair `k` by one if it is taken as a
/// bracket of that pair, up for an opening and down for a closing one, and
/// not at all otherwise. The depth stops at 0 and at the largest machine
/// number.
pub proof fn lemma_step_depth(brackets: Seq<BracketConfig>, c: char, state: HighlightState, k: int)
    requires
        0 <= k < 3,
    ensures
        ({
            let next = match bracket_step(brackets, c, state, 0) {
                Some((_, next)) => next,
                None => state,
            };
            level_of(next, k) == if opens(brackets, c, k) {
                capped(level_of(state, k) + 1)
            } else if closes(brackets, c, k) {
                if level_of(state, k) > 0 {
                    level_of(state, k) - 1
                } else {
                    0
                }
            } else {
                level_of(state, k)
            }
        }),
{
    lemma_bracket_step(brackets, c, state, 0);
}

/// Going through the line character by character is what the tokenizer
/// does: its tokens are those of the characters, one after the other, and
/// the state it ends in is the state behind the last character.
pub proof fn lemma_bracket_scan(
    chars: Seq<char>,
    brackets: Seq<BracketConfig>,
    strings: Seq<Token>,
    comments: Seq<Token>,
    state: HighlightState,
)
    ensures
        bracket_scan(chars, brackets, strings, comments, 0, state) == (
            bracket_tokens(chars, brackets, strings, comments, state, chars.len() as int),
            bracket_state(chars, brackets, strings, comments, state, chars.len() as int),
        ),
{
    lemma_bracket_scan_from(chars, brackets, strings, comments, state, 0);
    assert(bracket_tokens(chars, brackets, strings, comments, state, 0) + bracket_scan(
        chars,
        brackets,
        strings,
        comments,
        0,
        state,
    ).0 =~= bracket_scan(chars, brackets, strings, comments, 0, state).0);
}

proof fn lemma_bracket_scan_from(
    chars: Seq<char>,
    brackets: Seq<BracketConfig>,
    strings: Seq<Token>,
    comments: Seq<Token>,
    state: HighlightState,
    i: int,
)
    requires
        0 <= i <= chars.len(),
    ensures
        ({
            let rest = bracket_scan(
                chars,
                brackets,
                strings,
                comments,
                i,
                bracket_state(chars, brackets, strings, comments, state, i),
            );
            &&& bracket_tokens(chars, brackets, strings, comments, state, i) + rest.0 == bracket_tokens(
                chars,
                brackets,
                strings,
                comments,
                state,
                chars.len() as int,
            )
            &&& rest.1 == bracket_state(chars, brackets, strings, comments, state, chars.len() as int)
        }),
    decreases chars.len() - i,
{
    let here = bracket_state(chars, brackets, strings, comments, state, i);
    let rest = bracket_scan(chars, brackets, strings, comments, i, here);
    let tokens = bracket_tokens(chars, brackets, strings, comments, state, i);
    if i < chars.len() {
        lemma_bracket_scan_from(chars, brackets, strings, comments, state, i + 1);
        let next = bracket_state(chars, brackets, strings, comments, state, i + 1);
        let after = bracket_scan(chars, brackets, strings, comments, i + 1, next);
        let more = bracket_tokens(chars, brackets, strings, comments, state, i + 1);
        assert(tokens + rest.0 =~= more + after.0);
    } else {
        assert(tokens + rest.0 =~= tokens);
    }
}

/// In a line that is properly nested for pair `k`, the depth of the pair in
/// front of every character is the depth in which the line starts and the
/// brackets that are open there, and the line ends as deep as it starts.
pub proof fn lemma_depth_of_nested(
    chars: Seq<char>,
    brackets: Seq<BracketConfig>,
    strings: Seq<Token>,
    comments: Seq<Token>,
    state: HighlightState,
    k: int,
    n: int,
)
    requires
        0 <= k < 3,
        0 <= n <= chars.len(),
        properly_nested(chars, brackets, strings, comments, k, level_of(state, k)),
    ensures
        depth(chars, brackets, strings, comments, state, k, n) == level_of(state, k) + net_depth(
            chars,
            brackets,
            strings,
            comments,
            k,
            n,
        ),
        n == chars.len() ==> depth(chars, brackets, strings, comments, state, k, n) == level_of(state, k),
    decreases n,
{
    if n > 0 {
        lemma_depth_of_nested(chars, brackets, strings, comments, state, k, n - 1);
        let before = bracket_state(chars, brackets, strings, comments, state, n - 1);
        lemma_step_depth(brackets, chars[n - 1], before, k);
        assert(net_depth(chars, brackets, strings, comments, k, n - 1) >= 0);
        assert(net_depth(chars, brackets, strings, comments, k, n) >= 0);
        assert(level_of(state, k) + net_depth(chars, brackets, strings, comments, k, n) <= usize::MAX);
    }
}

/// In a line that is properly nested for pair `k`, an opening bracket and
/// the closing bracket that belongs to it are shown in the same class: that
/// of the depth at which the opening bracket stands, counted from the depth
/// in which the line starts, with the colour offset of the pair.
pub proof fn lemma_matched_brackets_share_a_class(
    chars: Seq<char>,
    brackets: Seq<BracketConfig>,
    strings: Seq<Token>,
    comments: Seq<Token>,
    state: HighlightState,
    k: int,
    i: int,
    j: int,
)
    requires
        0 <= k < 3,
        properly_nested(chars, brackets, strings, comments, k, level_of(state, k)),
        matched(chars, brackets, strings, comments, k, i, j),
    ensures
        bracket_class_at(chars, brackets, strings, comments, state, i) == Some(
            bracket_class(
                level_of(state, k) + net_depth(chars, brackets, strings, comments, k, i),
                brackets[k].color_offset as int,
            ),
        ),
        bracket_class_at(chars, brackets, strings, comments, state, j) == bracket_class_at(
            chars,
            brackets,
            strings,
            comments,
            state,
            i,
        ),
{
    lemma_depth_of_nested(chars, brackets, strings, comments, state, k, i);
    lemma_depth_of_nested(chars, brackets, strings, comments, state, k, j);
    lemma_depth_of_nested(chars, brackets, strings, comments, state, k, j + 1);
    lemma_bracket_step(brackets, chars[i], bracket_state(chars, brackets, strings, comments, state, i), 0);
    lemma_bracket_step(brackets, chars[j], bracket_state(chars, brackets, strings, comments, state, j), 0);
    assert(net_depth(chars, brackets, strings, comments, k, j) > net_depth(
        chars,
        brackets,
        strings,
        comments,
        k,
        i,
    ));
    assert(net_depth(chars, brackets, strings, comments, k, j + 1) == net_depth(
        chars,
        brackets,
        strings,
        comments,
        k,
        j,
    ) - 1);
}

/// The strings of a line that starts in `state`, as the tokenizer finds
/// them.
pub open spec fn line_strings(chars: Seq<char>, state: HighlightState) -> Seq<Token> {
    string_tokens(chars, state.in_string)
}

/// The comments of a line that starts in `state`, as the tokenizer finds
/// them: the block comments and behind them the line comment.
pub open spec fn line_comments(config: LanguageConfig, chars: Seq<char>, state: HighlightState) -> Seq<
    Token,
> {
    let blocks = block_scan(
        chars,
        config.block_comment_start@,
        config.block_comment_end@,
        line_strings(chars, state),
        0,
        state.in_block_comment,
        0,
    ).0;
    blocks + line_comment_tokens(chars, config.line_comment_start@, line_strings(chars, state), blocks)
}

/// The brackets are the last of the tokens of a line: one for each bracket
/// outside the strings and comments of the line, in the class of its depth.
/// The depths behind the line are those behind its last character.
pub proof fn lemma_line_brackets(config: LanguageConfig, chars: Seq<char>, state: HighlightState)
    ensures
        ({
            let found = line_tokens(config, chars, state);
            let strings = line_strings(chars, state);
            let comments = line_comments(config, chars, state);
            let tokens = bracket_tokens(chars, config.brackets@, strings, comments, state, chars.len() as int);
            &&& tokens.len() <= found.0.len()
            &&& found.0.subrange(found.0.len() - tokens.len(), found.0.len() as int) == tokens
            &&& forall|k: int|
                0 <= k < 3 ==> level_of(found.1, k) == #[trigger] depth(
                    chars,
                    config.brackets@,
                    strings,
                    comments,
                    state,
                    k,
                    chars.len() as int,
                )
        }),
{
    let found = line_tokens(config, chars, state);
    let strings = line_strings(chars, state);
    let comments = line_comments(config, chars, state);
    let tokens = bracket_tokens(chars, config.brackets@, strings, comments, state, chars.len() as int);
    lemma_bracket_scan(chars, config.brackets@, strings, comments, state);
    assert(found.0.subrange(found.0.len() - tokens.len(), found.0.len() as int) =~= tokens);
}

/// A line in which the brackets of pair `k` are properly nested, outside its
/// strings and comments, ends as deep in that pair as it starts.
pub proof fn lemma_nested_line_keeps_its_depth(
    config: LanguageConfig,
    chars: Seq<char>,
    state: HighlightState,
    k: int,
)
    requires
        0 <= k < 3,
        properly_nested(
            chars,
            config.brackets@,
            line_strings(chars, state),
            line_comments(config, chars, state),
            k,
            level_of(state, k),
        ),
    ensures
        level_of(line_annotations(config, chars, state).1, k) == level_of(state, k),
{
    lemma_line_brackets(config, chars, state);
    lemma_depth_of_nested(
        chars,
        config.brackets@,
        line_strings(chars, state),
        line_comments(config, chars, state),
        state,
        k,
        chars.len() as int,
    );
    assert(level_of(line_tokens(config, chars, state).1, k) == depth(
        chars,
        config.brackets@,
        line_strings(chars, state),
        line_comments(config, chars, state),
        state,
        k,
        chars.len() as int,
    ));
}

} // verus!
