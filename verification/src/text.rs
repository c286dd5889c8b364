use vstd::prelude::*;

verus! {

// ---------------------------------------------------------------------------
// Decimal formatting
// ---------------------------------------------------------------------------

/// The character for one decimal digit.
pub open spec fn spec_digit_char(d: int) -> char {
    if d == 0 {
        '0'
    } else if d == 1 {
        '1'
    } else if d == 2 {
        '2'
    } else if d == 3 {
        '3'
    } else if d == 4 {
        '4'
    } else if d == 5 {
        '5'
    } else if d == 6 {
        '6'
    } else if d == 7 {
        '7'
    } else if d == 8 {
        '8'
    } else {
        '9'
    }
}

/// The usual decimal rendering of a natural number, most significant digit
/// first, with no leading zeros (except for the number 0 itself).
pub open spec fn spec_dec(n: nat) -> Seq<char>
    decreases n,
{
    if n < 10 {
        seq![spec_digit_char(n as int)]
    } else {
        spec_dec(n / 10).push(spec_digit_char((n % 10) as int))
    }
}

fn digit_str(d: u64) -> (r: &'static str)
    requires
        d < 10,
    ensures
        r@ =~= seq![spec_digit_char(d as int)],
{
    proof {
        reveal_strlit("0");
        reveal_strlit("1");
        reveal_strlit("2");
        reveal_strlit("3");
        reveal_strlit("4");
        reveal_strlit("5");
        reveal_strlit("6");
        reveal_strlit("7");
        reveal_strlit("8");
        reveal_strlit("9");
    }
    match d {
        0 => "0",
        1 => "1",
        2 => "2",
        3 => "3",
        4 => "4",
        5 => "5",
        6 => "6",
        7 => "7",
        8 => "8",
        _ => "9",
    }
}

/// Renders `n` in decimal.
pub fn dec_u64(n: u64) -> (r: String)
    ensures
        r@ == spec_dec(n as nat),
    decreases n,
{
    if n < 10 {
        let mut s = String::new();
        s.append(digit_str(n));
        proof {
            assert(s@ =~= spec_dec(n as nat));
        }
        s
    } else {
        let mut s = dec_u64(n / 10);
        s.append(digit_str(n % 10));
        proof {
            assert(s@ =~= spec_dec(n as nat));
        }
        s
    }
}

// ---------------------------------------------------------------------------
// Splitting on ASCII whitespace
// ---------------------------------------------------------------------------

/// The five ASCII whitespace characters, as `char::is_ascii_whitespace` has
/// them.
pub open spec fn is_ascii_space(c: char) -> bool {
    c == ' ' || c == '\t' || c == '\n' || c == '\r' || c == '\u{c}'
}

/// Index of the first whitespace character at or after `i`, or the length of
/// the sequence when the word runs to its end.
pub open spec fn word_end(s: Seq<char>, i: int) -> int
    decreases s.len() - i,
{
    if i < 0 || i >= s.len() || is_ascii_space(s[i]) {
        i
    } else {
        word_end(s, i + 1)
    }
}

/// The whitespace-separated words of `s` from index `i` on.
pub open spec fn spec_split_ws_from(s: Seq<char>, i: int) -> Seq<Seq<char>>
    decreases s.len() - i, 1int,
{
    if i < 0 || i >= s.len() {
        Seq::empty()
    } else if is_ascii_space(s[i]) {
        spec_split_ws_from(s, i + 1)
    } else {
        spec_split_ws_word(s, i)
    }
}

pub open spec fn spec_split_ws_word(s: Seq<char>, i: int) -> Seq<Seq<char>>
    decreases s.len() - i, 0int,
    via spec_split_ws_word_decreases
{
    if 0 <= i < s.len() && !is_ascii_space(s[i]) {
        seq![s.subrange(i, word_end(s, i))] + spec_split_ws_from(s, word_end(s, i))
    } else {
        Seq::empty()
    }
}

#[via_fn]
proof fn spec_split_ws_word_decreases(s: Seq<char>, i: int) {
    if 0 <= i < s.len() && !is_ascii_space(s[i]) {
        lemma_word_end_bounds(s, i + 1);
        assert(word_end(s, i) == word_end(s, i + 1));
    }
}

/// The whitespace-separated words of `s`, each one nonempty, in order.
pub open spec fn spec_split_ws(s: Seq<char>) -> Seq<Seq<char>> {
    spec_split_ws_from(s, 0)
}

proof fn lemma_word_end_bounds(s: Seq<char>, i: int)
    requires
        0 <= i <= s.len(),
    ensures
        i <= word_end(s, i) <= s.len(),
        forall|k: int| i <= k < word_end(s, i) ==> !is_ascii_space(s[k]),
        word_end(s, i) < s.len() ==> is_ascii_space(s[word_end(s, i)]),
    decreases s.len() - i,
{
    if i < s.len() && !is_ascii_space(s[i]) {
        lemma_word_end_bounds(s, i + 1);
    }
}

fn is_space_char(c: char) -> (r: bool)
    ensures
        r == is_ascii_space(c),
{
    c == ' ' || c == '\t' || c == '\n' || c == '\r' || c == '\u{c}'
}

fn find_word_end(s: &str, i: usize) -> (r: usize)
    requires
        i <= s@.len(),
    ensures
        r == word_end(s@, i as int),
        i <= r <= s@.len(),
    decreases s@.len() - i,
{
    proof {
        lemma_word_end_bounds(s@, i as int);
    }
    if i == s.unicode_len() {
        i
    } else {
        let c = s.get_char(i);
        if is_space_char(c) {
            i
        } else {
            find_word_end(s, i + 1)
        }
    }
}

fn split_ws_from(s: &str, i: usize) -> (r: Vec<String>)
    requires
        i <= s@.len(),
    ensures
        r.deep_view() == spec_split_ws_from(s@, i as int),
    decreases s@.len() - i,
{
    if i == s.unicode_len() {
        let r: Vec<String> = Vec::new();
        proof {
            assert(r.deep_view() =~~= spec_split_ws_from(s@, i as int));
        }
        r
    } else {
        let c = s.get_char(i);
        if is_space_char(c) {
            split_ws_from(s, i + 1)
        } else {
            proof {
                lemma_word_end_bounds(s@, i as int);
            }
            let j = find_word_end(s, i);
            let word = s.substring_char(i, j).to_owned();
            let mut rest = split_ws_from(s, j);
            let ghost rest_view = rest.deep_view();
            let mut r: Vec<String> = Vec::new();
            r.push(word);
            r.append(&mut rest);
            proof {
                assert(r.deep_view() =~~= seq![s@.subrange(i as int, j as int)] + rest_view);
                assert(spec_split_ws_from(s@, i as int) == spec_split_ws_word(s@, i as int));
                assert(spec_split_ws_word(s@, i as int) == seq![
                    s@.subrange(i as int, word_end(s@, i as int)),
                ] + spec_split_ws_from(s@, word_end(s@, i as int)));
                assert(r.deep_view() =~~= spec_split_ws_from(s@, i as int));
            }
            r
        }
    }
}

/// Splits `s` on runs of ASCII whitespace, as the words of a command line.
pub fn split_ascii_ws(s: &str) -> (r: Vec<String>)
    ensures
        r.deep_view() == spec_split_ws(s@),
{
    split_ws_from(s, 0)
}

/// Every entry a whitespace split produces is nonempty and free of
/// whitespace: leading, trailing or repeated separators add no entries.
pub proof fn lemma_split_ws_entries(s: Seq<char>)
    ensures
        forall|k: int|
            0 <= k < spec_split_ws(s).len() ==> (#[trigger] spec_split_ws(s)[k]).len() > 0,
        forall|k: int, m: int|
            0 <= k < spec_split_ws(s).len() && 0 <= m < spec_split_ws(s)[k].len()
                ==> !is_ascii_space(#[trigger] spec_split_ws(s)[k][m]),
{
    lemma_split_ws_from_entries(s, 0);
}

proof fn lemma_split_ws_from_entries(s: Seq<char>, i: int)
    requires
        0 <= i <= s.len(),
    ensures
        forall|k: int|
            0 <= k < spec_split_ws_from(s, i).len()
                ==> (#[trigger] spec_split_ws_from(s, i)[k]).len() > 0,
        forall|k: int, m: int|
            0 <= k < spec_split_ws_from(s, i).len() && 0 <= m < spec_split_ws_from(s, i)[k].len()
                ==> !is_ascii_space(#[trigger] spec_split_ws_from(s, i)[k][m]),
    decreases s.len() - i,
{
    if i >= s.len() {
    } else if is_ascii_space(s[i]) {
        lemma_split_ws_from_entries(s, i + 1);
        assert(spec_split_ws_from(s, i) == spec_split_ws_from(s, i + 1));
    } else {
        lemma_word_end_bounds(s, i + 1);
        assert(word_end(s, i) == word_end(s, i + 1));
        let we = word_end(s, i);
        lemma_word_end_bounds(s, i);
        lemma_split_ws_from_entries(s, we);
        let r = spec_split_ws_from(s, i);
        assert(spec_split_ws_from(s, i) == spec_split_ws_word(s, i));
        assert(spec_split_ws_word(s, i) == seq![s.subrange(i, word_end(s, i))]
            + spec_split_ws_from(s, word_end(s, i)));
        assert(r == seq![s.subrange(i, we)] + spec_split_ws_from(s, we));
        assert forall|k: int| 0 <= k < r.len() implies (#[trigger] r[k]).len() > 0 by {
            if k == 0 {
                assert(r[0] == s.subrange(i, we));
            } else {
                assert(r[k] == spec_split_ws_from(s, we)[k - 1]);
            }
        }
        assert forall|k: int, m: int|
            0 <= k < r.len() && 0 <= m < r[k].len() implies !is_ascii_space(
            #[trigger] r[k][m],
        ) by {
            if k == 0 {
                assert(r[0] == s.subrange(i, we));
                assert(s.subrange(i, we)[m] == s[i + m]);
            } else {
                assert(r[k] == spec_split_ws_from(s, we)[k - 1]);
            }
        }
    }
}

} // verus!
