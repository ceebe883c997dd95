//! The text of the commands that come in on a line.

use vstd::prelude::*;
use vstd::string::*;

verus! {

/// Whether a character is white space, as Unicode defines it.
pub open spec fn is_whitespace(c: char) -> bool {
    let n = c as u32;
    (0x09 <= n <= 0x0D) || n == 0x20 || n == 0x85 || n == 0xA0 || n == 0x1680 || (0x2000 <= n
        <= 0x200A) || n == 0x2028 || n == 0x2029 || n == 0x202F || n == 0x205F || n == 0x3000
}

/// The first position from `i` on, below `hi`, that holds no white space;
/// `hi` where there is none.
pub open spec fn skip_whitespace(s: Seq<char>, i: int, hi: int) -> int
    decreases hi - i,
{
    if i < hi && is_whitespace(s[i]) {
        skip_whitespace(s, i + 1, hi)
    } else {
        i
    }
}

/// The end of the text between `lo` and `i` once the white space at its end
/// is taken off.
pub open spec fn drop_whitespace(s: Seq<char>, lo: int, i: int) -> int
    decreases i - lo,
{
    if lo < i && is_whitespace(s[i - 1]) {
        drop_whitespace(s, lo, i - 1)
    } else {
        i
    }
}

/// Whether `pat` stands in `s` at position `i`, wholly below `hi`.
pub open spec fn stands_at(s: Seq<char>, pat: Seq<char>, i: int, hi: int) -> bool {
    0 <= i && i + pat.len() <= hi && hi <= s.len() && s.subrange(i, i + pat.len()) == pat
}

/// Whether `i` is the first position from `lo` on where `pat` stands in
/// `s`, wholly below `hi`.
pub open spec fn is_first_match(s: Seq<char>, pat: Seq<char>, lo: int, hi: int, i: int) -> bool {
    &&& lo <= i
    &&& stands_at(s, pat, i, hi)
    &&& forall|j: int| lo <= j < i ==> !stands_at(s, pat, j, hi)
}

/// The first position from `lo` on where `pat` stands in `s`, wholly below
/// `hi`.
pub open spec fn first_match(s: Seq<char>, pat: Seq<char>, lo: int, hi: int) -> Option<int> {
    if exists|i: int| is_first_match(s, pat, lo, hi, i) {
        Some(choose|i: int| is_first_match(s, pat, lo, hi, i))
    } else {
        None
    }
}

/// Whether a character ends a value: a comma or a closing brace.
pub open spec fn ends_value(c: char) -> bool {
    c == ',' || c == '}'
}

/// The first position from `i` on, below `hi`, that ends a value; `hi`
/// where there is none.
pub open spec fn value_end(s: Seq<char>, i: int, hi: int) -> int
    decreases hi - i,
{
    if i < hi && !ends_value(s[i]) {
        value_end(s, i + 1, hi)
    } else {
        i
    }
}

/// Where the value of a time scale command stands in a line, as the
/// positions of its first character and of the one after its last.
///
/// The line, with the white space around it taken off, must begin with an
/// opening brace and hold the word `set_time_scale`. The value is what
/// follows the first colon after the first `"time_scale"`, up to the next
/// comma or closing brace or else to the end, without the white space
/// around it. It may be empty.
pub open spec fn time_scale_range(line: Seq<char>) -> Option<(int, int)> {
    let lo = skip_whitespace(line, 0, line.len() as int);
    let hi = drop_whitespace(line, lo, line.len() as int);
    if lo >= hi || line[lo] != '{' {
        None
    } else if first_match(line, "set_time_scale"@, lo, hi).is_none() {
        None
    } else {
        match first_match(line, "\"time_scale\""@, lo, hi) {
            None => None,
            Some(key) => match first_match(line, ":"@, key + "\"time_scale\""@.len(), hi) {
                None => None,
                Some(colon) => {
                    let from = skip_whitespace(line, colon + 1, hi);
                    let to = value_end(line, from, hi);
                    Some((from, drop_whitespace(line, from, to)))
                },
            },
        }
    }
}

fn whitespace(c: char) -> (b: bool)
    ensures
        b == is_whitespace(c),
{
    let n = c as u32;
    (0x09 <= n && n <= 0x0D) || n == 0x20 || n == 0x85 || n == 0xA0 || n == 0x1680 || (0x2000 <= n
        && n <= 0x200A) || n == 0x2028 || n == 0x2029 || n == 0x202F || n == 0x205F || n == 0x3000
}

/// The characters of a text.
fn characters(text: &str) -> (chars: Vec<char>)
    ensures
        chars@ == text@,
{
    let mut chars: Vec<char> = Vec::new();
    for c in it: text.chars()
        invariant
            it.seq() == text@,
            chars@ == it.seq().take(it.index() as int),
    {
        chars.push(c);
        assert(chars@ =~= it.seq().take(it.index() + 1));
    }
    assert(text@.take(text@.len() as int) =~= text@);
    chars
}

fn skip(s: &Vec<char>, from: usize, hi: usize) -> (i: usize)
    requires
        from <= hi <= s@.len(),
    ensures
        i == skip_whitespace(s@, from as int, hi as int),
        from <= i <= hi,
{
    let mut i = from;
    while i < hi && whitespace(s[i])
        invariant
            from <= i <= hi <= s@.len(),
            skip_whitespace(s@, i as int, hi as int) == skip_whitespace(s@, from as int, hi as int),
        decreases hi - i,
    {
        i += 1;
    }
    i
}

fn drop_back(s: &Vec<char>, lo: usize, from: usize) -> (i: usize)
    requires
        lo <= from <= s@.len(),
    ensures
        i == drop_whitespace(s@, lo as int, from as int),
        lo <= i <= from,
{
    let mut i = from;
    while lo < i && whitespace(s[i - 1])
        invariant
            lo <= i <= from <= s@.len(),
            drop_whitespace(s@, lo as int, i as int) == drop_whitespace(
                s@,
                lo as int,
                from as int,
            ),
        decreases i - lo,
    {
        i -= 1;
    }
    i
}

fn scan_value(s: &Vec<char>, from: usize, hi: usize) -> (i: usize)
    requires
        from <= hi <= s@.len(),
    ensures
        i == value_end(s@, from as int, hi as int),
        from <= i <= hi,
{
    let mut i = from;
    while i < hi && s[i] != ',' && s[i] != '}'
        invariant
            from <= i <= hi <= s@.len(),
            value_end(s@, i as int, hi as int) == value_end(s@, from as int, hi as int),
        decreases hi - i,
    {
        i += 1;
    }
    i
}

fn matches_at(s: &Vec<char>, pat: &Vec<char>, i: usize, hi: usize) -> (b: bool)
    requires
        hi <= s@.len(),
    ensures
        b == stands_at(s@, pat@, i as int, hi as int),
{
    let m = pat.len();
    if m > hi || i > hi - m {
        return false;
    }
    let mut k: usize = 0;
    while k < m
        invariant
            k <= m,
            m == pat@.len(),
            i + m <= hi <= s@.len(),
            forall|j: int| 0 <= j < k ==> s@[i + j] == pat@[j],
        decreases m - k,
    {
        if s[i + k] != pat[k] {
            assert(s@.subrange(i as int, i + m)[k as int] != pat@[k as int]);
            return false;
        }
        k += 1;
    }
    assert(s@.subrange(i as int, i + m) =~= pat@);
    true
}

proof fn lemma_first_match_is(s: Seq<char>, pat: Seq<char>, lo: int, hi: int, i: int)
    requires
        is_first_match(s, pat, lo, hi, i),
    ensures
        first_match(s, pat, lo, hi) == Some(i),
{
    let k = choose|k: int| is_first_match(s, pat, lo, hi, k);
    if k < i {
        assert(!stands_at(s, pat, k, hi));
    } else if i < k {
        assert(!stands_at(s, pat, i, hi));
    }
}

fn find(s: &Vec<char>, pat: &Vec<char>, lo: usize, hi: usize) -> (found: Option<usize>)
    requires
        hi <= s@.len(),
    ensures
        match found {
            Some(i) => first_match(s@, pat@, lo as int, hi as int) == Some(i as int) && lo <= i
                && i + pat@.len() <= hi,
            None => first_match(s@, pat@, lo as int, hi as int).is_none(),
        },
{
    let mut i = lo;
    while i < hi
        invariant
            lo <= i,
            hi <= s@.len(),
            forall|j: int| lo <= j < i ==> !stands_at(s@, pat@, j, hi as int),
        decreases hi - i,
    {
        if matches_at(s, pat, i, hi) {
            proof {
                lemma_first_match_is(s@, pat@, lo as int, hi as int, i as int);
            }
            return Some(i);
        }
        i += 1;
    }
    if lo <= hi && matches_at(s, pat, hi, hi) {
        // only the empty text stands at the very end
        proof {
            lemma_first_match_is(s@, pat@, lo as int, hi as int, hi as int);
        }
        return Some(hi);
    }
    assert forall|j: int| !is_first_match(s@, pat@, lo as int, hi as int, j) by {
        if lo <= j && stands_at(s@, pat@, j, hi as int) {
            assert(j <= hi);
        }
    }
    None
}

/// The value of a time scale command, as it stands in the line; `None`
/// where the line is no such command.
pub fn time_scale_text(line: &str) -> (value: Option<&str>)
    ensures
        match value {
            Some(text) => time_scale_range(line@) matches Some((from, to)) && 0 <= from <= to
                <= line@.len() && text@ == line@.subrange(from, to),
            None => time_scale_range(line@).is_none(),
        },
{
    let s = characters(line);
    let n = s.len();
    let lo = skip(&s, 0, n);
    let hi = drop_back(&s, lo, n);
    if lo >= hi || s[lo] != '{' {
        return None;
    }
    let word = characters("set_time_scale");
    if find(&s, &word, lo, hi).is_none() {
        return None;
    }
    let key_word = characters("\"time_scale\"");
    let key = match find(&s, &key_word, lo, hi) {
        Some(key) => key,
        None => {
            return None;
        },
    };
    let colon_word = characters(":");
    let colon = match find(&s, &colon_word, key + key_word.len(), hi) {
        Some(colon) => colon,
        None => {
            return None;
        },
    };
    proof {
        reveal_strlit(":");
    }
    let from = skip(&s, colon + 1, hi);
    let to = scan_value(&s, from, hi);
    let end = drop_back(&s, from, to);
    Some(line.substring_char(from, end))
}

} // verus!
