//! Character-sequence helpers shared by the display code.

use vstd::prelude::*;

verus! {

broadcast use vstd::string::group_string_axioms;

/// Appends one character to a `String`.
///
/// Trusted: wraps `String::push`; its contract claims only that the
/// character sequence of the string grows by that one character at the end,
/// as the standard library documents.
#[verifier::external_body]
pub(crate) fn string_push(s: &mut String, c: char)
    ensures
        final(s)@ == old(s)@.push(c),
{
    s.push(c);
}

/// The characters of `s`, in order.
pub fn chars_of(s: &str) -> (v: Vec<char>)
    ensures
        v@ == s@,
{
    let mut v: Vec<char> = Vec::new();
    for c in it: s.chars()
        invariant
            v@ == it.seq().take(it.index()),
            it.seq() == s@,
    {
        v.push(c);
    }
    v
}

/// A `String` holding exactly the characters of `v`.
pub fn string_from_chars(v: &Vec<char>) -> (s: String)
    ensures
        s@ == v@,
{
    let mut s = String::new();
    let mut i: usize = 0;
    while i < v.len()
        invariant
            i <= v.len(),
            s@ == v@.take(i as int),
        decreases v.len() - i,
    {
        string_push(&mut s, v[i]);
        assert(v@.take(i as int).push(v@[i as int]) =~= v@.take(i + 1));
        i = i + 1;
    }
    assert(v@.take(v.len() as int) =~= v@);
    s
}

} // verus!

verus! {

/// The decimal digit character for `d` (taken modulo ten).
pub open spec fn digit_char_spec(d: nat) -> char {
    let d = d % 10;
    if d == 0 {
        '0'
    } else if d == 1 {
        '1'
    } else if d == 2 {
        '2'
    } else if d == 3 {
        '3'
    } else if d == 4 {
        '4'
    } else if d == 5 {
        '5'
    } else if d == 6 {
        '6'
    } else if d == 7 {
        '7'
    } else if d == 8 {
        '8'
    } else {
        '9'
    }
}

/// The value of an ASCII decimal digit character.
pub open spec fn digit_value(c: char) -> nat {
    (c as u32 - '0' as u32) as nat
}

/// `c` is one of `'0'` ..= `'9'`.
pub open spec fn is_digit(c: char) -> bool {
    '0' <= c <= '9'
}

/// The decimal representation of `n`, without sign or leading zeros.
pub open spec fn decimal(n: nat) -> Seq<char>
    decreases n,
{
    if n < 10 {
        seq![digit_char_spec(n)]
    } else {
        decimal(n / 10).push(digit_char_spec(n % 10))
    }
}

fn digit_char(d: u64) -> (c: char)
    requires
        d < 10,
    ensures
        c == digit_char_spec(d as nat),
{
    match d {
        0 => '0',
        1 => '1',
        2 => '2',
        3 => '3',
        4 => '4',
        5 => '5',
        6 => '6',
        7 => '7',
        8 => '8',
        _ => '9',
    }
}

/// The decimal representation of `n`, as characters.
pub fn decimal_chars(n: u64) -> (v: Vec<char>)
    ensures
        v@ == decimal(n as nat),
{
    // Digits are produced least significant first, then reversed.
    let mut rev: Vec<char> = Vec::new();
    let mut m: u64 = n;
    while m >= 10
        invariant
            decimal(n as nat) == decimal(m as nat) + rev@.reverse(),
        decreases m,
    {
        let ghost before = rev@;
        rev.push(digit_char(m % 10));
        assert(decimal(m as nat) == decimal((m / 10) as nat).push(digit_char_spec((m % 10) as nat)));
        assert(rev@.reverse() =~= seq![digit_char_spec((m % 10) as nat)] + before.reverse());
        assert(decimal((m / 10) as nat) + rev@.reverse() =~= decimal(m as nat) + before.reverse());
        m = m / 10;
    }
    rev.push(digit_char(m));
    let ghost all = rev@;
    assert(all.reverse() =~= decimal(m as nat) + all.drop_last().reverse());
    let mut out: Vec<char> = Vec::new();
    let mut i: usize = rev.len();
    while i > 0
        invariant
            i <= rev.len(),
            rev@ == all,
            out@ =~= all.reverse().take((all.len() - i) as int),
        decreases i,
    {
        i = i - 1;
        out.push(rev[i]);
        assert(all.reverse().take((all.len() - i) as int) =~= all.reverse().take(
            (all.len() - i - 1) as int,
        ).push(all[i as int]));
    }
    assert(all.reverse().take(all.len() as int) =~= all.reverse());
    out
}

/// The decimal representation of `n`.
pub fn decimal_string(n: u64) -> (s: String)
    ensures
        s@ == decimal(n as nat),
{
    let v = decimal_chars(n);
    string_from_chars(&v)
}

/// Unicode general category `Cc`: the C0 and C1 control codes and DEL.
pub open spec fn is_control_spec(c: char) -> bool {
    (c as u32) < 0x20 || (0x7f <= (c as u32) && (c as u32) < 0xa0)
}

/// Whether `c` is a control character (general category `Cc`).
pub fn is_control(c: char) -> (b: bool)
    ensures
        b == is_control_spec(c),
{
    let u = c as u32;
    u < 0x20 || (0x7f <= u && u < 0xa0)
}

/// The Unicode `White_Space` property.
pub open spec fn is_whitespace_spec(c: char) -> bool {
    let u = c as u32;
    (0x09 <= u && u <= 0x0d) || u == 0x20 || u == 0x85 || u == 0xa0 || u == 0x1680 || (0x2000 <= u
        && u <= 0x200a) || u == 0x2028 || u == 0x2029 || u == 0x202f || u == 0x205f || u == 0x3000
}

/// Whether `c` has the Unicode `White_Space` property.
pub fn is_whitespace(c: char) -> (b: bool)
    ensures
        b == is_whitespace_spec(c),
{
    let u = c as u32;
    (0x09 <= u && u <= 0x0d) || u == 0x20 || u == 0x85 || u == 0xa0 || u == 0x1680 || (0x2000 <= u
        && u <= 0x200a) || u == 0x2028 || u == 0x2029 || u == 0x202f || u == 0x205f || u == 0x3000
}

/// `s` without its leading whitespace.
pub open spec fn trim_start_spec(s: Seq<char>) -> Seq<char>
    decreases s.len(),
{
    if s.len() > 0 && is_whitespace_spec(s[0]) {
        trim_start_spec(s.drop_first())
    } else {
        s
    }
}

/// `s` without its trailing whitespace.
pub open spec fn trim_end_spec(s: Seq<char>) -> Seq<char>
    decreases s.len(),
{
    if s.len() > 0 && is_whitespace_spec(s.last()) {
        trim_end_spec(s.drop_last())
    } else {
        s
    }
}

/// `s` without leading and trailing whitespace.
pub open spec fn trim_spec(s: Seq<char>) -> Seq<char> {
    trim_end_spec(trim_start_spec(s))
}

/// The characters of `s` without leading and trailing whitespace.
pub fn trim_chars(s: &Vec<char>) -> (t: Vec<char>)
    ensures
        t@ == trim_spec(s@),
{
    let mut lo: usize = 0;
    assert(s@.skip(0) =~= s@);
    while lo < s.len() && is_whitespace(s[lo])
        invariant
            lo <= s.len(),
            trim_start_spec(s@) == trim_start_spec(s@.skip(lo as int)),
        decreases s.len() - lo,
    {
        assert(s@.skip(lo as int).drop_first() =~= s@.skip(lo + 1));
        lo = lo + 1;
    }
    assert(trim_start_spec(s@.skip(lo as int)) == s@.skip(lo as int));
    let mut hi: usize = s.len();
    while hi > lo && is_whitespace(s[hi - 1])
        invariant
            lo <= hi <= s.len(),
            trim_spec(s@) == trim_end_spec(s@.subrange(lo as int, hi as int)),
        decreases hi,
    {
        assert(s@.subrange(lo as int, hi as int).drop_last() =~= s@.subrange(
            lo as int,
            hi - 1,
        ));
        hi = hi - 1;
    }
    let mut t: Vec<char> = Vec::new();
    let mut i: usize = lo;
    while i < hi
        invariant
            lo <= i <= hi,
            hi <= s.len(),
            t@ =~= s@.subrange(lo as int, i as int),
        decreases hi - i,
    {
        t.push(s[i]);
        i = i + 1;
    }
    t
}

/// The value of a run of decimal digits, most significant first.
pub open spec fn digits_value(d: Seq<char>) -> nat
    decreases d.len(),
{
    if d.len() == 0 {
        0
    } else {
        digits_value(d.drop_last()) * 10 + digit_value(d.last())
    }
}

/// `s` without one leading `+`, if it has one.
pub open spec fn without_plus(s: Seq<char>) -> Seq<char> {
    if s.len() > 0 && s[0] == '+' {
        s.drop_first()
    } else {
        s
    }
}

/// Every character of `d` is an ASCII digit.
pub open spec fn all_digits(d: Seq<char>) -> bool {
    forall|i: int| 0 <= i < d.len() ==> is_digit(#[trigger] d[i])
}

/// What `str::parse::<usize>` yields for `s`: an optional single `+`, then
/// one or more ASCII digits whose value fits in a `usize`.
pub open spec fn parse_usize_spec(s: Seq<char>) -> Option<nat> {
    let digits = without_plus(s);
    if digits.len() == 0 {
        None
    } else if !all_digits(digits) {
        None
    } else if digits_value(digits) > usize::MAX {
        None
    } else {
        Some(digits_value(digits))
    }
}

proof fn lemma_digits_value_grows(d: Seq<char>, i: int)
    requires
        0 <= i <= d.len(),
    ensures
        digits_value(d.take(i)) <= digits_value(d),
    decreases d.len() - i,
{
    if i < d.len() {
        lemma_digits_value_grows(d, i + 1);
        assert(d.take(i + 1).drop_last() =~= d.take(i));
    } else {
        assert(d.take(i) =~= d);
    }
}

/// Reads `s` as an unsigned decimal number in the way `str::parse::<usize>`
/// does.
pub fn parse_usize(s: &Vec<char>) -> (r: Option<usize>)
    ensures
        r matches Some(v) ==> parse_usize_spec(s@) == Some(v as nat),
        r is None ==> parse_usize_spec(s@) is None,
{
    let start: usize = if s.len() > 0 && s[0] == '+' { 1 } else { 0 };
    let ghost digits = s@.skip(start as int);
    assert(digits =~= without_plus(s@));
    if start == s.len() {
        return None;
    }
    let mut v: usize = 0;
    let mut i: usize = start;
    while i < s.len()
        invariant
            start <= i <= s.len(),
            start < s.len(),
            digits == s@.skip(start as int),
            digits == without_plus(s@),
            forall|k: int| 0 <= k < i - start ==> is_digit(#[trigger] digits[k]),
            v as nat == digits_value(digits.take(i - start)),
        decreases s.len() - i,
    {
        let c = s[i];
        if !('0' <= c && c <= '9') {
            assert(digits[i - start] == c);
            assert(!is_digit(digits[i - start]));
            assert(0 <= i - start < digits.len());
            return None;
        }
        let d: usize = (c as u32 - '0' as u32) as usize;
        assert(digits.take(i + 1 - start).drop_last() =~= digits.take(i - start));
        if v > (usize::MAX - d) / 10 {
            proof {
                assert(digits_value(digits.take(i + 1 - start)) > usize::MAX) by (nonlinear_arith)
                    requires
                        digits_value(digits.take(i + 1 - start)) == v * 10 + d,
                        v > (usize::MAX - d) / 10,
                        d <= 9,
                ;
                lemma_digits_value_grows(digits, i + 1 - start);
            }
            return None;
        }
        v = v * 10 + d;
        i = i + 1;
    }
    assert(digits.take(digits.len() as int) =~= digits);
    Some(v)
}

} // verus!

verus! {

/// `s` cut to at most `max` characters: a longer string keeps its first
/// `max - 1` characters (none when `max` is zero) followed by an ellipsis.
pub open spec fn truncate_spec(s: Seq<char>, max: nat) -> Seq<char> {
    if s.len() > max {
        s.take(if max >= 1 { max - 1 } else { 0 }).push('…')
    } else {
        s
    }
}

/// Cuts `s` to at most `max` characters, marking a cut with `…`.
pub fn truncate_to(s: String, max: usize) -> (r: String)
    ensures
        r@ == truncate_spec(s@, max as nat),
{
    let chars = chars_of(s.as_str());
    if chars.len() > max {
        let keep: usize = if max >= 1 { max - 1 } else { 0 };
        let mut out = String::new();
        let mut i: usize = 0;
        while i < keep
            invariant
                keep <= chars.len(),
                i <= keep,
                out@ =~= chars@.take(i as int),
            decreases keep - i,
        {
            string_push(&mut out, chars[i]);
            i = i + 1;
        }
        string_push(&mut out, '…');
        out
    } else {
        s
    }
}

/// What one backslash escape stands for: `\n`, `\t`, `\\` and `\"` are
/// decoded; any other escaped character keeps its backslash.
pub open spec fn escape_pair(c: char) -> Seq<char> {
    if c == 'n' {
        seq!['\n']
    } else if c == 't' {
        seq!['\t']
    } else if c == '\\' {
        seq!['\\']
    } else if c == '"' {
        seq!['"']
    } else {
        seq!['\\', c]
    }
}

/// `s` with its backslash escapes decoded, left to right; a lone trailing
/// backslash stays as it is.
pub open spec fn unescape(s: Seq<char>) -> Seq<char>
    decreases s.len(),
{
    if s.len() == 0 {
        seq![]
    } else if s[0] == '\\' {
        if s.len() == 1 {
            seq!['\\']
        } else {
            escape_pair(s[1]) + unescape(s.skip(2))
        }
    } else {
        seq![s[0]] + unescape(s.drop_first())
    }
}

/// A printed Lisp string (`"..."`) decoded back to its contents; anything
/// not wrapped in double quotes is returned as it is.
pub open spec fn unquote_spec(s: Seq<char>) -> Seq<char> {
    if s.len() >= 2 && s[0] == '"' && s.last() == '"' {
        unescape(s.subrange(1, s.len() - 1))
    } else {
        s
    }
}

/// Decodes the printed form of a Lisp string: strips the surrounding
/// double quotes and resolves `\n`, `\t`, `\\` and `\"`.  Text that is not
/// quoted (such as an `ERR ...` diagnostic) passes through unchanged.
pub fn unquote_printed(s: &str) -> (r: String)
    ensures
        r@ == unquote_spec(s@),
{
    let chars = chars_of(s);
    let n = chars.len();
    if !(n >= 2 && chars[0] == '"' && chars[n - 1] == '"') {
        return s.to_owned();
    }
    let ghost inner = chars@.subrange(1, n - 1);
    let mut out = String::new();
    let mut i: usize = 1;
    assert(inner.skip(0) =~= inner);
    while i < n - 1
        invariant
            n == chars@.len(),
            n >= 2,
            inner == chars@.subrange(1, n - 1),
            1 <= i <= n - 1,
            out@ + unescape(inner.skip(i - 1)) == unescape(inner),
        decreases n - i,
    {
        let ghost rest = inner.skip(i - 1);
        let c = chars[i];
        assert(rest[0] == c);
        if c == '\\' {
            if i + 1 < n - 1 {
                let e = chars[i + 1];
                assert(rest[1] == e);
                assert(rest.skip(2) =~= inner.skip(i + 1));
                if e == 'n' {
                    string_push(&mut out, '\n');
                } else if e == 't' {
                    string_push(&mut out, '\t');
                } else if e == '\\' {
                    string_push(&mut out, '\\');
                } else if e == '"' {
                    string_push(&mut out, '"');
                } else {
                    string_push(&mut out, '\\');
                    string_push(&mut out, e);
                }
                assert(out@ + unescape(inner.skip(i + 1)) =~= unescape(inner));
                i = i + 2;
            } else {
                string_push(&mut out, '\\');
                assert(inner.skip(i as int) =~= Seq::<char>::empty());
                assert(out@ + unescape(inner.skip(i as int)) =~= unescape(inner));
                i = i + 1;
            }
        } else {
            string_push(&mut out, c);
            assert(rest.drop_first() =~= inner.skip(i as int));
            assert(out@ + unescape(inner.skip(i as int)) =~= unescape(inner));
            i = i + 1;
        }
    }
    assert(inner.skip(n - 2) =~= Seq::<char>::empty());
    assert(out@ =~= unescape(inner));
    out
}

/// The (row, column) reached after walking `s` from (0, 0): a newline moves
/// to the start of the next row, any other character one column right.
pub open spec fn row_col_after(s: Seq<char>) -> (nat, nat)
    decreases s.len(),
{
    if s.len() == 0 {
        (0, 0)
    } else {
        let (r, c) = row_col_after(s.drop_last());
        if s.last() == '\n' {
            (r + 1, 0)
        } else {
            (r, c + 1)
        }
    }
}

/// Where 1-based buffer position `point` falls in `buffer`, as a 0-based
/// (row, column) relative to the start of the text.
pub open spec fn point_row_col(buffer: Seq<char>, point: nat) -> (nat, nat) {
    let target: nat = if point >= 1 { (point - 1) as nat } else { 0 };
    row_col_after(buffer.take(if target < buffer.len() { target as int } else { buffer.len() as int }))
}

/// Walks `buffer` to the 1-based position `point` and returns the 0-based
/// (row, column) it lands on.
pub fn point_to_row_col(buffer: &str, point: usize) -> (rc: (usize, usize))
    ensures
        rc.0 as nat == point_row_col(buffer@, point as nat).0,
        rc.1 as nat == point_row_col(buffer@, point as nat).1,
{
    let chars = chars_of(buffer);
    let target: usize = if point >= 1 { point - 1 } else { 0 };
    let limit: usize = if target < chars.len() { target } else { chars.len() };
    let mut row: usize = 0;
    let mut col: usize = 0;
    let mut i: usize = 0;
    while i < limit
        invariant
            limit <= chars.len(),
            i <= limit,
            row <= i,
            col <= i,
            (row as nat, col as nat) == row_col_after(chars@.take(i as int)),
        decreases limit - i,
    {
        assert(chars@.take(i + 1).drop_last() =~= chars@.take(i as int));
        if chars[i] == '\n' {
            row = row + 1;
            col = 0;
        } else {
            col = col + 1;
        }
        i = i + 1;
    }
    (row, col)
}

} // verus!

verus! {

/// `s` cut after each newline, the newline kept with the piece it ends
/// (the pieces `split_inclusive('\n')` yields, in order).
pub open spec fn segments(s: Seq<char>) -> Seq<Seq<char>>
    decreases s.len(),
{
    if s.len() == 0 {
        seq![]
    } else {
        let p = segments(s.drop_last());
        if p.len() == 0 || p.last().last() == '\n' {
            p.push(seq![s.last()])
        } else {
            p.update(p.len() - 1, p.last().push(s.last()))
        }
    }
}

/// A piece of text with its line ending removed: a final `\n`, and then a
/// `\r` just before it.
pub open spec fn strip_line_end(seg: Seq<char>) -> Seq<char> {
    if seg.len() > 0 && seg.last() == '\n' {
        let t = seg.drop_last();
        if t.len() > 0 && t.last() == '\r' {
            t.drop_last()
        } else {
            t
        }
    } else {
        seg
    }
}

/// The lines of `s` as `str::lines` yields them: split at `\n` or `\r\n`,
/// with no empty line after a final line ending.
pub open spec fn lines_spec(s: Seq<char>) -> Seq<Seq<char>> {
    segments(s).map_values(|seg: Seq<char>| strip_line_end(seg))
}

/// The lines of `chars`, as `str::lines` splits them.
pub fn text_lines(chars: &Vec<char>) -> (out: Vec<Vec<char>>)
    ensures
        out@.len() == lines_spec(chars@).len(),
        forall|k: int| 0 <= k < out@.len() ==> #[trigger] out@[k]@ == lines_spec(chars@)[k],
{
    let mut out: Vec<Vec<char>> = Vec::new();
    let mut cur: Vec<char> = Vec::new();
    let ghost mut done: Seq<Seq<char>> = seq![];
    let mut i: usize = 0;
    while i < chars.len()
        invariant
            i <= chars.len(),
            segments(chars@.take(i as int)) == (if cur@.len() > 0 {
                done.push(cur@)
            } else {
                done
            }),
            forall|k: int| 0 <= k < done.len() ==> (#[trigger] done[k]).len() > 0 && done[k].last() == '\n',
            out@.len() == done.len(),
            forall|k: int| 0 <= k < done.len() ==> #[trigger] out@[k]@ == strip_line_end(done[k]),
            cur@.len() > 0 ==> cur@.last() != '\n',
        decreases chars.len() - i,
    {
        let c = chars[i];
        assert(chars@.take(i + 1).drop_last() =~= chars@.take(i as int));
        let ghost prev = segments(chars@.take(i as int));
        if c == '\n' {
            let ghost seg = cur@.push('\n');
            assert(chars@.take(i + 1).last() == c);
            assert(segments(chars@.take(i + 1)) =~~= done.push(seg)) by {
                if cur@.len() == 0 {
                    assert(prev == done);
                } else {
                    assert(prev == done.push(cur@));
                }
            }
            // The finished line, without its `\n` and any `\r` before it.
            let mut line = cur;
            if line.len() > 0 && line[line.len() - 1] == '\r' {
                line.pop();
            }
            assert(seg.drop_last() =~= cur@);
            out.push(line);
            proof {
                done = done.push(seg);
            }
            cur = Vec::new();
        } else {
            assert(chars@.take(i + 1).last() == c);
            assert(segments(chars@.take(i + 1)) =~~= done.push(cur@.push(c))) by {
                if cur@.len() == 0 {
                    assert(prev == done);
                } else {
                    assert(prev == done.push(cur@));
                }
            }
            cur.push(c);
        }
        i = i + 1;
    }
    assert(chars@.take(chars.len() as int) =~= chars@);
    if cur.len() > 0 {
        out.push(cur);
        proof {
            done = done.push(cur@);
        }
    }
    assert(segments(chars@) == done);
    out
}

} // verus!

verus! {

/// `s` begins with `p`.
pub open spec fn starts_with_spec(s: Seq<char>, p: Seq<char>) -> bool {
    s.len() >= p.len() && s.take(p.len() as int) == p
}

/// Whether the characters `s` begin with `p`.
pub fn starts_with(s: &Vec<char>, p: &str) -> (b: bool)
    ensures
        b == starts_with_spec(s@, p@),
{
    let pc = chars_of(p);
    if s.len() < pc.len() {
        return false;
    }
    let mut i: usize = 0;
    while i < pc.len()
        invariant
            pc@ == p@,
            pc.len() <= s.len(),
            i <= pc.len(),
            s@.take(i as int) == pc@.take(i as int),
        decreases pc.len() - i,
    {
        if s[i] != pc[i] {
            assert(s@.take(pc.len() as int)[i as int] != pc@[i as int]);
            return false;
        }
        assert(s@.take(i + 1) =~= s@.take(i as int).push(s@[i as int]));
        assert(pc@.take(i + 1) =~= pc@.take(i as int).push(pc@[i as int]));
        i = i + 1;
    }
    assert(pc@.take(pc.len() as int) =~= pc@);
    true
}

/// Whether the characters `s` are exactly those of `p`.
pub fn chars_equal(s: &Vec<char>, p: &str) -> (b: bool)
    ensures
        b == (s@ == p@),
{
    let r = starts_with(s, p);
    if r && s.len() == p.unicode_len() {
        assert(s@.take(p@.len() as int) =~= s@);
        true
    } else {
        proof {
            if s@ == p@ {
                assert(s@.take(p@.len() as int) =~= s@);
            }
        }
        false
    }
}

/// Appends the characters of `v` to `s`.
pub fn push_chars(s: &mut String, v: &Vec<char>)
    ensures
        final(s)@ == old(s)@ + v@,
{
    let mut i: usize = 0;
    while i < v.len()
        invariant
            i <= v.len(),
            s@ == old(s)@ + v@.take(i as int),
        decreases v.len() - i,
    {
        string_push(s, v[i]);
        assert(old(s)@ + v@.take(i + 1) =~= (old(s)@ + v@.take(i as int)).push(v@[i as int]));
        i = i + 1;
    }
    assert(v@.take(v.len() as int) =~= v@);
}

/// Appends the characters of `t` to `s`.
pub fn push_str(s: &mut String, t: &str)
    ensures
        final(s)@ == old(s)@ + t@,
{
    let v = chars_of(t);
    push_chars(s, &v);
}

} // verus!
